use screen_server::config::{
    ApiConfig, ConfigError, DestinationPoints, GcalConfig, KittyConfig, TransportConfig,
};
use screen_server::data_updater::HttpMethod;
use screen_server::gcal_updater::{GcalUpdateMode, GcalUpdater};
use screen_server::content::{Departure, DestinationEnum, Timestamp};
use screen_server::duration::{later_by, second_of_minute};
use screen_server::kitty_updater::{KittyUpdateMode, KittyUpdater};
use screen_server::my_screen_service::MyScreenService;
use screen_server::transport_updater::{TransportUpdateMode, TransportUpdater};
use screen_server::Duration;

fn departure(seconds: i64) -> Departure {
    Departure {
        destination_enum: DestinationEnum::Flon,
        departure_time: Some(Timestamp { seconds, nanos: 0 }),
    }
}

fn transit_config() -> ApiConfig {
    ApiConfig {
        kitty: None,
        gcal: None,
        transport: Some(TransportConfig::default()),
        brightness_map: vec![],
    }
}

#[test]
fn next_poll_is_just_after_the_departure() {
    let r = TransportUpdater::get_duration_to_next_departure(
        Some(departure(1300)),
        Duration::from_secs(1),
        1000,
    );
    assert_eq!(r, Some(1301));
}

#[test]
fn imminent_departure_retries_in_a_minute() {
    let r = TransportUpdater::get_duration_to_next_departure(
        Some(departure(990)),
        Duration::from_secs(1),
        1000,
    );
    assert_eq!(r, Some(1060));
}

#[test]
fn stale_departure_gives_no_time() {
    let r = TransportUpdater::get_duration_to_next_departure(
        Some(departure(900)),
        Duration::from_secs(1),
        1000,
    );
    assert_eq!(r, None);
    assert_eq!(
        TransportUpdater::get_duration_to_next_departure(None, Duration::from_secs(1), 1000),
        None
    );
}

#[test]
fn planned_poll_follows_the_earliest_departure() {
    let mut updater = TransportUpdater::new(TransportUpdateMode::Real, &transit_config(), 0).unwrap();
    assert_eq!(updater.get_next_update_time(0), 600);
    let mut deps = vec![departure(2000), departure(1500), departure(1800)];
    updater.set_next_update_time(&mut deps, 1000);
    assert_eq!(updater.get_next_update_time(1000), 1501);
    assert_eq!(deps, vec![departure(1500), departure(1800), departure(2000)]);
    updater.set_next_update_time(&mut vec![], 1000);
    assert_eq!(updater.get_next_update_time(1000), 1600);
}

#[test]
fn past_plan_falls_back_to_ten_minutes() {
    let mut updater = TransportUpdater::new(TransportUpdateMode::Real, &transit_config(), 0).unwrap();
    updater.set_next_update_time(&mut vec![departure(1500)], 1000);
    assert_eq!(updater.get_next_update_time(2000), 2600);
}

#[test]
fn failed_transit_poll_sets_error_and_plans_default() {
    let mut service = MyScreenService::new(&transit_config());
    let mut updater = TransportUpdater::new(TransportUpdateMode::Real, &transit_config(), 0).unwrap();
    updater.update(&mut service, None, 5000);
    assert!(service.get_screen_content().error);
    assert_eq!(updater.get_next_update_time(5000), 5600);
    updater.update(&mut service, Some(String::new()), 5000);
    assert!(!service.get_screen_content().error);
    assert!(service.get_screen_content().bus_departures.is_empty());
}

#[test]
fn dummy_transit_departure_is_seconds_as_minutes_ahead() {
    let mut service = MyScreenService::new(&transit_config());
    let mut updater = TransportUpdater::new(TransportUpdateMode::Dummy, &transit_config(), 0).unwrap();
    updater.update(&mut service, None, 125);
    let deps = service.get_screen_content().bus_departures;
    assert_eq!(deps, vec![departure(125 + 5 * 60)]);
}

#[test]
fn kitty_period_comes_from_the_configuration() {
    let config = ApiConfig {
        kitty: Some(KittyConfig { url: "u".to_string(), update_period: Some(90) }),
        gcal: None,
        transport: None,
        brightness_map: vec![],
    };
    let updater = KittyUpdater::new(KittyUpdateMode::Real, &config).unwrap();
    assert_eq!(updater.get_next_update_time(10), 100);
    assert_eq!(updater.url(), "u");
}

#[test]
fn configuration_errors_are_told_apart() {
    let mut config = ApiConfig::default();
    assert_eq!(KittyUpdater::new(KittyUpdateMode::Real, &config).err(), Some(ConfigError::MissingSection));
    config.kitty = Some(KittyConfig { url: String::new(), update_period: None });
    assert_eq!(KittyUpdater::new(KittyUpdateMode::Real, &config).err(), Some(ConfigError::MissingPeriod));
    config.kitty = Some(KittyConfig { url: String::new(), update_period: Some(-1) });
    assert_eq!(KittyUpdater::new(KittyUpdateMode::Real, &config).err(), Some(ConfigError::NegativePeriod));
}

#[test]
fn instants_saturate_and_seconds_wrap() {
    assert_eq!(later_by(i64::MAX - 1, 10), i64::MAX);
    assert_eq!(later_by(i64::MIN + 1, -10), i64::MIN);
    assert_eq!(second_of_minute(-1), 59);
    assert_eq!(second_of_minute(125), 5);
}

#[test]
fn real_sources_ask_for_their_requests() {
    let config = ApiConfig {
        kitty: Some(KittyConfig { url: "http://debts".to_string(), update_period: Some(60) }),
        gcal: Some(GcalConfig { ics_url: "http://cal".to_string(), update_period: Some(60) }),
        transport: Some(TransportConfig {
            url: "http://board".to_string(),
            api_key: "key".to_string(),
            stop_id: 8588845,
            destination_points: vec![],
        }),
        brightness_map: vec![],
    };
    let kitty = KittyUpdater::new(KittyUpdateMode::Real, &config).unwrap();
    let request = kitty.next_request(0).unwrap();
    assert_eq!(request.method, HttpMethod::Get);
    assert_eq!(request.url, "http://debts");
    assert_eq!(request.body, None);
    let gcal = GcalUpdater::new(GcalUpdateMode::Real, &config).unwrap();
    assert_eq!(gcal.next_request(0).unwrap().url, "http://cal");
    let transport = TransportUpdater::new(TransportUpdateMode::Real, &config, 0).unwrap();
    let request = transport.next_request(1_721_986_929_123).unwrap();
    assert_eq!(request.method, HttpMethod::Post);
    assert_eq!(request.url, "http://board");
    assert_eq!(request.bearer, Some("key".to_string()));
    let body = request.body.unwrap();
    assert_eq!(body.matches("2024-07-26T09:42:09.123Z").count(), 3);
    assert!(body.contains("<StopPlaceRef>8588845</StopPlaceRef>"));
    let dummy = TransportUpdater::new(TransportUpdateMode::Dummy, &config, 0).unwrap();
    assert!(dummy.next_request(0).is_none());
}

#[test]
fn stored_departures_are_in_time_order() {
    let config = ApiConfig {
        kitty: None,
        gcal: None,
        transport: Some(TransportConfig {
            url: String::new(),
            api_key: String::new(),
            stop_id: 1,
            destination_points: vec![
                DestinationPoints { stops: vec![1], destination_name: "FLON".to_string() },
                DestinationPoints { stops: vec![2], destination_name: "RENENS".to_string() },
            ],
        }),
        brightness_map: vec![],
    };
    let board = "<r><ojp:StopEventResult><ojp:TimetabledTime>2024-07-23T11:20:00Z</ojp:TimetabledTime>\
<ojp:DestinationStopPointRef>1</ojp:DestinationStopPointRef></ojp:StopEventResult>\
<ojp:StopEventResult><ojp:TimetabledTime>2024-07-23T11:10:00Z</ojp:TimetabledTime>\
<ojp:DestinationStopPointRef>2</ojp:DestinationStopPointRef></ojp:StopEventResult></r>";
    let mut service = MyScreenService::new(&config);
    let mut updater = TransportUpdater::new(TransportUpdateMode::Real, &config, 0).unwrap();
    updater.update(&mut service, Some(board.to_string()), 1_721_732_000);
    let deps = service.get_screen_content().bus_departures;
    assert_eq!(deps.len(), 2);
    assert_eq!(deps[0].destination_enum, DestinationEnum::Renens);
    assert_eq!(deps[1].destination_enum, DestinationEnum::Flon);
}
