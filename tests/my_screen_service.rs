use screen_server::config::{ApiConfig, GcalConfig, KittyConfig, TransportConfig};
use screen_server::content::{Time, Timestamp};
use screen_server::gcal_updater::{GcalUpdateMode, GcalUpdater};
use screen_server::kitty_updater::{KittyUpdateMode, KittyUpdater};
use screen_server::my_screen_service::{
    encode_snapshot, get_brightness_impl, poisoned_snapshot, MyScreenService, Source,
};
use screen_server::transport_updater::{TransportUpdateMode, TransportUpdater};

fn full_config() -> ApiConfig {
    ApiConfig {
        kitty: Some(KittyConfig { url: "http://debts".to_string(), update_period: Some(60) }),
        gcal: Some(GcalConfig { ics_url: "http://cal".to_string(), update_period: Some(300) }),
        transport: Some(TransportConfig::default()),
        brightness_map: vec![(0, 100), (7, 800), (20, 400)],
    }
}

#[test]
fn computes_brightness() {
    let map: Vec<(u32, f32)> = vec![(0, 0.0), (2, 0.5), (3, 0.8), (12, 1.0)];

    assert_eq!(get_brightness_impl(&map, 0), Some(0.0));
    assert_eq!(get_brightness_impl(&map, 1), Some(0.0));
    assert_eq!(get_brightness_impl(&map, 2), Some(0.5));
    assert_eq!(get_brightness_impl(&map, 5), Some(0.8));
    assert_eq!(get_brightness_impl(&map, 11), Some(0.8));
    assert_eq!(get_brightness_impl(&map, 12), Some(1.0));
}

#[test]
fn brightness_is_absent_before_the_first_entry() {
    let map: Vec<(u32, f32)> = vec![(12, 1.0), (6, 0.5)];
    assert_eq!(get_brightness_impl(&map, 3), None);
    assert_eq!(get_brightness_impl(&map, 7), Some(0.5));
    assert_eq!(get_brightness_impl(&map, 23), Some(1.0));
}

#[test]
fn new_service_serves_an_empty_snapshot() {
    let service = MyScreenService::new(&full_config());
    let content = service.get_screen_content();
    assert_eq!(content.now, None);
    assert!(content.kitty_debts.is_empty());
    assert!(content.bus_departures.is_empty());
    assert!(content.next_upcoming_event.is_none());
    assert!(!content.error);
}

#[test]
fn poisoned_snapshot_is_empty_and_errored() {
    let content = poisoned_snapshot();
    assert!(content.error);
    assert_eq!(content.brightness, 0);
    assert_eq!(content.now, None);
    assert!(content.kitty_debts.is_empty());
    assert!(content.bus_departures.is_empty());
}

#[test]
fn error_flag_is_the_or_of_the_sources() {
    let mut service = MyScreenService::new(&full_config());
    service.set_error(Source::Gcal, true);
    service.set_error(Source::Kitty, true);
    assert!(service.get_screen_content().error);
    service.set_error(Source::Gcal, false);
    assert!(service.get_screen_content().error);
    service.set_error(Source::Kitty, false);
    assert!(!service.get_screen_content().error);
}

#[test]
fn hash_changes_with_the_minute_only() {
    let service = MyScreenService::new(&full_config());
    let first = service.get_hash(Time { hours: 9, minutes: 41 });
    let again = service.get_hash(Time { hours: 9, minutes: 41 });
    let later = service.get_hash(Time { hours: 9, minutes: 42 });
    assert_eq!(first, again);
    assert_ne!(first, later);
}

#[test]
fn hash_changes_when_a_source_writes() {
    let mut service = MyScreenService::new(&full_config());
    let now = Time { hours: 9, minutes: 41 };
    let before = service.get_hash(now);
    let transport = TransportUpdater::new(TransportUpdateMode::Dummy, &full_config(), 0);
    let mut transport = transport.unwrap();
    transport.update(&mut service, None, 1_721_732_550);
    assert_ne!(before, service.get_hash(now));
}

#[test]
fn snapshot_serialisation_starts_with_the_time() {
    let mut service = MyScreenService::new(&full_config());
    service.replace_time(Time { hours: 1, minutes: 2 });
    let bytes = encode_snapshot(&service.get_screen_content());
    assert_eq!(&bytes[..10], &[1, 1, 0, 0, 0, 2, 0, 0, 0, 0]);
}

#[test]
fn empty_debt_page_sets_the_error_and_keeps_other_data() {
    let config = full_config();
    let mut service = MyScreenService::new(&config);
    let mut transport = TransportUpdater::new(TransportUpdateMode::Dummy, &config, 0).unwrap();
    let gcal = GcalUpdater::new(GcalUpdateMode::Dummy, &config).unwrap();
    let now = 1_721_732_401;
    transport.update(&mut service, None, now);
    gcal.update(&mut service, None, now);
    let before = service.get_screen_content();
    assert!(!before.error);

    let kitty = KittyUpdater::new(KittyUpdateMode::Real, &config).unwrap();
    kitty.update(&mut service, Some(String::new()), now);
    let after = service.get_screen_content();
    assert!(after.error);
    assert_eq!(after.bus_departures, before.bus_departures);
    assert_eq!(after.next_upcoming_event, before.next_upcoming_event);
    assert!(after.kitty_debts.is_empty());
}

#[test]
fn failed_debt_fetch_keeps_stale_debts() {
    let config = full_config();
    let mut service = MyScreenService::new(&config);
    let dummy = KittyUpdater::new(KittyUpdateMode::Dummy, &config).unwrap();
    dummy.update(&mut service, None, 1_721_732_407);
    let real = KittyUpdater::new(KittyUpdateMode::Real, &config).unwrap();
    real.update(&mut service, None, 1_721_732_408);
    let content = service.get_screen_content();
    assert!(content.error);
    assert_eq!(content.kitty_debts.len(), 1);
    assert_eq!(content.kitty_debts[0].who, "foo");
    assert_eq!(content.kitty_debts[0].how_much.units, 7);
    let body = r#"<div class="transaction-text">Sid gives <span>1.5</span> to Moses</div>"#;
    real.update(&mut service, Some(body.to_string()), 1_721_732_409);
    let content = service.get_screen_content();
    assert!(!content.error);
    assert_eq!(content.kitty_debts[0].who, "Sid");
}

#[test]
fn calendar_poll_writes_the_event_or_keeps_it() {
    let config = full_config();
    let mut service = MyScreenService::new(&config);
    let gcal = GcalUpdater::new(GcalUpdateMode::Real, &config).unwrap();
    gcal.update(&mut service, Some("SUMMARY:Party\nDTSTART:20240720T110000Z\n".to_string()), 0);
    let event = service.get_screen_content().next_upcoming_event.unwrap();
    assert_eq!(event.event_title, "Party");
    assert_eq!(event.event_start, Some(Timestamp { seconds: 1721473200, nanos: 0 }));
    gcal.update(&mut service, Some("DTSTART:bad\n".to_string()), 0);
    let content = service.get_screen_content();
    assert!(content.error);
    assert_eq!(content.next_upcoming_event.unwrap().event_title, "Party");
}

#[test]
fn background_updates_start_in_dummy_mode() {
    let service = MyScreenService::new(&full_config());
    let updaters = service.start_backgound_updates(1000);
    assert_eq!(updaters.kitty.as_ref().unwrap().get_next_update_time(1000), 1019);
    assert_eq!(updaters.gcal.as_ref().unwrap().get_next_update_time(1000), 1029);
    assert_eq!(updaters.transport.as_ref().unwrap().get_next_update_time(1000), 1021);
}

#[test]
fn background_updates_report_missing_sections() {
    let service = MyScreenService::new(&ApiConfig::default());
    let updaters = service.start_backgound_updates(0);
    assert!(updaters.kitty.is_err());
    assert!(updaters.gcal.is_err());
    assert!(updaters.transport.is_err());
}

#[test]
fn snapshot_brightness_follows_the_hour() {
    let mut service = MyScreenService::new(&full_config());
    assert_eq!(service.get_screen_content().brightness, 0);
    service.replace_time(Time { hours: 8, minutes: 0 });
    assert_eq!(service.get_screen_content().brightness, 800);
    service.replace_time(Time { hours: 23, minutes: 0 });
    assert_eq!(service.get_screen_content().brightness, 400);
    assert_ne!(
        service.get_hash(Time { hours: 6, minutes: 59 }),
        service.get_hash(Time { hours: 7, minutes: 59 })
    );
}

#[test]
fn a_failed_poll_writes_nothing_and_raises_its_flag() {

    let config = full_config();
    let kitty = KittyUpdater::new(KittyUpdateMode::Real, &config).unwrap();
    let refresh = kitty.poll(None, 0);
    assert_eq!(refresh.source, Source::Kitty);
    assert!(refresh.write.is_none());
    assert!(refresh.error);
    let mut service = MyScreenService::new(&config);
    service.apply(refresh);
    assert!(service.get_screen_content().error);
}

#[test]
fn a_query_at_a_time_leaves_the_store_alone() {
    let service = MyScreenService::new(&full_config());
    let content = service.get_screen_content_at(Time { hours: 21, minutes: 5 });
    assert_eq!(content.now, Some(Time { hours: 21, minutes: 5 }));
    assert_eq!(content.brightness, 400);
    assert_eq!(service.get_screen_content().now, None);
}

#[test]
fn hour_without_a_table_entry_is_full_brightness() {
    let config = ApiConfig { brightness_map: vec![(6, 300)], ..full_config() };
    let service = MyScreenService::new(&config);
    assert_eq!(service.get_screen_content_at(Time { hours: 2, minutes: 0 }).brightness, 1000);
}

#[test]
fn dummy_calendar_poll_clears_its_error() {
    let config = full_config();
    let gcal = GcalUpdater::new(GcalUpdateMode::Dummy, &config).unwrap();
    let refresh = gcal.poll(None, 1_721_732_410);
    assert!(!refresh.error);
}
