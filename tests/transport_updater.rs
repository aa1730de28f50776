use screen_server::config::{DestinationPoints, TransportConfig};
use screen_server::content::DestinationEnum;
use screen_server::transport_updater::{create_ojp_request, extract_departures, TransitError};

#[test]
fn extracts_departures() {
        let body = r#"<?xml version="1.0" encoding="UTF-8"?>
<siri:OJP xmlns:siri="http://www.siri.org.uk/siri" xmlns:ojp="http://www.vdv.de/ojp" version="1.0">
    <siri:OJPResponse>
        <siri:ServiceDelivery>
            <ojp:OJPStopEventDelivery>
                <ojp:CalcTime>44</ojp:CalcTime>
                <ojp:StopEventResult>
                    <ojp:StopEvent>
                        <ojp:ThisCall>
                            <ojp:CallAtStop>
                                <siri:StopPointRef>123</siri:StopPointRef>
                                <ojp:StopPointName>
                                    <ojp:Text xml:lang="de">The stop</ojp:Text>
                                </ojp:StopPointName>
                                <ojp:ServiceDeparture>
                                    <ojp:TimetabledTime>2024-07-23T11:02:00Z</ojp:TimetabledTime>
                                    <ojp:EstimatedTime>2024-07-23T11:02:30Z</ojp:EstimatedTime>
                                </ojp:ServiceDeparture>
                                <ojp:Order>14</ojp:Order>
                            </ojp:CallAtStop>
                        </ojp:ThisCall>
                        <ojp:Service>
                            <ojp:OperatingDayRef>2024-07-23</ojp:OperatingDayRef>
                            <ojp:PublishedLineName>
                                <ojp:Text xml:lang="de">4</ojp:Text>
                            </ojp:PublishedLineName>
                            <ojp:OriginStopPointRef>42427</ojp:OriginStopPointRef>
                            <ojp:OriginText>
                                <ojp:Text xml:lang="de">Some origin</ojp:Text>
                            </ojp:OriginText>
                            <ojp:DestinationStopPointRef>345</ojp:DestinationStopPointRef>
                            <ojp:DestinationText>
                                <ojp:Text xml:lang="de">Renens 1</ojp:Text>
                            </ojp:DestinationText>
                        </ojp:Service>
                    </ojp:StopEvent>
                </ojp:StopEventResult>
                <ojp:StopEventResult>
                    <ojp:StopEvent>
                        <ojp:ThisCall>
                            <ojp:CallAtStop>
                                <siri:StopPointRef>123</siri:StopPointRef>
                                <ojp:StopPointName>
                                    <ojp:Text xml:lang="de">The stop</ojp:Text>
                                </ojp:StopPointName>
                                <ojp:ServiceDeparture>
                                    <ojp:TimetabledTime>2024-07-23T11:04:00Z</ojp:TimetabledTime>
                                </ojp:ServiceDeparture>
                                <ojp:Order>1</ojp:Order>
                            </ojp:CallAtStop>
                        </ojp:ThisCall>
                        <ojp:Service>
                            <ojp:OperatingDayRef>2024-07-23</ojp:OperatingDayRef>
                            <ojp:PublishedLineName>
                                <ojp:Text xml:lang="de">8</ojp:Text>
                            </ojp:PublishedLineName>
                            <ojp:OriginStopPointRef>123</ojp:OriginStopPointRef>
                            <ojp:OriginText>
                                <ojp:Text xml:lang="de">Some origin</ojp:Text>
                            </ojp:OriginText>
                            <ojp:DestinationStopPointRef>456</ojp:DestinationStopPointRef>
                            <ojp:DestinationText>
                                <ojp:Text xml:lang="de">Flon</ojp:Text>
                            </ojp:DestinationText>
                        </ojp:Service>
                    </ojp:StopEvent>
                </ojp:StopEventResult>
                <ojp:StopEventResult>
                    <ojp:StopEvent>
                        <ojp:ThisCall>
                            <ojp:CallAtStop>
                                <siri:StopPointRef>123</siri:StopPointRef>
                                <ojp:StopPointName>
                                    <ojp:Text xml:lang="de">The stop</ojp:Text>
                                </ojp:StopPointName>
                                <ojp:ServiceDeparture>
                                    <ojp:TimetabledTime>2024-07-23T11:14:00Z</ojp:TimetabledTime>
                                    <ojp:EstimatedTime>2024-07-23T11:14:30Z</ojp:EstimatedTime>
                                </ojp:ServiceDeparture>
                                <ojp:Order>1</ojp:Order>
                            </ojp:CallAtStop>
                        </ojp:ThisCall>
                        <ojp:Service>
                            <ojp:OperatingDayRef>2024-07-23</ojp:OperatingDayRef>
                            <ojp:PublishedLineName>
                                <ojp:Text xml:lang="de">8</ojp:Text>
                            </ojp:PublishedLineName>
                            <ojp:OriginStopPointRef>123</ojp:OriginStopPointRef>
                            <ojp:OriginText>
                                <ojp:Text xml:lang="de">Some origin</ojp:Text>
                            </ojp:OriginText>
                            <ojp:DestinationStopPointRef>456</ojp:DestinationStopPointRef>
                            <ojp:DestinationText>
                                <ojp:Text xml:lang="de">Flon</ojp:Text>
                            </ojp:DestinationText>
                        </ojp:Service>
                    </ojp:StopEvent>
                </ojp:StopEventResult>
                <ojp:StopEventResult>
                    <ojp:StopEvent>
                        <ojp:ThisCall>
                            <ojp:CallAtStop>
                                <siri:StopPointRef>123</siri:StopPointRef>
                                <ojp:StopPointName>
                                    <ojp:Text xml:lang="de">The stop</ojp:Text>
                                </ojp:StopPointName>
                                <ojp:ServiceDeparture>
                                    <ojp:TimetabledTime>2024-07-23T11:15:00Z</ojp:TimetabledTime>
                                    <ojp:EstimatedTime>2024-07-23T11:15:30Z</ojp:EstimatedTime>
                                </ojp:ServiceDeparture>
                                <ojp:Order>4</ojp:Order>
                            </ojp:CallAtStop>
                        </ojp:ThisCall>
                        <ojp:Service>
                            <ojp:OperatingDayRef>2024-07-23</ojp:OperatingDayRef>
                            <ojp:PublishedLineName>
                                <ojp:Text xml:lang="de">2</ojp:Text>
                            </ojp:PublishedLineName>
                            <ojp:OriginStopPointRef>42420</ojp:OriginStopPointRef>
                            <ojp:OriginText>
                                <ojp:Text xml:lang="de">Some origin</ojp:Text>
                            </ojp:OriginText>
                            <ojp:DestinationStopPointRef>234</ojp:DestinationStopPointRef>
                            <ojp:DestinationText>
                                <ojp:Text xml:lang="de">Renens 2</ojp:Text>
                            </ojp:DestinationText>
                        </ojp:Service>
                    </ojp:StopEvent>
                </ojp:StopEventResult>
                <ojp:StopEventResult>
                    <ojp:StopEvent>
                        <ojp:ThisCall>
                            <ojp:CallAtStop>
                                <siri:StopPointRef>123</siri:StopPointRef>
                                <ojp:StopPointName>
                                    <ojp:Text xml:lang="de">The stop</ojp:Text>
                                </ojp:StopPointName>
                                <ojp:ServiceDeparture>
                                    <ojp:TimetabledTime>2024-07-23T11:15:00Z</ojp:TimetabledTime>
                                    <ojp:EstimatedTime>2024-07-23T11:15:30Z</ojp:EstimatedTime>
                                </ojp:ServiceDeparture>
                                <ojp:Order>8</ojp:Order>
                            </ojp:CallAtStop>
                        </ojp:ThisCall>
                        <ojp:Service>
                            <ojp:OperatingDayRef>2024-07-23</ojp:OperatingDayRef>
                            <ojp:PublishedLineName>
                                <ojp:Text xml:lang="de">2</ojp:Text>
                            </ojp:PublishedLineName>
                            <ojp:OriginStopPointRef>234</ojp:OriginStopPointRef>
                            <ojp:OriginText>
                                <ojp:Text xml:lang="de">Some origin</ojp:Text>
                            </ojp:OriginText>
                            <ojp:DestinationStopPointRef>42428</ojp:DestinationStopPointRef>
                            <ojp:DestinationText>
                                <ojp:Text xml:lang="de">Wrong dest</ojp:Text>
                            </ojp:DestinationText>
                        </ojp:Service>
                    </ojp:StopEvent>
                </ojp:StopEventResult>
            </ojp:OJPStopEventDelivery>
        </siri:ServiceDelivery>
    </siri:OJPResponse>
</siri:OJP>
"#;
        let config = TransportConfig {
            url: "".into(),
            api_key: "".into(),
            stop_id: 123,
            destination_points: vec![
                DestinationPoints {
                    stops: vec![234, 345],
                    destination_name: DestinationEnum::Renens.as_str_name().into(),
                },
                DestinationPoints {
                    stops: vec![456],
                    destination_name: DestinationEnum::Flon.as_str_name().into(),
                },
            ],
        };
        let mut departures = extract_departures(body, &config).expect("should succeed");
        // Let's sort to avoid any nondeterministic flakiness
        departures.sort_by_key(|d| d.departure_time.map_or(i64::MAX, |t| t.seconds));
        assert_eq!(departures.len(), 2);
        // Make sure the code picked up the estimated departure, not the timetable one
        assert_eq!(
            departures[0]
                .departure_time
                .expect("expected a departure with a timestamp")
                .seconds,
            1721732550
        );
        // The second departure doesn't have an estimated time, check that we did fall back to the timetable time
        assert_eq!(
            departures[1]
                .departure_time
                .expect("expected a departure with a timestamp")
                .seconds,
            1721732640
        );
    }

#[test]
fn doesnt_panic_on_empty_response() {
        let body = "";
        let config = TransportConfig::default();
        let departures = extract_departures(body, &config).expect("should succeed");
        assert_eq!(departures.len(), 0);
    }

#[test]
fn enum_string_check() {
        assert_eq!(DestinationEnum::Flon.as_str_name(), "FLON");
    }

#[test]
fn makes_request() {
        let time = "2024-07-26T09:42:09.123Z";
        let fake_now = chrono::NaiveDateTime::parse_from_str(time, "%Y-%m-%dT%H:%M:%S%.3fZ")
            .unwrap()
            .and_utc()
            .timestamp_millis();
        let expected_xml = r#"<?xml version="1.0" encoding="UTF-8"?>
<OJP xmlns:xsi="http://www.w3.org/2001/XMLSchema-instance" xmlns:xsd="http://www.w3.org/2001/XMLSchema" xmlns="http://www.siri.org.uk/siri" version="1.0" xmlns:ojp="http://www.vdv.de/ojp" xsi:schemaLocation="http://www.siri.org.uk/siri ../ojp-xsd-v1.0/OJP.xsd">
    <OJPRequest>
        <ServiceRequest>
            <RequestTimestamp>2024-07-26T09:42:09.123Z</RequestTimestamp>
            <RequestorRef>raspi-screen-server</RequestorRef>
            <ojp:OJPStopEventRequest>
                <RequestTimestamp>2024-07-26T09:42:09.123Z</RequestTimestamp>
                <ojp:Location>
                    <ojp:PlaceRef>
                        <StopPlaceRef>123</StopPlaceRef>
                        <ojp:LocationName>
                            <ojp:Text>ignored</ojp:Text>
                        </ojp:LocationName>
                    </ojp:PlaceRef>
                    <ojp:DepArrTime>2024-07-26T09:42:09.123Z</ojp:DepArrTime>
                </ojp:Location>
                <ojp:Params>
                    <ojp:NumberOfResults>10</ojp:NumberOfResults>
                    <ojp:StopEventType>departure</ojp:StopEventType>
                    <ojp:IncludeRealtimeData>true</ojp:IncludeRealtimeData>
                </ojp:Params>
            </ojp:OJPStopEventRequest>
        </ServiceRequest>
    </OJPRequest>
</OJP>
"#;
        let config = TransportConfig {
            url: "".into(),
            api_key: "".into(),
            stop_id: 123,
            destination_points: vec![],
        };
        assert_eq!(create_ojp_request(&config, fake_now).unwrap(), expected_xml);
    }

fn flon_config() -> TransportConfig {
    TransportConfig {
        url: "".into(),
        api_key: "".into(),
        stop_id: 1,
        destination_points: vec![
            DestinationPoints { stops: vec![7], destination_name: "FLON".into() },
            DestinationPoints { stops: vec![8], destination_name: "NOWHERE".into() },
        ],
    }
}

fn stop_event(times: &str, dest: &str) -> String {
    format!(
        "<ojp:StopEventResult>{}<ojp:DestinationStopPointRef>{}</ojp:DestinationStopPointRef></ojp:StopEventResult>",
        times, dest
    )
}

#[test]
fn estimated_time_wins_even_when_read_first() {
    let body = stop_event(
        "<ojp:EstimatedTime>2024-07-23T11:02:30Z</ojp:EstimatedTime><ojp:TimetabledTime>2024-07-23T11:02:00Z</ojp:TimetabledTime>",
        "7",
    );
    let deps = extract_departures(&body, &flon_config()).unwrap();
    assert_eq!(deps.len(), 1);
    assert_eq!(deps[0].departure_time.unwrap().seconds, 1721732550);
}

#[test]
fn earliest_departure_per_destination_is_kept() {
    let body = format!(
        "<r>{}{}{}</r>",
        stop_event("<ojp:TimetabledTime>2024-07-23T11:10:00Z</ojp:TimetabledTime>", "7"),
        stop_event("<ojp:TimetabledTime>2024-07-23T11:04:00Z</ojp:TimetabledTime>", "7"),
        stop_event("<ojp:TimetabledTime>2024-07-23T11:20:00Z</ojp:TimetabledTime>", "7"),
    );
    let deps = extract_departures(&body, &flon_config()).unwrap();
    assert_eq!(deps.len(), 1);
    assert_eq!(deps[0].destination_enum, DestinationEnum::Flon);
    assert_eq!(deps[0].departure_time.unwrap().seconds, 1721732640);
}

#[test]
fn unknown_stops_and_names_are_discarded() {
    let body = format!(
        "<r>{}{}{}</r>",
        stop_event("<ojp:TimetabledTime>2024-07-23T11:10:00Z</ojp:TimetabledTime>", "99"),
        stop_event("<ojp:TimetabledTime>2024-07-23T11:10:00Z</ojp:TimetabledTime>", "8"),
        stop_event("", "7"),
    );
    let deps = extract_departures(&body, &flon_config()).unwrap();
    assert!(deps.is_empty());
}

#[test]
fn malformed_departure_time_fails_the_board() {
    let body = stop_event("<ojp:TimetabledTime>23 July</ojp:TimetabledTime>", "7");
    let err = extract_departures(&body, &flon_config()).err().unwrap();
    assert_eq!(err, TransitError::Timestamp("23 July".to_string()));
}

#[test]
fn unreadable_stop_id_discards_only_its_record() {
    let body = format!(
        "<r>{}{}{}</r>",
        stop_event("<ojp:TimetabledTime>2024-07-23T11:10:00Z</ojp:TimetabledTime>", "7"),
        stop_event("<ojp:TimetabledTime>2024-07-23T11:04:00Z</ojp:TimetabledTime>", "seven"),
        stop_event("<ojp:TimetabledTime>2024-07-23T11:01:00Z</ojp:TimetabledTime>", "7"),
    );
    let deps = extract_departures(&body, &flon_config()).unwrap();
    assert_eq!(deps.len(), 1);
    assert_eq!(deps[0].departure_time.unwrap().seconds, 1721732460);
}

#[test]
fn destination_names_round_trip() {
    assert_eq!(DestinationEnum::from_str_name("RENENS"), Some(DestinationEnum::Renens));
    assert_eq!(DestinationEnum::from_str_name(DestinationEnum::Flon.as_str_name()), Some(DestinationEnum::Flon));
    assert_eq!(DestinationEnum::from_str_name("flon"), None);
}

#[test]
fn unreadable_stop_id_does_not_hide_a_later_malformed_time() {
    let body = format!(
        "<r>{}{}</r>",
        stop_event("<ojp:TimetabledTime>2024-07-23T11:10:00Z</ojp:TimetabledTime>", "abc"),
        stop_event("<ojp:TimetabledTime>later</ojp:TimetabledTime>", "7"),
    );
    let err = extract_departures(&body, &flon_config()).err().unwrap();
    assert_eq!(err, TransitError::Timestamp("later".to_string()));
}
