use vstd::multiset::Multiset;
use vstd::prelude::*;

use quick_xml::events::Event;

use crate::config::{ApiConfig, ConfigError, DestinationPoints, TransportConfig, points_view};
use crate::duration::{add_secs, later_by, second_of_minute, Duration};
use crate::data_updater::{DataUpdater, FetchRequest, HttpMethod};
use crate::my_screen_service::{ContentWrite, MyScreenService, Refresh, Source, StoreState};
use crate::content::{destination_named, str_equal, Departure, DestinationEnum, Timestamp};
use crate::text::{parse_u32, parse_u32_spec};
use crate::timefmt::{format_utc_millis, formatted_utc_of, parse_utc_seconds, utc_seconds_of};

verus! {

/// One lexical event of an XML document, as the departure scan reads it.
#[derive(Debug)]
pub enum XmlToken {
    /// An opening tag, by its qualified name.
    Start(String),
    /// A closing tag, by its qualified name.
    End(String),
    /// Character data, unescaped; `None` where it could not be unescaped.
    Text(Option<String>),
    /// Anything else (empty elements, comments, declarations, ...).
    Other,
}

/// An XML event as a mathematical value.
pub ghost enum XmlEvent {
    Start(Seq<char>),
    End(Seq<char>),
    Text(Option<Seq<char>>),
    Other,
}

impl View for XmlToken {
    type V = XmlEvent;

    open spec fn view(&self) -> XmlEvent {
        match self {
            XmlToken::Start(n) => XmlEvent::Start(n@),
            XmlToken::End(n) => XmlEvent::End(n@),
            XmlToken::Text(t) => XmlEvent::Text(
                match t {
                    Some(s) => Some(s@),
                    None => None,
                },
            ),
            XmlToken::Other => XmlEvent::Other,
        }
    }
}

pub open spec fn events_of(tokens: Seq<XmlToken>) -> Seq<XmlEvent> {
    tokens.map_values(|t: XmlToken| t@)
}

/// The events that quick-xml reads from `body`, up to its end or its first
/// error, with text trimmed of surrounding whitespace where `trim` is set.
pub uninterp spec fn xml_events_of(body: Seq<char>, trim: bool) -> Seq<XmlEvent>;

/// Relies on quick-xml's `Reader::read_event`, run over the whole of `body`:
/// the events depend on the body and the trimming option alone, and an empty
/// body gives `Eof` at once.
#[verifier::external_body]
fn xml_tokens(body: &str, trim: bool) -> (r: Vec<XmlToken>)
    ensures
        events_of(r@) == xml_events_of(body@, trim),
        body@.len() == 0 ==> r@.len() == 0,
{
    let mut reader = quick_xml::Reader::from_str(body);
    reader.config_mut().trim_text(trim);
    let mut out = Vec::new();
    loop {
        out.push(match reader.read_event() {
            Ok(Event::Start(e)) => XmlToken::Start(String::from_utf8_lossy(e.name().as_ref()).into()),
            Ok(Event::End(e)) => XmlToken::End(String::from_utf8_lossy(e.name().as_ref()).into()),
            Ok(Event::Text(t)) => XmlToken::Text(t.unescape().ok().map(|s| s.into_owned())),
            Ok(Event::Eof) | Err(_) => return out,
            Ok(_) => XmlToken::Other,
        });
    }
}

/// A departure record under construction, between the boundaries of one
/// stop event.
#[derive(Clone, Copy, Debug, PartialEq, Eq, Structural)]
pub struct DepartureBuilder {
    pub departure_time: Option<i64>,
    pub estimated: bool,
    pub dest_id: Option<u32>,
}

/// What the token after an opening tag is read as.
#[derive(Clone, Copy, Debug, PartialEq, Eq, Structural)]
pub enum Awaiting {
    Nothing,
    TimetabledTime,
    EstimatedTime,
    DestinationId,
}

/// Why a departure board could not be read.
#[derive(Debug, PartialEq)]
pub enum TransitError {
    /// A departure time that does not follow the timestamp grammar.
    Timestamp(String),
    /// A departure time whose escapes could not be resolved.
    Unescapable,
}

/// The state of the scan between two events.
pub ghost struct ScanState {
    pub builder: DepartureBuilder,
    pub awaiting: Awaiting,
    pub departures: Seq<Departure>,
}

/// Where the scan stands: still reading, or failed on a time (with its text, where it could be unescaped).
pub ghost enum ScanOutcome {
    Running(ScanState),
    Failed(Option<Seq<char>>),
}

pub open spec fn empty_builder() -> DepartureBuilder {
    DepartureBuilder { departure_time: None, estimated: false, dest_id: None }
}

pub open spec fn initial_scan() -> ScanState {
    ScanState { builder: empty_builder(), awaiting: Awaiting::Nothing, departures: seq![] }
}

pub open spec fn transit_time_format() -> Seq<char> {
    "%Y-%m-%dT%H:%M:%SZ"@
}

/// The logical destination of stop `id`: that of the first configured group
/// that lists it, where its name is a known destination.
pub open spec fn destination_for(points: Seq<DestinationPoints>, id: u32) -> Option<
    DestinationEnum,
>
    decreases points.len(),
{
    if points.len() == 0 {
        None
    } else if points[0].stops@.contains(id) {
        destination_named(points[0].destination_name@)
    } else {
        destination_for(points.drop_first(), id)
    }
}

pub open spec fn has_destination(deps: Seq<Departure>, dest: DestinationEnum) -> bool {
    exists|i: int| 0 <= i < deps.len() && (#[trigger] deps[i]).destination_enum == dest
}

/// `a` leaves strictly before `b`.
pub open spec fn departs_before(a: Departure, b: Departure) -> bool {
    a.departure_time is Some && b.departure_time is Some && a.departure_time->0.seconds
        < b.departure_time->0.seconds
}

/// The set of departures with `d` taken in: it replaces the one for the same
/// destination where it leaves earlier, and is added where there is none.
pub open spec fn merge_departure(deps: Seq<Departure>, d: Departure) -> Seq<Departure> {
    if has_destination(deps, d.destination_enum) {
        deps.map_values(
            |e: Departure|
                if e.destination_enum == d.destination_enum && departs_before(d, e) {
                    d
                } else {
                    e
                },
        )
    } else {
        deps.push(d)
    }
}

/// No two departures share a destination.
pub open spec fn unique_destinations(deps: Seq<Departure>) -> bool {
    forall|i: int, j: int|
        0 <= i < deps.len() && 0 <= j < deps.len() && i != j ==> (#[trigger] deps[i]).destination_enum
            != (#[trigger] deps[j]).destination_enum
}

/// One departure per destination, each with a time.
pub open spec fn well_formed_departures(deps: Seq<Departure>) -> bool {
    &&& unique_destinations(deps)
    &&& forall|i: int| 0 <= i < deps.len() ==> (#[trigger] deps[i]).departure_time is Some
}

/// What closing a stop event adds: a departure where both a time and a
/// destination stop were read and the stop belongs to a logical destination.
pub open spec fn close_event(
    points: Seq<DestinationPoints>,
    b: DepartureBuilder,
    deps: Seq<Departure>,
) -> Seq<Departure> {
    match record_of(points, b) {
        Some(d) => merge_departure(deps, d),
        None => deps,
    }
}

/// The departure that a stop event built as `b` stands for: where it has a
/// time and a stop of a logical destination.
pub open spec fn record_of(points: Seq<DestinationPoints>, b: DepartureBuilder) -> Option<
    Departure,
> {
    match (b.departure_time, b.dest_id) {
        (Some(t), Some(id)) => match destination_for(points, id) {
            Some(dest) => Some(
                Departure {
                    destination_enum: dest,
                    departure_time: Some(Timestamp { seconds: t, nanos: 0 }),
                },
            ),
            None => None,
        },
        _ => None,
    }
}

/// The builder after a departure time is read: an estimated time always
/// wins, a timetabled one only where no estimated time was read.
pub open spec fn with_time(b: DepartureBuilder, t: i64, estimated: bool) -> DepartureBuilder {
    if estimated {
        DepartureBuilder { departure_time: Some(t), estimated: true, ..b }
    } else if b.estimated {
        b
    } else {
        DepartureBuilder { departure_time: Some(t), ..b }
    }
}

/// One step of the scan. A stop reference that is not a number leaves the
/// record without a stop, so that only that record is discarded.
pub open spec fn scan_step(
    points: Seq<DestinationPoints>,
    s: ScanState,
    e: XmlEvent,
) -> ScanOutcome {
    let idle = ScanState { awaiting: Awaiting::Nothing, ..s };
    match s.awaiting {
        Awaiting::TimetabledTime | Awaiting::EstimatedTime => match e {
            XmlEvent::Text(Some(t)) => match utc_seconds_of(t, transit_time_format()) {
                Some(secs) => ScanOutcome::Running(
                    ScanState {
                        builder: with_time(
                            s.builder,
                            secs,
                            s.awaiting == Awaiting::EstimatedTime,
                        ),
                        ..idle
                    },
                ),
                None => ScanOutcome::Failed(Some(t)),
            },
            XmlEvent::Text(None) => ScanOutcome::Failed(None),
            _ => ScanOutcome::Running(idle),
        },
        Awaiting::DestinationId => match e {
            XmlEvent::Text(Some(t)) => match parse_u32_spec(t) {
                Some(id) => ScanOutcome::Running(
                    ScanState { builder: DepartureBuilder { dest_id: Some(id), ..s.builder }, ..idle },
                ),
                None => ScanOutcome::Running(
                    ScanState { builder: DepartureBuilder { dest_id: None, ..s.builder }, ..idle },
                ),
            },
            XmlEvent::Text(None) => ScanOutcome::Running(
                ScanState { builder: DepartureBuilder { dest_id: None, ..s.builder }, ..idle },
            ),
            _ => ScanOutcome::Running(idle),
        },
        Awaiting::Nothing => match e {
            XmlEvent::Start(n) => ScanOutcome::Running(
                if n == "ojp:StopEventResult"@ {
                    ScanState { builder: empty_builder(), ..s }
                } else if n == "ojp:TimetabledTime"@ {
                    ScanState { awaiting: Awaiting::TimetabledTime, ..s }
                } else if n == "ojp:EstimatedTime"@ {
                    ScanState { awaiting: Awaiting::EstimatedTime, ..s }
                } else if n == "ojp:DestinationStopPointRef"@ {
                    ScanState { awaiting: Awaiting::DestinationId, ..s }
                } else {
                    s
                },
            ),
            XmlEvent::End(n) => ScanOutcome::Running(
                if n == "ojp:StopEventResult"@ {
                    ScanState {
                        builder: empty_builder(),
                        awaiting: Awaiting::Nothing,
                        departures: close_event(points, s.builder, s.departures),
                    }
                } else {
                    s
                },
            ),
            _ => ScanOutcome::Running(s),
        },
    }
}

/// The scan after the first `n` events.
pub open spec fn scan_prefix(points: Seq<DestinationPoints>, events: Seq<XmlEvent>, n: nat) -> ScanOutcome
    decreases n,
{
    if n == 0 {
        ScanOutcome::Running(initial_scan())
    } else {
        match scan_prefix(points, events, (n - 1) as nat) {
            ScanOutcome::Running(s) => if n - 1 < events.len() {
                scan_step(points, s, events[n - 1])
            } else {
                ScanOutcome::Running(s)
            },
            other => other,
        }
    }
}

/// The departures that the whole scan keeps, or `None` where it failed.
pub open spec fn scanned_departures(points: Seq<DestinationPoints>, events: Seq<XmlEvent>) -> Option<
    Seq<Departure>,
> {
    match scan_prefix(points, events, events.len()) {
        ScanOutcome::Running(s) => Some(s.departures),
        ScanOutcome::Failed(_) => None,
    }
}

/// The text of the time that the scan failed on, where it failed on one.
pub open spec fn scan_failure(points: Seq<DestinationPoints>, events: Seq<XmlEvent>) -> Option<
    Option<Seq<char>>,
> {
    match scan_prefix(points, events, events.len()) {
        ScanOutcome::Failed(t) => Some(t),
        _ => None,
    }
}

/// What extraction returns on `events`, stated over the scan.
pub open spec fn extraction_matches(
    points: Seq<DestinationPoints>,
    events: Seq<XmlEvent>,
    r: Result<Vec<Departure>, TransitError>,
) -> bool {
    match r {
        Ok(v) => scanned_departures(points, events) == Some(v@),
        Err(TransitError::Timestamp(t)) => scan_failure(points, events) == Some(Some(t@)),
        Err(TransitError::Unescapable) => scan_failure(points, events) == Some(
            None::<Seq<char>>,
        ),
    }
}


/// The logical destination of stop `id` under the configured groups.
fn find_destination(points: &Vec<DestinationPoints>, id: u32) -> (r: Option<DestinationEnum>)
    ensures
        r == destination_for(points@, id),
{
    let mut k: usize = 0;
    assert(points@.skip(0) =~= points@);
    while k < points.len()
        invariant
            k <= points@.len(),
            destination_for(points@, id) == destination_for(points@.skip(k as int), id),
        decreases points@.len() - k,
    {
        let p = &points[k];
        let ghost rest = points@.skip(k as int);
        assert(rest[0] == points@[k as int]);
        assert(rest.drop_first() =~= points@.skip(k + 1));
        let mut found = false;
        let mut j: usize = 0;
        while j < p.stops.len()
            invariant
                j <= p.stops@.len(),
                found == (exists|x: int| 0 <= x < j && p.stops@[x] == id),
            decreases p.stops@.len() - j,
        {
            if p.stops[j] == id {
                found = true;
            }
            j += 1;
        }
        if found {
            return DestinationEnum::from_str_name(p.destination_name.as_str());
        }
        assert(!p.stops@.contains(id));
        k += 1;
    }
    None
}

fn departs_before_exec(a: &Departure, b: &Departure) -> (r: bool)
    ensures
        r == departs_before(*a, *b),
{
    match (a.departure_time, b.departure_time) {
        (Some(x), Some(y)) => x.seconds < y.seconds,
        _ => false,
    }
}

/// Takes `d` into the departures, keeping the earliest per destination.
fn merge_into(deps: &mut Vec<Departure>, d: Departure)
    requires
        well_formed_departures(old(deps)@),
        d.departure_time is Some,
    ensures
        final(deps)@ == merge_departure(old(deps)@, d),
        well_formed_departures(final(deps)@),
{
    let mut j: usize = 0;
    while j < deps.len()
        invariant
            deps@ == old(deps)@,
            well_formed_departures(old(deps)@),
            j <= deps@.len(),
            forall|k: int| 0 <= k < j ==> deps@[k].destination_enum != d.destination_enum,
        decreases deps@.len() - j,
    {
        if deps[j].destination_enum == d.destination_enum {
            let ghost before = deps@;
            assert(has_destination(before, d.destination_enum));
            let replace = departs_before_exec(&d, &deps[j]);
            if replace {
                deps.set(j, d);
            }
            assert forall|k: int| 0 <= k < before.len() && k != j implies before[k].destination_enum
                != d.destination_enum by {
                assert(before[k].destination_enum != before[j as int].destination_enum);
            }
            assert(deps@ =~= merge_departure(before, d));
            return;
        }
        j += 1;
    }
    assert(!has_destination(deps@, d.destination_enum));
    deps.push(d);
}

/// How one token leaves the scan.
enum Flow {
    Continue,
    Fail(TransitError),
}

fn is_named(name: &String, lit: &str) -> (r: bool)
    ensures
        r == (name@ == lit@),
{
    str_equal(name.as_str(), lit)
}

/// Reads one token into the scan state.
fn scan_token(
    points: &Vec<DestinationPoints>,
    builder: &mut DepartureBuilder,
    awaiting: &mut Awaiting,
    deps: &mut Vec<Departure>,
    tok: &XmlToken,
) -> (r: Flow)
    requires
        well_formed_departures(old(deps)@),
    ensures
        well_formed_departures(final(deps)@),
        match scan_step(
            points@,
            ScanState { builder: *old(builder), awaiting: *old(awaiting), departures: old(deps)@ },
            tok@,
        ) {
            ScanOutcome::Running(s) => r is Continue && s == (ScanState {
                builder: *final(builder),
                awaiting: *final(awaiting),
                departures: final(deps)@,
            }),
            ScanOutcome::Failed(t) => match r {
                Flow::Fail(TransitError::Timestamp(x)) => t == Some(x@),
                Flow::Fail(TransitError::Unescapable) => t is None,
                _ => false,
            },
        },
{
    match *awaiting {
        Awaiting::TimetabledTime | Awaiting::EstimatedTime => {
            let estimated = *awaiting == Awaiting::EstimatedTime;
            *awaiting = Awaiting::Nothing;
            match tok {
                XmlToken::Text(Some(t)) => match parse_utc_seconds(t.as_str(), "%Y-%m-%dT%H:%M:%SZ") {
                    Some(secs) => {
                        if estimated {
                            builder.departure_time = Some(secs);
                            builder.estimated = true;
                        } else if !builder.estimated {
                            builder.departure_time = Some(secs);
                        }
                        Flow::Continue
                    },
                    None => Flow::Fail(TransitError::Timestamp(t.clone())),
                },
                XmlToken::Text(None) => Flow::Fail(TransitError::Unescapable),
                _ => Flow::Continue,
            }
        },
        Awaiting::DestinationId => {
            *awaiting = Awaiting::Nothing;
            match tok {
                XmlToken::Text(Some(t)) => match parse_u32(t.as_str()) {
                    Some(id) => {
                        builder.dest_id = Some(id);
                        Flow::Continue
                    },
                    None => {
                        builder.dest_id = None;
                        Flow::Continue
                    },
                },
                XmlToken::Text(None) => {
                    builder.dest_id = None;
                    Flow::Continue
                },
                _ => Flow::Continue,
            }
        },
        Awaiting::Nothing => {
            match tok {
                XmlToken::Start(n) => {
                    if is_named(n, "ojp:StopEventResult") {
                        *builder = DepartureBuilder {
                            departure_time: None,
                            estimated: false,
                            dest_id: None,
                        };
                    } else if is_named(n, "ojp:TimetabledTime") {
                        *awaiting = Awaiting::TimetabledTime;
                    } else if is_named(n, "ojp:EstimatedTime") {
                        *awaiting = Awaiting::EstimatedTime;
                    } else if is_named(n, "ojp:DestinationStopPointRef") {
                        *awaiting = Awaiting::DestinationId;
                    }
                },
                XmlToken::End(n) => {
                    if is_named(n, "ojp:StopEventResult") {
                        if let (Some(t), Some(id)) = (builder.departure_time, builder.dest_id) {
                            if let Some(dest) = find_destination(points, id) {
                                merge_into(
                                    deps,
                                    Departure {
                                        destination_enum: dest,
                                        departure_time: Some(Timestamp { seconds: t, nanos: 0 }),
                                    },
                                );
                            }
                        }
                        *builder = DepartureBuilder {
                            departure_time: None,
                            estimated: false,
                            dest_id: None,
                        };
                    }
                },
                _ => {},
            }
            Flow::Continue
        },
    }
}

proof fn lemma_scan_settled(
    points: Seq<DestinationPoints>,
    events: Seq<XmlEvent>,
    n: nat,
    m: nat,
)
    requires
        n <= m,
        !(scan_prefix(points, events, n) is Running),
    ensures
        scan_prefix(points, events, m) == scan_prefix(points, events, n),
    decreases m - n,
{
    if n < m {
        lemma_scan_settled(points, events, n, (m - 1) as nat);
    }
}

/// The departures on a board given as its XML events: at most one per
/// logical destination, the earliest one read for it.
pub fn extract_departures_from_tokens(tokens: &Vec<XmlToken>, config: &TransportConfig) -> (r:
    Result<Vec<Departure>, TransitError>)
    ensures
        extraction_matches(config.destination_points@, events_of(tokens@), r),
        r matches Ok(v) ==> well_formed_departures(v@),
{
    let ghost points = config.destination_points@;
    let ghost events = events_of(tokens@);
    let mut builder = DepartureBuilder { departure_time: None, estimated: false, dest_id: None };
    let mut awaiting = Awaiting::Nothing;
    let mut deps: Vec<Departure> = Vec::new();
    let mut i: usize = 0;
    assert(deps@ =~= Seq::<Departure>::empty());
    while i < tokens.len()
        invariant
            points == config.destination_points@,
            events == events_of(tokens@),
            events.len() == tokens@.len(),
            i <= tokens@.len(),
            well_formed_departures(deps@),
            scan_prefix(points, events, i as nat) == ScanOutcome::Running(
                ScanState { builder, awaiting, departures: deps@ },
            ),
        decreases tokens@.len() - i,
    {
        assert(events[i as int] == tokens@[i as int]@);
        let flow = scan_token(&config.destination_points, &mut builder, &mut awaiting, &mut deps, &tokens[i]);
        match flow {
            Flow::Continue => {},
            Flow::Fail(e) => {
                proof {
                    lemma_scan_settled(points, events, (i + 1) as nat, events.len());
                }
                return Err(e);
            },
        }
        i += 1;
    }
    Ok(deps)
}

/// The departures on the XML departure board `body`: at most one per logical
/// destination, the earliest one read for it. A departure time that does not
/// follow the timestamp grammar fails the whole board.
pub fn extract_departures(body: &str, config: &TransportConfig) -> (r: Result<
    Vec<Departure>,
    TransitError,
>)
    ensures
        extraction_matches(config.destination_points@, xml_events_of(body@, true), r),
        r matches Ok(v) ==> well_formed_departures(v@),
        body@.len() == 0 ==> (r matches Ok(v) && v@.len() == 0),
{
    let tokens = xml_tokens(body, true);
    proof {
        if body@.len() == 0 {
            assert(events_of(tokens@) =~= Seq::<XmlEvent>::empty());
            lemma_board_without_events(config.destination_points@, 0);
        }
    }
    extract_departures_from_tokens(&tokens, config)
}


/// Taking a departure in keeps one record per destination, and the record
/// kept for its destination is the earlier of the one there and the new one.
pub proof fn lemma_merge_keeps_earliest(deps: Seq<Departure>, d: Departure)
    requires
        well_formed_departures(deps),
        d.departure_time is Some,
    ensures
        well_formed_departures(merge_departure(deps, d)),
        has_destination(merge_departure(deps, d), d.destination_enum),
        forall|i: int|
            0 <= i < merge_departure(deps, d).len() && (#[trigger] merge_departure(
                deps,
                d,
            )[i]).destination_enum == d.destination_enum ==> {
                let kept = merge_departure(deps, d)[i];
                &&& kept.departure_time->0.seconds <= d.departure_time->0.seconds
                &&& (i < deps.len() ==> kept.departure_time->0.seconds
                    <= deps[i].departure_time->0.seconds)
                &&& (kept == d || (i < deps.len() && kept == deps[i]))
            },
        merge_departure(deps, d).len() >= deps.len(),
        forall|i: int|
            0 <= i < deps.len() && deps[i].destination_enum != d.destination_enum
                ==> #[trigger] merge_departure(deps, d)[i] == deps[i],
        forall|i: int|
            0 <= i < merge_departure(deps, d).len() ==> #[trigger] merge_departure(deps, d)[i]
                == d || (i < deps.len() && merge_departure(deps, d)[i] == deps[i]),
{
    let m = merge_departure(deps, d);
    if has_destination(deps, d.destination_enum) {
        let j = choose|j: int| 0 <= j < deps.len() && (#[trigger] deps[j]).destination_enum == d.destination_enum;
        assert(m[j].destination_enum == d.destination_enum);
    } else {
        assert(m[deps.len() as int] == d);
    }
}

/// Whether event `e` closes a stop event when the scan stands at `s`.
pub open spec fn closes_event(s: ScanState, e: XmlEvent) -> bool {
    s.awaiting == Awaiting::Nothing && (e matches XmlEvent::End(n) && n == "ojp:StopEventResult"@)
}

/// The departure that the `k`-th event (from 1) closes, where it closes a
/// stop event that stands for one.
pub open spec fn closed_at(points: Seq<DestinationPoints>, events: Seq<XmlEvent>, k: nat) -> Option<
    Departure,
> {
    if k == 0 || k > events.len() {
        None
    } else {
        match scan_prefix(points, events, (k - 1) as nat) {
            ScanOutcome::Running(s) => if closes_event(s, events[k - 1]) {
                record_of(points, s.builder)
            } else {
                None
            },
            _ => None,
        }
    }
}

/// `deps` holds, for the destination of `c`, a departure no later than `c`.
pub open spec fn keeps_no_later(deps: Seq<Departure>, c: Departure) -> bool {
    exists|i: int|
        0 <= i < deps.len() && (#[trigger] deps[i]).destination_enum == c.destination_enum
            && departure_key(deps[i]) <= departure_key(c)
}

/// `d` is a departure that one of the first `n` events closed.
pub open spec fn closed_within(
    points: Seq<DestinationPoints>,
    events: Seq<XmlEvent>,
    n: nat,
    d: Departure,
) -> bool {
    exists|k: nat| 1 <= k <= n && #[trigger] closed_at(points, events, k) == Some(d)
}

/// After `n` events, the scan holds one departure per destination, each of
/// them one that a stop event stood for, and none later than any stop event
/// closed so far for its destination.
pub proof fn lemma_scan_keeps_earliest(
    points: Seq<DestinationPoints>,
    events: Seq<XmlEvent>,
    n: nat,
)
    requires
        n <= events.len(),
        scan_prefix(points, events, n) is Running,
    ensures
        ({
            let deps = scan_prefix(points, events, n)->Running_0.departures;
            &&& well_formed_departures(deps)
            &&& forall|k: nat|
                1 <= k <= n && (#[trigger] closed_at(points, events, k)) is Some ==> keeps_no_later(
                    deps,
                    closed_at(points, events, k)->0,
                )
            &&& forall|i: int| 0 <= i < deps.len() ==> closed_within(points, events, n, #[trigger] deps[i])
        }),
    decreases n,
{
    if n > 0 {
        let m = (n - 1) as nat;
        assert(scan_prefix(points, events, m) is Running);
        lemma_scan_keeps_earliest(points, events, m);
        let s = scan_prefix(points, events, m)->Running_0;
        let e = events[m as int];
        let old_deps = s.departures;
        let deps = scan_prefix(points, events, n)->Running_0.departures;
        if closes_event(s, e) && record_of(points, s.builder) is Some {
            let c = record_of(points, s.builder)->0;
            assert(closed_at(points, events, n) == Some(c));
            assert(deps == merge_departure(old_deps, c));
            lemma_merge_keeps_earliest(old_deps, c);
            assert forall|k: nat|
                1 <= k <= n && (#[trigger] closed_at(points, events, k)) is Some implies keeps_no_later(
                deps,
                closed_at(points, events, k)->0,
            ) by {
                let ck = closed_at(points, events, k)->0;
                if k < n {
                    let i = choose|i: int|
                        0 <= i < old_deps.len() && (#[trigger] old_deps[i]).destination_enum
                            == ck.destination_enum && departure_key(old_deps[i]) <= departure_key(ck);
                    assert(deps[i].destination_enum == old_deps[i].destination_enum || deps[i] == c);
                    assert(deps[i].destination_enum == ck.destination_enum);
                } else {
                    let j = choose|j: int|
                        0 <= j < deps.len() && (#[trigger] deps[j]).destination_enum
                            == c.destination_enum;
                    assert(departure_key(deps[j]) <= departure_key(c));
                }
            }
            assert forall|i: int| 0 <= i < deps.len() implies closed_within(
                points,
                events,
                n,
                #[trigger] deps[i],
            ) by {
                if deps[i] == c {
                    assert(closed_at(points, events, n) == Some(deps[i]));
                } else {
                    assert(closed_within(points, events, m, old_deps[i]));
                    let k = choose|k: nat| 1 <= k <= m && #[trigger] closed_at(points, events, k) == Some(old_deps[i]);
                    assert(closed_at(points, events, k) == Some(deps[i]));
                }
            }
        } else {
            assert(deps == old_deps);
            assert(closed_at(points, events, n) is None);
            assert forall|i: int| 0 <= i < deps.len() implies closed_within(
                points,
                events,
                n,
                #[trigger] deps[i],
            ) by {
                assert(closed_within(points, events, m, old_deps[i]));
                let k = choose|k: nat| 1 <= k <= m && #[trigger] closed_at(points, events, k) == Some(old_deps[i]);
                assert(closed_at(points, events, k) == Some(deps[i]));
            }
        }
    }
}

/// The departures that a board yields: one per destination, each one that a
/// complete stop event of the board stood for, and each no later than every
/// complete stop event of the board for its destination.
pub proof fn lemma_extraction_keeps_earliest(
    points: Seq<DestinationPoints>,
    events: Seq<XmlEvent>,
    v: Seq<Departure>,
)
    requires
        scanned_departures(points, events) == Some(v),
    ensures
        well_formed_departures(v),
        forall|k: nat|
            1 <= k <= events.len() && (#[trigger] closed_at(points, events, k)) is Some
                ==> keeps_no_later(v, closed_at(points, events, k)->0),
        forall|i: int| 0 <= i < v.len() ==> closed_within(points, events, events.len(), #[trigger] v[i]),
{
    lemma_scan_keeps_earliest(points, events, events.len());
}

/// An estimated time wins over a timetabled one for the same stop event,
/// whichever of the two is read first.
pub proof fn lemma_estimated_time_wins(b: DepartureBuilder, estimated: i64, timetabled: i64)
    ensures
        with_time(with_time(b, timetabled, false), estimated, true).departure_time == Some(
            estimated,
        ),
        with_time(with_time(b, estimated, true), timetabled, false).departure_time == Some(
            estimated,
        ),
{
}

/// The order key of a departure: its time, with departures without one last.
pub open spec fn departure_key(d: Departure) -> i64 {
    match d.departure_time {
        Some(t) => t.seconds,
        None => i64::MAX,
    }
}

/// `deps` is in ascending order of departure time.
pub open spec fn sorted_by_time(deps: Seq<Departure>) -> bool {
    forall|i: int, j: int|
        0 <= i <= j < deps.len() ==> departure_key(#[trigger] deps[i]) <= departure_key(
            #[trigger] deps[j],
        )
}

fn key_of(d: &Departure) -> (r: i64)
    ensures
        r == departure_key(*d),
{
    match d.departure_time {
        Some(t) => t.seconds,
        None => i64::MAX,
    }
}

/// Puts the departures in ascending order of time, those without one last.
pub fn sort_departures(deps: &mut Vec<Departure>)
    ensures
        sorted_by_time(final(deps)@),
        final(deps)@.to_multiset() == old(deps)@.to_multiset(),
{
    broadcast use vstd::seq_lib::group_to_multiset_ensures;

    let mut out: Vec<Departure> = Vec::new();
    assert(out@.to_multiset() =~= Multiset::<Departure>::empty());
    while deps.len() > 0
        invariant
            sorted_by_time(out@),
            forall|i: int, j: int|
                0 <= i < out@.len() && 0 <= j < deps@.len() ==> departure_key(#[trigger] out@[i])
                    <= departure_key(#[trigger] deps@[j]),
            out@.to_multiset().add(deps@.to_multiset()) == old(deps)@.to_multiset(),
        decreases deps@.len(),
    {
        let mut m: usize = 0;
        let mut k: usize = 1;
        while k < deps.len()
            invariant
                m < k <= deps@.len(),
                forall|j: int| 0 <= j < k ==> departure_key(deps@[m as int]) <= departure_key(
                    #[trigger] deps@[j],
                ),
            decreases deps@.len() - k,
        {
            if key_of(&deps[k]) < key_of(&deps[m]) {
                m = k;
            }
            k += 1;
        }
        let ghost before = deps@;
        let ghost out_before = out@;
        let d = deps.remove(m);
        proof {
            before.to_multiset_ensures();
        }
        assert(before.remove(m as int).to_multiset() == before.to_multiset().remove(d));
        assert(forall|j: int| 0 <= j < deps@.len() ==> #[trigger] deps@[j] == before[if j < m {
            j
        } else {
            j + 1
        }]);
        out.push(d);
        proof {
            out_before.to_multiset_ensures();
        }
        assert(out@.to_multiset() == out_before.to_multiset().insert(d));
        assert(out@.to_multiset().add(deps@.to_multiset()) =~= old(deps)@.to_multiset());
    }
    assert(deps@.to_multiset() =~= Multiset::<Departure>::empty());
    *deps = out;
}

/// A board from which quick-xml reads no event gives no departures, and
/// the next poll is then planned ten minutes on.
pub proof fn lemma_board_without_events(points: Seq<DestinationPoints>, now: i64)
    ensures
        scanned_departures(points, seq![]) == Some(Seq::<Departure>::empty()),
        next_update_for(seq![], now) == add_secs(now, DEFAULT_UPDATE_SECS as int),
{
    assert(scan_prefix(points, seq![], 0) == ScanOutcome::Running(initial_scan()));
}

/// The earliest departure time among `deps`, if any has one.
pub open spec fn earliest_time(deps: Seq<Departure>) -> Option<i64>
    decreases deps.len(),
{
    if deps.len() == 0 {
        None
    } else {
        let rest = earliest_time(deps.drop_last());
        match deps.last().departure_time {
            None => rest,
            Some(t) => match rest {
                None => Some(t.seconds),
                Some(r) => Some(
                    if t.seconds < r {
                        t.seconds
                    } else {
                        r
                    },
                ),
            },
        }
    }
}

/// Seconds to wait when there is nothing better to go by.
pub const DEFAULT_UPDATE_SECS: i64 = 600;

/// Seconds to wait when the next departure is about now.
pub const IMMINENT_RETRY_SECS: i64 = 60;

/// The poll after a departure at `dep` seen at `now`: just after it leaves
/// (`offset` later); in a minute where it leaves about now; `None` where it
/// left over a minute ago.
pub open spec fn poll_after_departure(dep: i64, offset: nat, now: i64) -> Option<i64> {
    if now - 60 < dep && dep < now {
        Some(add_secs(now, IMMINENT_RETRY_SECS as int))
    } else if dep < now {
        None
    } else {
        Some(add_secs(dep, offset as int))
    }
}

/// When the transit source asks to be polled next, after seeing `deps` at `now`.
pub open spec fn next_update_for(deps: Seq<Departure>, now: i64) -> i64 {
    match earliest_time(deps) {
        Some(dep) => match poll_after_departure(dep, 1, now) {
            Some(t) => t,
            None => add_secs(now, DEFAULT_UPDATE_SECS as int),
        },
        None => add_secs(now, DEFAULT_UPDATE_SECS as int),
    }
}

/// The request body asked of the departure board: the instant `now` stands
/// in three places, the stop once.
pub open spec fn ojp_request(now: Seq<char>, stop: Seq<char>) -> Seq<char> {
    REQUEST_HEAD@ + now + REQUEST_AFTER_TIMESTAMP@ + now + REQUEST_AFTER_SECOND_TIMESTAMP@ + stop
        + REQUEST_AFTER_STOP@ + now + REQUEST_TAIL@
}

pub const REQUEST_TIME_FORMAT: &'static str = "%Y-%m-%dT%H:%M:%S%.3fZ";

pub const REQUEST_HEAD: &'static str = "<?xml version=\"1.0\" encoding=\"UTF-8\"?>\n<OJP xmlns:xsi=\"http://www.w3.org/2001/XMLSchema-instance\" xmlns:xsd=\"http://www.w3.org/2001/XMLSchema\" xmlns=\"http://www.siri.org.uk/siri\" version=\"1.0\" xmlns:ojp=\"http://www.vdv.de/ojp\" xsi:schemaLocation=\"http://www.siri.org.uk/siri ../ojp-xsd-v1.0/OJP.xsd\">\n    <OJPRequest>\n        <ServiceRequest>\n            <RequestTimestamp>";

pub const REQUEST_AFTER_TIMESTAMP: &'static str = "</RequestTimestamp>\n            <RequestorRef>raspi-screen-server</RequestorRef>\n            <ojp:OJPStopEventRequest>\n                <RequestTimestamp>";

pub const REQUEST_AFTER_SECOND_TIMESTAMP: &'static str = "</RequestTimestamp>\n                <ojp:Location>\n                    <ojp:PlaceRef>\n                        <StopPlaceRef>";

pub const REQUEST_AFTER_STOP: &'static str = "</StopPlaceRef>\n                        <ojp:LocationName>\n                            <ojp:Text>ignored</ojp:Text>\n                        </ojp:LocationName>\n                    </ojp:PlaceRef>\n                    <ojp:DepArrTime>";

pub const REQUEST_TAIL: &'static str = "</ojp:DepArrTime>\n                </ojp:Location>\n                <ojp:Params>\n                    <ojp:NumberOfResults>10</ojp:NumberOfResults>\n                    <ojp:StopEventType>departure</ojp:StopEventType>\n                    <ojp:IncludeRealtimeData>true</ojp:IncludeRealtimeData>\n                </ojp:Params>\n            </ojp:OJPStopEventRequest>\n        </ServiceRequest>\n    </OJPRequest>\n</OJP>\n";

/// The request body for the board of `stop_id`, asked at the instant
/// written `now`.
pub fn ojp_request_text(now: &str, stop_id: u32) -> (r: String)
    ensures
        r@ == ojp_request(now@, crate::text::decimal(stop_id as nat)),
{
    let stop = crate::text::decimal_string(stop_id);
    let mut r = String::from_str(REQUEST_HEAD);
    r.append(now);
    r.append(REQUEST_AFTER_TIMESTAMP);
    r.append(now);
    r.append(REQUEST_AFTER_SECOND_TIMESTAMP);
    r.append(stop.as_str());
    r.append(REQUEST_AFTER_STOP);
    r.append(now);
    r.append(REQUEST_TAIL);
    r
}

/// The request body for the configured stop, asked at `now_millis`
/// (milliseconds since the Unix epoch, written to the millisecond in UTC);
/// `None` where chrono cannot write that instant.
pub fn create_ojp_request(config: &TransportConfig, now_millis: i64) -> (r: Option<String>)
    ensures
        match formatted_utc_of(now_millis, REQUEST_TIME_FORMAT@) {
            Some(now) => r matches Some(s) && s@ == ojp_request(
                now,
                crate::text::decimal(config.stop_id as nat),
            ),
            None => r is None,
        },
{
    match format_utc_millis(now_millis, REQUEST_TIME_FORMAT) {
        Some(now) => Some(ojp_request_text(now.as_str(), config.stop_id)),
        None => None,
    }
}

#[derive(Clone, Copy, Debug, PartialEq, Eq, Structural)]
pub enum TransportUpdateMode {
    Dummy,
    Real,
}

/// Polls the departure board and schedules the next poll right after the
/// next departure.
pub struct TransportUpdater {
    update_mode: TransportUpdateMode,
    config: TransportConfig,
    transport_next_update: i64,
}

/// Seconds between two polls in dummy mode.
pub const TRANSPORT_DUMMY_SECS: i64 = 21;

/// The synthetic departure of dummy mode: towards Flon, as many minutes after
/// `now` as the second of `now` within its minute.
pub open spec fn dummy_departure(now: i64) -> Departure {
    Departure {
        destination_enum: DestinationEnum::Flon,
        departure_time: Some(Timestamp { seconds: add_secs(now, (now % 60) * 60), nanos: 0 }),
    }
}

impl TransportUpdater {
    pub closed spec fn mode(&self) -> TransportUpdateMode {
        self.update_mode
    }

    /// Whether the updater synthesises its data or asks the real source.
    pub fn update_mode(&self) -> (r: TransportUpdateMode)
        ensures
            r == self.mode(),
    {
        self.update_mode
    }

    /// The configured groups of stops.
    pub closed spec fn points(&self) -> Seq<DestinationPoints> {
        self.config.destination_points@
    }

    /// The configured stop and credentials.
    pub closed spec fn config_view(&self) -> crate::config::TransportConfigView {
        self.config.copy_view()
    }

    /// The instant of the next planned poll in real mode.
    pub closed spec fn planned(&self) -> i64 {
        self.transport_next_update
    }

    /// Builds the updater from the transit section of `config`; the first
    /// poll in real mode is planned for ten minutes after `now`.
    pub fn new(update_mode: TransportUpdateMode, config: &ApiConfig, now: i64) -> (r: Result<
        Self,
        ConfigError,
    >)
        ensures
            match config.transport {
                None => r == Err::<Self, ConfigError>(ConfigError::MissingSection),
                Some(t) => r matches Ok(u) && u.mode() == update_mode && u.config_view()
                    == t.copy_view() && points_view(u.points()) == points_view(
                    t.destination_points@,
                ) && u.planned() == add_secs(now, DEFAULT_UPDATE_SECS as int),
            },
    {
        match &config.transport {
            None => Err(ConfigError::MissingSection),
            Some(t) => Ok(
                TransportUpdater {
                    update_mode,
                    config: t.duplicate(),
                    transport_next_update: later_by(now, DEFAULT_UPDATE_SECS),
                },
            ),
        }
    }

    /// The configured transit settings.
    pub fn config(&self) -> (r: &TransportConfig)
        ensures
            r.destination_points@ == self.points(),
            r.copy_view() == self.config_view(),
    {
        &self.config
    }

    /// The request that a poll makes at `now_millis`: in real mode a POST of
    /// the departure-board request to the configured URL, with the configured
    /// credential; none in dummy mode, or where chrono cannot write the instant.
    pub fn next_request(&self, now_millis: i64) -> (r: Option<FetchRequest>)
        ensures
            match self.mode() {
                TransportUpdateMode::Dummy => r is None,
                TransportUpdateMode::Real => match formatted_utc_of(
                    now_millis,
                    REQUEST_TIME_FORMAT@,
                ) {
                    None => r is None,
                    Some(now) => r matches Some(q) && q.method == HttpMethod::Post && q.url@
                        == self.config_view().url && (q.body matches Some(b) && b@ == ojp_request(
                        now,
                        crate::text::decimal(self.config_view().stop_id as nat),
                    )) && (q.bearer matches Some(k) && k@ == self.config_view().api_key),
                },
            },
    {
        match self.update_mode {
            TransportUpdateMode::Dummy => None,
            TransportUpdateMode::Real => match create_ojp_request(&self.config, now_millis) {
                Some(body) => Some(
                    FetchRequest {
                        method: HttpMethod::Post,
                        url: self.config.url.clone(),
                        body: Some(body),
                        bearer: Some(self.config.api_key.clone()),
                    },
                ),
                None => None,
            },
        }
    }

    /// When to poll next, asked at `now`: a fixed short period in dummy mode;
    /// in real mode the planned instant, or ten minutes from now where that
    /// instant has passed.
    pub fn get_next_update_time(&self, now: i64) -> (r: i64)
        ensures
            r == match self.mode() {
                TransportUpdateMode::Dummy => add_secs(now, TRANSPORT_DUMMY_SECS as int),
                TransportUpdateMode::Real => if self.planned() < now {
                    add_secs(now, DEFAULT_UPDATE_SECS as int)
                } else {
                    self.planned()
                },
            },
    {
        match self.update_mode {
            TransportUpdateMode::Dummy => later_by(now, TRANSPORT_DUMMY_SECS),
            TransportUpdateMode::Real => {
                if self.transport_next_update < now {
                    later_by(now, DEFAULT_UPDATE_SECS)
                } else {
                    self.transport_next_update
                }
            },
        }
    }

    /// The poll after `next_departure`, seen at `now`, `offset` after it
    /// leaves; `None` where there is no such departure, or it left over a
    /// minute ago.
    pub fn get_duration_to_next_departure(
        next_departure: Option<Departure>,
        offset: Duration,
        now: i64,
    ) -> (r: Option<i64>)
        requires
            offset.secs <= i64::MAX,
        ensures
            r == match next_departure {
                Some(Departure { departure_time: Some(t), .. }) => poll_after_departure(
                    t.seconds,
                    offset.secs as nat,
                    now,
                ),
                _ => None,
            },
    {
        let dep = match next_departure {
            Some(Departure { departure_time: Some(t), .. }) => t.seconds,
            _ => {
                return None;
            },
        };
        let diff = dep as i128 - now as i128;
        if diff < 0 && diff > -60 {
            Some(later_by(now, IMMINENT_RETRY_SECS))
        } else if diff < 0 {
            None
        } else {
            Some(later_by(dep, offset.secs as i64))
        }
    }

    /// Plans the next poll from the departures just read at `now`, and puts
    /// them in ascending order of time.
    pub fn set_next_update_time(&mut self, departures: &mut Vec<Departure>, now: i64)
        ensures
            final(self).planned() == next_update_for(old(departures)@, now),
            sorted_by_time(final(departures)@),
            final(departures)@.to_multiset() == old(departures)@.to_multiset(),
            final(self).mode() == old(self).mode(),
            final(self).points() == old(self).points(),
            final(self).config_view() == old(self).config_view(),
    {
        let mut earliest: Option<Departure> = None;
        let mut i: usize = 0;
        while i < departures.len()
            invariant
                departures@ == old(departures)@,
                i <= departures@.len(),
                match earliest_time(departures@.subrange(0, i as int)) {
                    None => earliest is None,
                    Some(e) => earliest matches Some(d) && d.departure_time matches Some(t)
                        && t.seconds == e,
                },
            decreases departures@.len() - i,
        {
            let d = departures[i];
            assert(departures@.subrange(0, i + 1).drop_last() =~= departures@.subrange(0, i as int));
            match d.departure_time {
                Some(t) => {
                    let better = match earliest {
                        Some(Departure { departure_time: Some(e), .. }) => t.seconds < e.seconds,
                        _ => true,
                    };
                    if better {
                        earliest = Some(d);
                    }
                },
                None => {},
            }
            i += 1;
        }
        assert(departures@.subrange(0, i as int) =~= departures@);
        match Self::get_duration_to_next_departure(earliest, Duration::from_secs(1), now) {
            Some(next) => self.transport_next_update = next,
            None => self.transport_next_update = later_by(now, DEFAULT_UPDATE_SECS),
        }
        sort_departures(departures);
    }

    /// One poll, computed without the store. In dummy mode a synthetic
    /// departure is to be written. In real mode `fetched` is the board's body,
    /// or `None` where the fetch failed: the departures read from it, in
    /// ascending order of time, are to be written and the transit error
    /// cleared, and the next poll is planned after the earliest of them; a
    /// failed fetch or parse writes nothing, sets the error, and plans the
    /// next poll ten minutes from `now`.
    pub fn poll(&mut self, fetched: Option<String>, now: i64) -> (r: Refresh)
        ensures
            final(self).mode() == old(self).mode(),
            final(self).points() == old(self).points(),
            final(self).config_view() == old(self).config_view(),
            r.source == Source::Transport,
            old(self).mode() == TransportUpdateMode::Real && (fetched matches Some(body)
                && body@.len() == 0) ==> (r.write matches Some(ContentWrite::Departures(v))
                && v@.len() == 0) && !r.error && final(self).planned() == add_secs(
                now,
                DEFAULT_UPDATE_SECS as int,
            ),
            match old(self).mode() {
                TransportUpdateMode::Dummy => (r.write matches Some(ContentWrite::Departures(v))
                    && v@ == seq![dummy_departure(now)]) && !r.error && final(self).planned()
                    == old(self).planned(),
                TransportUpdateMode::Real => match fetched {
                    Some(body) => match scanned_departures(
                        old(self).points(),
                        xml_events_of(body@, true),
                    ) {
                        Some(d) => (r.write matches Some(ContentWrite::Departures(v))
                            && sorted_by_time(v@) && v@.to_multiset() == d.to_multiset())
                            && !r.error && final(self).planned() == next_update_for(d, now),
                        None => r.write is None && r.error && final(self).planned() == add_secs(
                            now,
                            DEFAULT_UPDATE_SECS as int,
                        ),
                    },
                    None => r.write is None && r.error && final(self).planned() == add_secs(
                        now,
                        DEFAULT_UPDATE_SECS as int,
                    ),
                },
            },
    {
        match self.update_mode {
            TransportUpdateMode::Dummy => {
                let sec = second_of_minute(now);
                let dep = Departure {
                    destination_enum: DestinationEnum::Flon,
                    departure_time: Some(Timestamp { seconds: later_by(now, sec * 60), nanos: 0 }),
                };
                let v = vec![dep];
                assert(v@ =~= seq![dummy_departure(now)]);
                Refresh {
                    source: Source::Transport,
                    write: Some(ContentWrite::Departures(v)),
                    error: false,
                }
            },
            TransportUpdateMode::Real => {
                let outcome = match fetched {
                    Some(body) => match extract_departures(body.as_str(), &self.config) {
                        Ok(d) => Some(d),
                        Err(_) => None,
                    },
                    None => None,
                };
                match outcome {
                    Some(mut d) => {
                        let ghost before = d@;
                        self.set_next_update_time(&mut d, now);
                        proof {
                            if before.len() == 0 {
                                assert(before =~= Seq::<Departure>::empty());
                                lemma_board_without_events(self.points(), now);
                                d@.to_multiset_ensures();
                                before.to_multiset_ensures();
                            }
                        }
                        Refresh {
                            source: Source::Transport,
                            write: Some(ContentWrite::Departures(d)),
                            error: false,
                        }
                    },
                    None => {
                        self.transport_next_update = later_by(now, DEFAULT_UPDATE_SECS);
                        Refresh { source: Source::Transport, write: None, error: true }
                    },
                }
            },
        }
    }

    /// One poll, applied to `store`: see `poll`.
    pub fn update(&mut self, store: &mut MyScreenService, fetched: Option<String>, now: i64)
        ensures
            final(self).mode() == old(self).mode(),
            final(self).points() == old(self).points(),
            final(self).config_view() == old(self).config_view(),
            final(store).config() == old(store).config(),
            old(self).mode() == TransportUpdateMode::Real && (fetched matches Some(body)
                && body@.len() == 0) ==> final(store)@.departures.len() == 0 && final(store)@
                == old(store)@.with_departures(final(store)@.departures).with_error(
                Source::Transport,
                false,
            ) && final(self).planned() == add_secs(now, DEFAULT_UPDATE_SECS as int),
            match old(self).mode() {
                TransportUpdateMode::Dummy => final(store)@ == (StoreState {
                    departures: seq![dummy_departure(now)],
                    ..old(store)@
                }).with_error(Source::Transport, false) && final(self).planned()
                    == old(self).planned(),
                TransportUpdateMode::Real => match fetched {
                    Some(body) => match scanned_departures(
                        old(self).points(),
                        xml_events_of(body@, true),
                    ) {
                        Some(d) => sorted_by_time(final(store)@.departures)
                            && final(store)@.departures.to_multiset() == d.to_multiset()
                            && final(store)@ == (
                        StoreState {
                            departures: final(store)@.departures,
                            ..old(store)@
                        }).with_error(Source::Transport, false) && final(self).planned()
                            == next_update_for(d, now),
                        None => final(store)@ == old(store)@.with_error(Source::Transport, true)
                            && final(self).planned() == add_secs(now, DEFAULT_UPDATE_SECS as int),
                    },
                    None => final(store)@ == old(store)@.with_error(Source::Transport, true)
                        && final(self).planned() == add_secs(now, DEFAULT_UPDATE_SECS as int),
                },
            },
    {
        let refresh = self.poll(fetched, now);
        store.apply(refresh);
    }
}

impl DataUpdater for TransportUpdater {
    fn next_request(&self, now_millis: i64) -> Option<FetchRequest> {
        TransportUpdater::next_request(self, now_millis)
    }

    fn poll(&mut self, fetched: Option<String>, now: i64) -> Refresh {
        TransportUpdater::poll(self, fetched, now)
    }

    fn get_next_update_time(&self, now: i64) -> i64 {
        TransportUpdater::get_next_update_time(self, now)
    }
}

} // verus!
