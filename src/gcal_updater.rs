use vstd::prelude::*;

use crate::config::{period_from, period_of, ApiConfig, ConfigError};
use crate::content::{str_equal, CalendarEvent, Timestamp};
use crate::duration::{add_secs, later_by, later_by_duration, Duration};
use crate::data_updater::{DataUpdater, FetchRequest, HttpMethod};
use crate::my_screen_service::{ContentWrite, MyScreenService, Refresh, Source, StoreState};
use crate::text::{chars_of, contains, matches_at, occurs_at};
use crate::timefmt::{parse_utc_seconds, utc_seconds_of};

verus! {

/// A calendar event as mathematical values.
pub ghost struct EventView {
    pub start: Option<Timestamp>,
    pub title: Seq<char>,
}

impl View for CalendarEvent {
    type V = EventView;

    open spec fn view(&self) -> EventView {
        EventView { start: self.event_start, title: self.event_title@ }
    }
}

pub open spec fn event_view(e: Option<CalendarEvent>) -> Option<EventView> {
    match e {
        Some(ev) => Some(ev@),
        None => None,
    }
}

/// The index of the first line feed in `s`, or its length where it has none.
pub open spec fn line_end(s: Seq<char>) -> nat
    decreases s.len(),
{
    if s.len() == 0 || s[0] == '\n' {
        0
    } else {
        1 + line_end(s.drop_first())
    }
}

/// The first line of `s` as `str::lines` gives it: up to the first line
/// feed, without a carriage return just before that line feed.
pub open spec fn first_line(s: Seq<char>) -> Seq<char> {
    let k = line_end(s) as int;
    if k < s.len() && k > 0 && s[k - 1] == '\r' {
        s.subrange(0, k - 1)
    } else {
        s.subrange(0, k)
    }
}

/// What follows the first line and its line feed.
pub open spec fn after_first_line(s: Seq<char>) -> Seq<char> {
    let k = line_end(s) as int;
    if k < s.len() {
        s.skip(k + 1)
    } else {
        seq![]
    }
}

pub open spec fn starts_with(s: Seq<char>, p: Seq<char>) -> bool {
    occurs_at(s, p, 0)
}

pub open spec fn ics_time_format() -> Seq<char> {
    "%Y%m%dT%H%M%SZ"@
}

/// The pending event, or an empty one where none was started.
pub open spec fn pending(ev: Option<EventView>) -> EventView {
    match ev {
        Some(e) => e,
        None => EventView { start: None, title: seq![] },
    }
}

/// The first event of the feed `rest`, continuing from `ev`: `SUMMARY:` lines
/// give its title, `DTSTART:` lines its start, and the first `END:VEVENT`
/// ends the scan. A start that does not follow the timestamp grammar fails
/// the feed, with its text.
pub open spec fn scan_ics(rest: Seq<char>, ev: Option<EventView>) -> Result<
    Option<EventView>,
    Seq<char>,
>
    decreases rest.len(),
{
    if rest.len() == 0 {
        Ok(ev)
    } else {
        let line = first_line(rest);
        let next = after_first_line(rest);
        if line == "END:VEVENT"@ {
            Ok(ev)
        } else if starts_with(line, "SUMMARY:"@) {
            scan_ics(
                next,
                Some(EventView { title: line.skip("SUMMARY:"@.len() as int), ..pending(ev) }),
            )
        } else if starts_with(line, "DTSTART:"@) {
            let ts = line.skip("DTSTART:"@.len() as int);
            match utc_seconds_of(ts, ics_time_format()) {
                Some(secs) => scan_ics(
                    next,
                    Some(
                        EventView {
                            start: Some(Timestamp { seconds: secs, nanos: 0 }),
                            ..pending(ev)
                        },
                    ),
                ),
                None => Err(ts),
            }
        } else {
            scan_ics(next, ev)
        }
    }
}

proof fn lemma_line_end_append(pre: Seq<char>, x: Seq<char>)
    requires
        line_end(pre) < pre.len(),
    ensures
        line_end(pre + x) == line_end(pre),
        first_line(pre + x) == first_line(pre),
        after_first_line(pre + x) == after_first_line(pre) + x,
    decreases pre.len(),
{
    assert((pre + x)[0] == pre[0]);
    if pre[0] != '\n' {
        assert((pre + x).drop_first() =~= pre.drop_first() + x);
        lemma_line_end_append(pre.drop_first(), x);
    }
    let k = line_end(pre) as int;
    assert((pre + x).subrange(0, k) =~= pre.subrange(0, k));
    if k > 0 {
        assert((pre + x).subrange(0, k - 1) =~= pre.subrange(0, k - 1));
    }
    assert((pre + x).skip(k + 1) =~= pre.skip(k + 1) + x);
}

proof fn lemma_line_end_last_newline(pre: Seq<char>)
    requires
        pre.len() > 0,
        pre.last() == '\n',
    ensures
        line_end(pre) < pre.len(),
    decreases pre.len(),
{
    if pre[0] != '\n' {
        assert(pre.drop_first().last() == '\n');
        lemma_line_end_last_newline(pre.drop_first());
    }
}

proof fn lemma_line_end_at(s: Seq<char>, k: int)
    requires
        0 <= k < s.len(),
        s[k] == '\n',
        forall|i: int| 0 <= i < k ==> s[i] != '\n',
    ensures
        line_end(s) == k,
    decreases k,
{
    if k > 0 {
        assert(s[0] != '\n');
        lemma_line_end_at(s.drop_first(), k - 1);
    }
}

pub open spec fn end_line() -> Seq<char> {
    "END:VEVENT\n"@
}

/// The scan ends at the first `END:VEVENT` line: whatever follows it in the
/// feed has no effect on the result.
pub proof fn lemma_ics_ignores_after_first_end(
    pre: Seq<char>,
    post1: Seq<char>,
    post2: Seq<char>,
    ev: Option<EventView>,
)
    requires
        pre.len() == 0 || pre.last() == '\n',
    ensures
        scan_ics(pre + end_line() + post1, ev) == scan_ics(pre + end_line() + post2, ev),
    decreases pre.len(),
{
    reveal_strlit("END:VEVENT\n");
    reveal_strlit("END:VEVENT");
    if pre.len() == 0 {
        let r1 = end_line() + post1;
        let r2 = end_line() + post2;
        lemma_line_end_at(end_line(), 10);
        lemma_line_end_append(end_line(), post1);
        lemma_line_end_append(end_line(), post2);
        assert(first_line(end_line()) =~= "END:VEVENT"@);
        assert(pre + end_line() + post1 =~= r1);
        assert(pre + end_line() + post2 =~= r2);
    } else {
        lemma_line_end_last_newline(pre);
        let k = line_end(pre) as int;
        let rest = pre.skip(k + 1);
        lemma_line_end_append(pre, end_line() + post1);
        lemma_line_end_append(pre, end_line() + post2);
        assert(pre + end_line() + post1 =~= pre + (end_line() + post1));
        assert(pre + end_line() + post2 =~= pre + (end_line() + post2));
        assert(after_first_line(pre) == rest);
        assert(rest.len() == 0 || rest.last() == '\n');
        assert(rest + (end_line() + post1) =~= rest + end_line() + post1);
        assert(rest + (end_line() + post2) =~= rest + end_line() + post2);
        let line = first_line(pre);
        if line == "END:VEVENT"@ {
        } else if starts_with(line, "SUMMARY:"@) {
            lemma_ics_ignores_after_first_end(
                rest,
                post1,
                post2,
                Some(EventView { title: line.skip("SUMMARY:"@.len() as int), ..pending(ev) }),
            );
        } else if starts_with(line, "DTSTART:"@) {
            let ts = line.skip("DTSTART:"@.len() as int);
            match utc_seconds_of(ts, ics_time_format()) {
                Some(secs) => {
                    lemma_ics_ignores_after_first_end(
                        rest,
                        post1,
                        post2,
                        Some(
                            EventView {
                                start: Some(Timestamp { seconds: secs, nanos: 0 }),
                                ..pending(ev)
                            },
                        ),
                    );
                },
                None => {},
            }
        } else {
            lemma_ics_ignores_after_first_end(rest, post1, post2, ev);
        }
    }
}

/// No line of the feed `s` gives an event's title or start.
pub open spec fn without_event_fields(s: Seq<char>) -> bool
    decreases s.len(),
{
    s.len() == 0 || (!starts_with(first_line(s), "SUMMARY:"@) && !starts_with(
        first_line(s),
        "DTSTART:"@,
    ) && without_event_fields(after_first_line(s)))
}

/// An empty feed, or one without event fields, yields no event (and no
/// failure).
pub proof fn lemma_no_event_fields_no_event(s: Seq<char>)
    requires
        without_event_fields(s),
    ensures
        scan_ics(s, None) == Ok::<Option<EventView>, Seq<char>>(None),
    decreases s.len(),
{
    if s.len() > 0 {
        lemma_no_event_fields_no_event(after_first_line(s));
    }
}

/// A failure on an event start says that a timestamp did not parse.
pub proof fn lemma_calendar_error_mentions_timestamp(ts: Seq<char>)
    ensures
        contains(calendar_error_text(ts), "timestamp parsing error"@),
{
    reveal_strlit("ICS timestamp parsing error parsing '");
    reveal_strlit("timestamp parsing error");
    let t = calendar_error_text(ts);
    assert(t.subrange(4, 27) =~= "timestamp parsing error"@);
    assert(occurs_at(t, "timestamp parsing error"@, 4));
}

/// Why a calendar feed could not be read.
#[derive(Debug, PartialEq)]
pub enum CalendarError {
    /// An event start that does not follow the timestamp grammar.
    Timestamp(String),
}

pub open spec fn calendar_error_text(ts: Seq<char>) -> Seq<char> {
    "ICS timestamp parsing error parsing '"@ + ts + "'"@
}

impl CalendarError {
    /// A description of the error.
    pub fn to_string(&self) -> (r: String)
        ensures
            match self {
                CalendarError::Timestamp(ts) => r@ == calendar_error_text(ts@),
            },
    {
        match self {
            CalendarError::Timestamp(ts) => {
                let mut r = String::from_str("ICS timestamp parsing error parsing '");
                r.append(ts.as_str());
                r.append("'");
                r
            },
        }
    }
}

proof fn lemma_line_end_step(s: Seq<char>, p: int, q: int)
    requires
        0 <= p <= q < s.len(),
        s[q] != '\n',
        line_end(s.skip(p)) == (q - p) + line_end(s.skip(q)),
    ensures
        line_end(s.skip(p)) == (q + 1 - p) + line_end(s.skip(q + 1)),
{
    assert(s.skip(q).drop_first() =~= s.skip(q + 1));
}


/// Whether `s` begins with `p`, and what follows `p` where it does.
fn strip_prefix(s: &str, p: &str) -> (r: Option<String>)
    ensures
        match r {
            Some(t) => starts_with(s@, p@) && t@ == s@.skip(p@.len() as int),
            None => !starts_with(s@, p@),
        },
{
    let sc = chars_of(s);
    let pc = chars_of(p);
    if matches_at(&sc, &pc, 0) {
        Some(String::from_str(s.substring_char(pc.len(), sc.len())))
    } else {
        None
    }
}

/// The first event of the ICS feed `ics`, which lists future events only,
/// in ascending order of start, so that its first event is the next one.
/// `None` where the feed holds no event before its end.
pub fn parse_next_event(ics: &str) -> (r: Result<Option<CalendarEvent>, CalendarError>)
    ensures
        match scan_ics(ics@, None) {
            Ok(e) => r matches Ok(x) && event_view(x) == e,
            Err(ts) => r matches Err(CalendarError::Timestamp(t)) && t@ == ts,
        },
{
    let cs = chars_of(ics);
    let n = cs.len();
    let mut p: usize = 0;
    let mut ev: Option<CalendarEvent> = None;
    assert(ics@.skip(0) =~= ics@);
    while p < n
        invariant
            cs@ == ics@,
            n == ics@.len(),
            p <= n,
            scan_ics(ics@, None) == scan_ics(ics@.skip(p as int), event_view(ev)),
        decreases n - p,
    {
        let ghost rest = ics@.skip(p as int);
        let mut q: usize = p;
        while q < n && cs[q] != '\n'
            invariant
                cs@ == ics@,
                n == ics@.len(),
                p <= q <= n,
                p < n,
                line_end(ics@.skip(p as int)) == (q - p) + line_end(ics@.skip(q as int)),
            decreases n - q,
        {
            proof {
                lemma_line_end_step(ics@, p as int, q as int);
            }
            q += 1;
        }
        assert(line_end(ics@.skip(q as int)) == 0);
        assert(line_end(rest) == q - p);
        let line_stop: usize = if q < n && q > p && cs[q - 1] == '\r' {
            q - 1
        } else {
            q
        };
        let line = ics.substring_char(p, line_stop);
        assert(line@ =~= first_line(rest));
        let next_p: usize = if q < n {
            q + 1
        } else {
            n
        };
        assert(ics@.skip(next_p as int) =~= after_first_line(rest));
        if str_equal(line, "END:VEVENT") {
            return Ok(ev);
        }
        match strip_prefix(line, "SUMMARY:") {
            Some(title) => {
                let start = match &ev {
                    Some(e) => e.event_start,
                    None => None,
                };
                ev = Some(CalendarEvent { event_start: start, event_title: title });
            },
            None => match strip_prefix(line, "DTSTART:") {
                Some(ts) => match parse_utc_seconds(ts.as_str(), "%Y%m%dT%H%M%SZ") {
                    Some(secs) => {
                        let title = match &ev {
                            Some(e) => e.event_title.clone(),
                            None => String::new(),
                        };
                        ev = Some(
                            CalendarEvent {
                                event_start: Some(Timestamp { seconds: secs, nanos: 0 }),
                                event_title: title,
                            },
                        );
                    },
                    None => {
                        return Err(CalendarError::Timestamp(ts));
                    },
                },
                None => {},
            },
        }
        p = next_p;
    }
    assert(ics@.skip(p as int) =~= Seq::<char>::empty());
    Ok(ev)
}


#[derive(Clone, Copy, Debug, PartialEq, Eq, Structural)]
pub enum GcalUpdateMode {
    Dummy,
    Real,
}

/// Polls the calendar feed on a fixed period.
pub struct GcalUpdater {
    update_mode: GcalUpdateMode,
    ics_url: String,
    gcal_period: Duration,
}

/// Seconds between two polls in dummy mode.
pub const GCAL_DUMMY_SECS: i64 = 29;

/// The synthetic event of dummy mode: it starts at `now`.
pub open spec fn dummy_event(now: i64) -> EventView {
    EventView { start: Some(Timestamp { seconds: now, nanos: 0 }), title: "dummy event"@ }
}

impl GcalUpdater {
    pub closed spec fn mode(&self) -> GcalUpdateMode {
        self.update_mode
    }

    /// Whether the updater synthesises its data or asks the real source.
    pub fn update_mode(&self) -> (r: GcalUpdateMode)
        ensures
            r == self.mode(),
    {
        self.update_mode
    }

    pub closed spec fn url_view(&self) -> Seq<char> {
        self.ics_url@
    }

    pub closed spec fn period(&self) -> Duration {
        self.gcal_period
    }

    /// Builds the updater from the calendar section of `config`.
    pub fn new(update_mode: GcalUpdateMode, config: &ApiConfig) -> (r: Result<Self, ConfigError>)
        ensures
            match config.gcal {
                None => r == Err::<Self, ConfigError>(ConfigError::MissingSection),
                Some(g) => match period_of(g.update_period) {
                    Err(e) => r == Err::<Self, ConfigError>(e),
                    Ok(p) => r matches Ok(u) && u.mode() == update_mode && u.url_view()
                        == g.ics_url@ && u.period() == p,
                },
            },
    {
        let gcal_config = match &config.gcal {
            Some(g) => g,
            None => {
                return Err(ConfigError::MissingSection);
            },
        };
        let gcal_period = match period_from(gcal_config.update_period) {
            Ok(p) => p,
            Err(e) => {
                return Err(e);
            },
        };
        Ok(GcalUpdater { update_mode, ics_url: gcal_config.ics_url.clone(), gcal_period })
    }

    /// The feed to fetch.
    pub fn url(&self) -> (r: &String)
        ensures
            r@ == self.url_view(),
    {
        &self.ics_url
    }

    /// The request that a poll makes at `now_millis`: a GET of the
    /// configured URL in real mode, none in dummy mode.
    pub fn next_request(&self, now_millis: i64) -> (r: Option<FetchRequest>)
        ensures
            match self.mode() {
                GcalUpdateMode::Dummy => r is None,
                GcalUpdateMode::Real => r matches Some(q) && q.method == HttpMethod::Get && q.url@
                    == self.url_view() && q.body is None && q.bearer is None,
            },
    {
        match self.update_mode {
            GcalUpdateMode::Dummy => None,
            GcalUpdateMode::Real => Some(
                FetchRequest {
                    method: HttpMethod::Get,
                    url: self.ics_url.clone(),
                    body: None,
                    bearer: None,
                },
            ),
        }
    }

    /// When to poll next, asked at `now`.
    pub fn get_next_update_time(&self, now: i64) -> (r: i64)
        ensures
            r == match self.mode() {
                GcalUpdateMode::Dummy => add_secs(now, GCAL_DUMMY_SECS as int),
                GcalUpdateMode::Real => add_secs(now, self.period().secs as int),
            },
    {
        match self.update_mode {
            GcalUpdateMode::Dummy => later_by(now, GCAL_DUMMY_SECS),
            GcalUpdateMode::Real => later_by_duration(now, self.gcal_period),
        }
    }

    /// One poll, computed without the store. In dummy mode an event starting
    /// now is to be written and the calendar error cleared. In real mode
    /// `fetched` is the feed, or `None` where the fetch failed: the event read
    /// from it (or its absence) is to be written and the calendar error
    /// cleared; a failed fetch or parse writes nothing and sets the error.
    pub fn poll(&self, fetched: Option<String>, now: i64) -> (r: Refresh)
        ensures
            r.source == Source::Gcal,
            match self.mode() {
                GcalUpdateMode::Dummy => writes_event(r, Some(dummy_event(now))) && !r.error,
                GcalUpdateMode::Real => match fetched {
                    Some(body) => match scan_ics(body@, None) {
                        Ok(e) => writes_event(r, e) && !r.error,
                        Err(_) => r.write is None && r.error,
                    },
                    None => r.write is None && r.error,
                },
            },
    {
        match self.update_mode {
            GcalUpdateMode::Dummy => {
                let event = CalendarEvent {
                    event_start: Some(Timestamp { seconds: now, nanos: 0 }),
                    event_title: String::from_str("dummy event"),
                };
                Refresh {
                    source: Source::Gcal,
                    write: Some(ContentWrite::Event(Some(event))),
                    error: false,
                }
            },
            GcalUpdateMode::Real => {
                let outcome = match fetched {
                    Some(body) => match parse_next_event(body.as_str()) {
                        Ok(e) => Some(e),
                        Err(_) => None,
                    },
                    None => None,
                };
                match outcome {
                    Some(e) => Refresh {
                        source: Source::Gcal,
                        write: Some(ContentWrite::Event(e)),
                        error: false,
                    },
                    None => Refresh { source: Source::Gcal, write: None, error: true },
                }
            },
        }
    }

    /// One poll, applied to `store`: see `poll`.
    pub fn update(&self, store: &mut MyScreenService, fetched: Option<String>, now: i64)
        ensures
            final(store).config() == old(store).config(),
            match self.mode() {
                GcalUpdateMode::Dummy => event_view(final(store)@.event) == Some(dummy_event(now))
                    && final(store)@ == (StoreState {
                    event: final(store)@.event,
                    ..old(store)@
                }).with_error(Source::Gcal, false),
                GcalUpdateMode::Real => match fetched {
                    Some(body) => match scan_ics(body@, None) {
                        Ok(e) => event_view(final(store)@.event) == e && final(store)@ == (
                        StoreState { event: final(store)@.event, ..old(store)@ }).with_error(
                            Source::Gcal,
                            false,
                        ),
                        Err(_) => final(store)@ == old(store)@.with_error(Source::Gcal, true),
                    },
                    None => final(store)@ == old(store)@.with_error(Source::Gcal, true),
                },
            },
    {
        let refresh = self.poll(fetched, now);
        store.apply(refresh);
    }
}

/// `r` writes an event whose view is `e`.
pub open spec fn writes_event(r: Refresh, e: Option<EventView>) -> bool {
    r.write matches Some(ContentWrite::Event(x)) && event_view(x) == e
}

impl DataUpdater for GcalUpdater {
    fn next_request(&self, now_millis: i64) -> Option<FetchRequest> {
        GcalUpdater::next_request(self, now_millis)
    }

    fn poll(&mut self, fetched: Option<String>, now: i64) -> Refresh {
        GcalUpdater::poll(self, fetched, now)
    }

    fn get_next_update_time(&self, now: i64) -> i64 {
        GcalUpdater::get_next_update_time(self, now)
    }
}

} // verus!
