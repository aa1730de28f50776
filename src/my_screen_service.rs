use vstd::prelude::*;

use crate::config::{period_of, points_view, ApiConfig, ApiConfigView, ConfigError};
use crate::duration::add_secs;
use crate::content::{
    CalendarEvent, Departure, DestinationEnum, KittyDebt, ScreenContentReply, Time, Timestamp,
};
use crate::gcal_updater::{GcalUpdateMode, GcalUpdater};
use crate::kitty_updater::{KittyUpdateMode, KittyUpdater};
use crate::transport_updater::{TransportUpdateMode, TransportUpdater, DEFAULT_UPDATE_SECS};

verus! {

/// The sources that feed the snapshot; each has its own error flag.
#[derive(Clone, Copy, Debug, PartialEq, Eq, Structural)]
pub enum Source {
    Kitty,
    Gcal,
    Transport,
}

/// What the content store holds, as mathematical values.
pub ghost struct StoreState {
    pub now: Option<Time>,
    pub debts: Seq<KittyDebt>,
    pub departures: Seq<Departure>,
    pub event: Option<CalendarEvent>,
    pub kitty_error: bool,
    pub gcal_error: bool,
    pub transport_error: bool,
    pub brightness_map: Seq<(u32, u32)>,
}

/// Full brightness, in thousandths.
pub const FULL_BRIGHTNESS: u32 = 1000;

/// The brightness of a snapshot whose time is not known yet.
pub const NO_TIME_BRIGHTNESS: u32 = 0;

/// The brightness of the table at the time `now`: full brightness where the
/// table has no entry for that hour, none where the time is unknown.
pub open spec fn brightness_at(table: Seq<(u32, u32)>, now: Option<Time>) -> u32 {
    match now {
        Some(t) => match brightness_entry(table, t.hours) {
            Some((_, b)) => b,
            None => FULL_BRIGHTNESS,
        },
        None => NO_TIME_BRIGHTNESS,
    }
}

impl StoreState {
    /// The store with its recorded time replaced by `now`.
    pub open spec fn with_time(self, now: Option<Time>) -> StoreState {
        StoreState { now, ..self }
    }

    /// The store with its departures replaced by `d`.
    pub open spec fn with_departures(self, d: Seq<Departure>) -> StoreState {
        StoreState { departures: d, ..self }
    }

    /// The snapshot that a query at the time `now` is served.
    pub open spec fn queried_at(self, now: Time) -> ScreenContentReplyView {
        self.with_time(Some(now)).snapshot()
    }

    /// The flag of one source.
    pub open spec fn error_of(self, source: Source) -> bool {
        match source {
            Source::Kitty => self.kitty_error,
            Source::Gcal => self.gcal_error,
            Source::Transport => self.transport_error,
        }
    }

    /// The store with the flag of one source set to `value`.
    pub open spec fn with_error(self, source: Source, value: bool) -> StoreState {
        match source {
            Source::Kitty => StoreState { kitty_error: value, ..self },
            Source::Gcal => StoreState { gcal_error: value, ..self },
            Source::Transport => StoreState { transport_error: value, ..self },
        }
    }

    /// The error flag that clients see: set while any source's last poll failed.
    pub open spec fn any_error(self) -> bool {
        self.kitty_error || self.gcal_error || self.transport_error
    }

    /// The snapshot that clients are served.
    pub open spec fn snapshot(self) -> ScreenContentReplyView {
        ScreenContentReplyView {
            now: self.now,
            brightness: brightness_at(self.brightness_map, self.now),
            kitty_debts: self.debts,
            bus_departures: self.departures,
            next_upcoming_event: self.event,
            error: self.any_error(),
        }
    }
}

/// A snapshot as mathematical values.
pub ghost struct ScreenContentReplyView {
    pub now: Option<Time>,
    pub brightness: u32,
    pub kitty_debts: Seq<KittyDebt>,
    pub bus_departures: Seq<Departure>,
    pub next_upcoming_event: Option<CalendarEvent>,
    pub error: bool,
}

impl View for ScreenContentReply {
    type V = ScreenContentReplyView;

    open spec fn view(&self) -> ScreenContentReplyView {
        ScreenContentReplyView {
            now: self.now,
            brightness: self.brightness,
            kitty_debts: self.kitty_debts@,
            bus_departures: self.bus_departures@,
            next_upcoming_event: self.next_upcoming_event,
            error: self.error,
        }
    }
}

/// What one poll writes to the store.
#[derive(Debug, PartialEq)]
pub enum ContentWrite {
    Debts(Vec<KittyDebt>),
    Departures(Vec<Departure>),
    Event(Option<CalendarEvent>),
}

/// The outcome of one poll of a source: what to write (nothing where the
/// poll failed, so that the stale data stays) and the source's error flag.
/// It is computed outside the store's lock and applied under it.
#[derive(Debug, PartialEq)]
pub struct Refresh {
    pub source: Source,
    pub write: Option<ContentWrite>,
    pub error: bool,
}

/// The store after `r` is applied to `st`.
pub open spec fn applied(st: StoreState, r: Refresh) -> StoreState {
    let written = match r.write {
        None => st,
        Some(ContentWrite::Debts(v)) => StoreState { debts: v@, ..st },
        Some(ContentWrite::Departures(v)) => StoreState { departures: v@, ..st },
        Some(ContentWrite::Event(e)) => StoreState { event: e, ..st },
    };
    written.with_error(r.source, r.error)
}

/// The shared snapshot and the configuration it is fed from. Sharing between
/// tasks is left to the owner, which guards the whole value with one lock.
pub struct MyScreenService {
    config: ApiConfig,
    now: Option<Time>,
    kitty_debts: Vec<KittyDebt>,
    bus_departures: Vec<Departure>,
    next_upcoming_event: Option<CalendarEvent>,
    kitty_error: bool,
    gcal_error: bool,
    transport_error: bool,
}

impl View for MyScreenService {
    type V = StoreState;

    closed spec fn view(&self) -> StoreState {
        StoreState {
            now: self.now,
            debts: self.kitty_debts@,
            departures: self.bus_departures@,
            event: self.next_upcoming_event,
            kitty_error: self.kitty_error,
            gcal_error: self.gcal_error,
            transport_error: self.transport_error,
            brightness_map: self.config.brightness_map@,
        }
    }
}

/// The store of a server that has fetched nothing yet.
pub open spec fn empty_store(brightness_map: Seq<(u32, u32)>) -> StoreState {
    StoreState {
        brightness_map,
        now: None,
        debts: seq![],
        departures: seq![],
        event: None,
        kitty_error: false,
        gcal_error: false,
        transport_error: false,
    }
}

/// What a reader is served when the lock was poisoned by a writer that
/// panicked: an empty snapshot with the error flag set.
pub open spec fn poisoned_snapshot_view() -> ScreenContentReplyView {
    ScreenContentReplyView {
        now: None,
        brightness: NO_TIME_BRIGHTNESS,
        kitty_debts: seq![],
        bus_departures: seq![],
        next_upcoming_event: None,
        error: true,
    }
}

pub fn poisoned_snapshot() -> (r: ScreenContentReply)
    ensures
        r@ == poisoned_snapshot_view(),
{
    let r = ScreenContentReply {
        now: None,
        brightness: NO_TIME_BRIGHTNESS,
        kitty_debts: Vec::new(),
        bus_departures: Vec::new(),
        next_upcoming_event: None,
        error: true,
    };
    assert(r@.kitty_debts =~= Seq::<KittyDebt>::empty());
    assert(r@.bus_departures =~= Seq::<Departure>::empty());
    r
}

fn copy_debts(debts: &Vec<KittyDebt>) -> (r: Vec<KittyDebt>)
    ensures
        r@ == debts@,
{
    let mut r: Vec<KittyDebt> = Vec::new();
    let mut i: usize = 0;
    while i < debts.len()
        invariant
            i <= debts@.len(),
            r@ == debts@.subrange(0, i as int),
        decreases debts@.len() - i,
    {
        r.push(debts[i].duplicate());
        i += 1;
    }
    assert(debts@.subrange(0, i as int) =~= debts@);
    r
}

fn copy_departures(deps: &Vec<Departure>) -> (r: Vec<Departure>)
    ensures
        r@ == deps@,
{
    let mut r: Vec<Departure> = Vec::new();
    let mut i: usize = 0;
    while i < deps.len()
        invariant
            i <= deps@.len(),
            r@ == deps@.subrange(0, i as int),
        decreases deps@.len() - i,
    {
        r.push(deps[i]);
        i += 1;
    }
    assert(deps@.subrange(0, i as int) =~= deps@);
    r
}

impl MyScreenService {
    pub fn new(config: &ApiConfig) -> (r: Self)
        ensures
            r@ == empty_store(config.brightness_map@),
            r.config() == config.copy_view(),
    {
        let r = MyScreenService {
            config: config.duplicate(),
            now: None,
            kitty_debts: Vec::new(),
            bus_departures: Vec::new(),
            next_upcoming_event: None,
            kitty_error: false,
            gcal_error: false,
            transport_error: false,
        };
        assert(r@.debts =~= Seq::<KittyDebt>::empty());
        assert(r@.departures =~= Seq::<Departure>::empty());
        r
    }

    /// The configuration that the service was made with.
    pub closed spec fn config(&self) -> ApiConfigView {
        self.config.copy_view()
    }

    pub fn replace_debts(&mut self, debts: Vec<KittyDebt>)
        ensures
            final(self)@ == (StoreState { debts: debts@, ..old(self)@ }),
            final(self).config() == old(self).config(),
    {
        self.kitty_debts = debts;
    }

    pub fn replace_departures(&mut self, departures: Vec<Departure>)
        ensures
            final(self)@ == (StoreState { departures: departures@, ..old(self)@ }),
            final(self).config() == old(self).config(),
    {
        self.bus_departures = departures;
    }

    pub fn replace_event(&mut self, event: Option<CalendarEvent>)
        ensures
            final(self)@ == (StoreState { event: event, ..old(self)@ }),
            final(self).config() == old(self).config(),
    {
        self.next_upcoming_event = event;
    }

    pub fn replace_time(&mut self, now: Time)
        ensures
            final(self)@ == (StoreState { now: Some(now), ..old(self)@ }),
            final(self).config() == old(self).config(),
    {
        self.now = Some(now);
    }

    /// Records whether the last poll of `source` failed.
    pub fn set_error(&mut self, source: Source, value: bool)
        ensures
            final(self)@ == old(self)@.with_error(source, value),
            final(self).config() == old(self).config(),
    {
        match source {
            Source::Kitty => self.kitty_error = value,
            Source::Gcal => self.gcal_error = value,
            Source::Transport => self.transport_error = value,
        }
    }

    /// Applies the outcome of one poll.
    pub fn apply(&mut self, refresh: Refresh)
        ensures
            final(self)@ == applied(old(self)@, refresh),
            final(self).config() == old(self).config(),
    {
        let source = refresh.source;
        let error = refresh.error;
        match refresh.write {
            None => {},
            Some(ContentWrite::Debts(v)) => self.replace_debts(v),
            Some(ContentWrite::Departures(v)) => self.replace_departures(v),
            Some(ContentWrite::Event(e)) => self.replace_event(e),
        }
        self.set_error(source, error);
    }

    /// A deep copy of the current snapshot.
    pub fn get_screen_content(&self) -> (r: ScreenContentReply)
        ensures
            r@ == self@.snapshot(),
    {
        let brightness = match self.now {
            Some(t) => match get_brightness_impl(&self.config.brightness_map, t.hours) {
                Some(b) => b,
                None => FULL_BRIGHTNESS,
            },
            None => NO_TIME_BRIGHTNESS,
        };
        ScreenContentReply {
            now: self.now,
            brightness,
            kitty_debts: copy_debts(&self.kitty_debts),
            bus_departures: copy_departures(&self.bus_departures),
            next_upcoming_event: match &self.next_upcoming_event {
                Some(e) => Some(e.duplicate()),
                None => None,
            },
            error: self.kitty_error || self.gcal_error || self.transport_error,
        }
    }
}


pub open spec fn u32_le(x: u32) -> Seq<u8> {
    seq![(x & 0xff) as u8, ((x >> 8) & 0xff) as u8, ((x >> 16) & 0xff) as u8, ((x >> 24) & 0xff) as u8]
}

pub open spec fn u64_le(x: u64) -> Seq<u8> {
    u32_le((x & 0xffff_ffff) as u32) + u32_le((x >> 32) as u32)
}

pub open spec fn flag(b: bool) -> Seq<u8> {
    seq![if b { 1u8 } else { 0u8 }]
}

/// A string as its UTF-8 length and bytes.
pub open spec fn text_bytes(s: Seq<char>) -> Seq<u8> {
    u64_le(vstd::utf8::encode_utf8(s).len() as u64) + vstd::utf8::encode_utf8(s)
}

pub open spec fn time_bytes(t: Option<Time>) -> Seq<u8> {
    match t {
        None => flag(false),
        Some(t) => flag(true) + u32_le(t.hours) + u32_le(t.minutes),
    }
}

pub open spec fn timestamp_bytes(t: Option<Timestamp>) -> Seq<u8> {
    match t {
        None => flag(false),
        Some(t) => flag(true) + u64_le(t.seconds as u64) + u32_le(t.nanos as u32),
    }
}

pub open spec fn debt_bytes(d: KittyDebt) -> Seq<u8> {
    text_bytes(d.who@) + u64_le(d.how_much.units) + u32_le(d.how_much.scale) + text_bytes(d.whom@)
}

pub open spec fn debts_bytes(ds: Seq<KittyDebt>) -> Seq<u8>
    decreases ds.len(),
{
    if ds.len() == 0 {
        seq![]
    } else {
        debts_bytes(ds.drop_last()) + debt_bytes(ds.last())
    }
}

pub open spec fn departure_bytes(d: Departure) -> Seq<u8> {
    flag(d.destination_enum == DestinationEnum::Renens) + timestamp_bytes(d.departure_time)
}

pub open spec fn departures_bytes(ds: Seq<Departure>) -> Seq<u8>
    decreases ds.len(),
{
    if ds.len() == 0 {
        seq![]
    } else {
        departures_bytes(ds.drop_last()) + departure_bytes(ds.last())
    }
}

pub open spec fn event_bytes(e: Option<CalendarEvent>) -> Seq<u8> {
    match e {
        None => flag(false),
        Some(e) => flag(true) + timestamp_bytes(e.event_start) + text_bytes(e.event_title@),
    }
}

/// The deterministic serialisation of a snapshot that its hash is taken of.
pub open spec fn snapshot_bytes(c: ScreenContentReplyView) -> Seq<u8> {
    time_bytes(c.now) + flag(c.error) + u32_le(c.brightness) + u64_le(c.kitty_debts.len() as u64) + debts_bytes(
        c.kitty_debts,
    ) + u64_le(c.bus_departures.len() as u64) + departures_bytes(c.bus_departures) + event_bytes(
        c.next_upcoming_event,
    )
}

/// The 64-bit hash that std's `DefaultHasher` gives of `bytes`.
pub uninterp spec fn default_hash_of(bytes: Seq<u8>) -> u64;

/// Relies on std's `DefaultHasher::new`, `<[u8] as Hash>::hash` and
/// `Hasher::finish`: a hasher made by `new` is not seeded, so the hash
/// depends on the bytes alone.
#[verifier::external_body]
fn hash_bytes(bytes: &Vec<u8>) -> (r: u64)
    ensures
        r == default_hash_of(bytes@),
{
    let mut hasher = std::hash::DefaultHasher::new();
    std::hash::Hash::hash(bytes.as_slice(), &mut hasher);
    std::hash::Hasher::finish(&hasher)
}

fn push_u32(out: &mut Vec<u8>, x: u32)
    ensures
        final(out)@ == old(out)@ + u32_le(x),
{
    out.push((x & 0xff) as u8);
    out.push(((x >> 8) & 0xff) as u8);
    out.push(((x >> 16) & 0xff) as u8);
    out.push(((x >> 24) & 0xff) as u8);
    assert(final(out)@ =~= old(out)@ + u32_le(x));
}

fn push_u64(out: &mut Vec<u8>, x: u64)
    ensures
        final(out)@ == old(out)@ + u64_le(x),
{
    push_u32(out, (x & 0xffff_ffff) as u32);
    push_u32(out, (x >> 32) as u32);
    assert(final(out)@ =~= old(out)@ + u64_le(x));
}

fn push_flag(out: &mut Vec<u8>, b: bool)
    ensures
        final(out)@ == old(out)@ + flag(b),
{
    out.push(if b { 1u8 } else { 0u8 });
    assert(final(out)@ =~= old(out)@ + flag(b));
}

fn push_text(out: &mut Vec<u8>, s: &String)
    ensures
        final(out)@ == old(out)@ + text_bytes(s@),
{
    let bytes = s.as_str().as_bytes();
    let ghost start = out@;
    push_u64(out, bytes.len() as u64);
    let ghost mid = out@;
    let mut i: usize = 0;
    while i < bytes.len()
        invariant
            bytes@ == vstd::utf8::encode_utf8(s@),
            i <= bytes@.len(),
            out@ == mid + bytes@.subrange(0, i as int),
        decreases bytes@.len() - i,
    {
        out.push(bytes[i]);
        assert(out@ =~= mid + bytes@.subrange(0, i + 1));
        i += 1;
    }
    assert(bytes@.subrange(0, i as int) =~= bytes@);
}

fn push_timestamp(out: &mut Vec<u8>, t: Option<Timestamp>)
    ensures
        final(out)@ == old(out)@ + timestamp_bytes(t),
{
    match t {
        None => push_flag(out, false),
        Some(t) => {
            push_flag(out, true);
            push_u64(out, t.seconds as u64);
            push_u32(out, t.nanos as u32);
        },
    }
    assert(final(out)@ =~= old(out)@ + timestamp_bytes(t));
}

/// The serialisation of a snapshot.
pub fn encode_snapshot(c: &ScreenContentReply) -> (r: Vec<u8>)
    ensures
        r@ == snapshot_bytes(c@),
{
    let mut out: Vec<u8> = Vec::new();
    match c.now {
        None => push_flag(&mut out, false),
        Some(t) => {
            push_flag(&mut out, true);
            push_u32(&mut out, t.hours);
            push_u32(&mut out, t.minutes);
        },
    }
    push_flag(&mut out, c.error);
    push_u32(&mut out, c.brightness);
    push_u64(&mut out, c.kitty_debts.len() as u64);
    let mut i: usize = 0;
    let ghost base = out@;
    assert(c.kitty_debts@.subrange(0, 0) =~= Seq::<KittyDebt>::empty());
    assert(out@ =~= base + debts_bytes(c.kitty_debts@.subrange(0, 0)));
    while i < c.kitty_debts.len()
        invariant
            i <= c.kitty_debts@.len(),
            out@ == base + debts_bytes(c.kitty_debts@.subrange(0, i as int)),
        decreases c.kitty_debts@.len() - i,
    {
        let d = &c.kitty_debts[i];
        push_text(&mut out, &d.who);
        push_u64(&mut out, d.how_much.units);
        push_u32(&mut out, d.how_much.scale);
        push_text(&mut out, &d.whom);
        assert(c.kitty_debts@.subrange(0, i + 1).drop_last() =~= c.kitty_debts@.subrange(0, i as int));
        assert(out@ =~= base + debts_bytes(c.kitty_debts@.subrange(0, i + 1)));
        i += 1;
    }
    assert(c.kitty_debts@.subrange(0, i as int) =~= c.kitty_debts@);
    push_u64(&mut out, c.bus_departures.len() as u64);
    let mut j: usize = 0;
    let ghost base2 = out@;
    assert(c.bus_departures@.subrange(0, 0) =~= Seq::<Departure>::empty());
    assert(out@ =~= base2 + departures_bytes(c.bus_departures@.subrange(0, 0)));
    while j < c.bus_departures.len()
        invariant
            j <= c.bus_departures@.len(),
            out@ == base2 + departures_bytes(c.bus_departures@.subrange(0, j as int)),
        decreases c.bus_departures@.len() - j,
    {
        let d = c.bus_departures[j];
        push_flag(&mut out, d.destination_enum == DestinationEnum::Renens);
        push_timestamp(&mut out, d.departure_time);
        assert(c.bus_departures@.subrange(0, j + 1).drop_last() =~= c.bus_departures@.subrange(0, j as int));
        assert(out@ =~= base2 + departures_bytes(c.bus_departures@.subrange(0, j + 1)));
        j += 1;
    }
    assert(c.bus_departures@.subrange(0, j as int) =~= c.bus_departures@);
    match &c.next_upcoming_event {
        None => push_flag(&mut out, false),
        Some(e) => {
            push_flag(&mut out, true);
            push_timestamp(&mut out, e.event_start);
            push_text(&mut out, &e.event_title);
        },
    }
    assert(out@ =~= snapshot_bytes(c@));
    out
}

proof fn lemma_u32_le_injective(a: u32, b: u32)
    requires
        u32_le(a) == u32_le(b),
    ensures
        a == b,
{
    assert(u32_le(a)[0] == u32_le(b)[0]);
    assert(u32_le(a)[1] == u32_le(b)[1]);
    assert(u32_le(a)[2] == u32_le(b)[2]);
    assert(u32_le(a)[3] == u32_le(b)[3]);
    assert(((a & 0xff) as u8 == (b & 0xff) as u8 && ((a >> 8) & 0xff) as u8 == ((b >> 8) & 0xff) as u8
        && ((a >> 16) & 0xff) as u8 == ((b >> 16) & 0xff) as u8 && ((a >> 24) & 0xff) as u8 == ((b
        >> 24) & 0xff) as u8) ==> a == b) by (bit_vector);
}

/// Two snapshots that differ only in the minute of their time serialise
/// differently, so that their hashes differ unless the hasher collides.
pub proof fn lemma_minute_changes_bytes(c: ScreenContentReplyView, hours: u32, m1: u32, m2: u32)
    requires
        m1 != m2,
    ensures
        snapshot_bytes(ScreenContentReplyView { now: Some(Time { hours, minutes: m1 }), ..c })
            != snapshot_bytes(ScreenContentReplyView { now: Some(Time { hours, minutes: m2 }), ..c }),
{
    let b1 = snapshot_bytes(ScreenContentReplyView { now: Some(Time { hours, minutes: m1 }), ..c });
    let b2 = snapshot_bytes(ScreenContentReplyView { now: Some(Time { hours, minutes: m2 }), ..c });
    assert(b1.subrange(5, 9) =~= u32_le(m1));
    assert(b2.subrange(5, 9) =~= u32_le(m2));
    if b1 == b2 {
        lemma_u32_le_injective(m1, m2);
    }
}

/// Two hash queries in the same minute, with no source update between them,
/// give the same hash: only the sources' data and the time of the query count,
/// not the time that the store last recorded.
pub proof fn lemma_same_minute_same_hash(before: StoreState, after: StoreState, now: Time)
    requires
        before.with_time(None) == after.with_time(None),
    ensures
        default_hash_of(snapshot_bytes(before.queried_at(now))) == default_hash_of(
            snapshot_bytes(after.queried_at(now)),
        ),
{
    assert(before.with_time(Some(now)) == after.with_time(Some(now)));
}

impl MyScreenService {
    /// A deep copy of the snapshot with its time (and so its brightness) set
    /// to `now`; the store is left as it is.
    pub fn get_screen_content_at(&self, now: Time) -> (r: ScreenContentReply)
        ensures
            r@ == self@.queried_at(now),
    {
        let mut content = self.get_screen_content();
        content.now = Some(now);
        content.brightness = match get_brightness_impl(&self.config.brightness_map, now.hours) {
            Some(b) => b,
            None => FULL_BRIGHTNESS,
        };
        content
    }

    /// The hash of the snapshot with its time (and so its brightness) set to
    /// `now`: it changes when any source's data changes, and when the minute
    /// does.
    pub fn get_hash(&self, now: Time) -> (r: u64)
        ensures
            r == default_hash_of(snapshot_bytes(self@.queried_at(now))),
    {
        let content = self.get_screen_content_at(now);
        let bytes = encode_snapshot(&content);
        hash_bytes(&bytes)
    }
}


/// The entry of the brightness table that applies at `hour`: the one with
/// the latest hour not after it (the first such entry where hours repeat).
pub open spec fn brightness_entry<V>(table: Seq<(u32, V)>, hour: u32) -> Option<(u32, V)>
    decreases table.len(),
{
    if table.len() == 0 {
        None
    } else {
        let rest = brightness_entry(table.drop_last(), hour);
        let (h, b) = table.last();
        if h <= hour && (rest matches Some((rh, _)) ==> h > rh) {
            Some((h, b))
        } else {
            rest
        }
    }
}

/// The brightness that `table` (pairs of an hour and the brightness from
/// that hour on) gives at `hour`; `None` where every entry is later.
pub fn get_brightness_impl<V: Copy>(table: &Vec<(u32, V)>, hour: u32) -> (r: Option<V>)
    ensures
        match brightness_entry(table@, hour) {
            Some((_, b)) => r == Some(b),
            None => r is None,
        },
{
    let mut best: Option<(u32, V)> = None;
    let mut i: usize = 0;
    assert(table@.subrange(0, 0) =~= Seq::<(u32, V)>::empty());
    while i < table.len()
        invariant
            i <= table@.len(),
            best == brightness_entry(table@.subrange(0, i as int), hour),
        decreases table@.len() - i,
    {
        let (h, b) = table[i];
        assert(table@.subrange(0, i + 1).drop_last() =~= table@.subrange(0, i as int));
        let better = match best {
            None => h <= hour,
            Some((bh, _)) => h <= hour && h > bh,
        };
        if better {
            best = Some((h, b));
        }
        i += 1;
    }
    assert(table@.subrange(0, i as int) =~= table@);
    match best {
        Some((_, b)) => Some(b),
        None => None,
    }
}

/// The updaters that the background loops start with: every source in dummy
/// mode, so that no outside service is asked before the server is up.
pub struct BackgroundUpdaters {
    pub kitty: Result<KittyUpdater, ConfigError>,
    pub gcal: Result<GcalUpdater, ConfigError>,
    pub transport: Result<TransportUpdater, ConfigError>,
}

impl MyScreenService {
    /// The updaters for the background loops, built from the service's
    /// configuration, each in dummy mode; `now` plans the transit source's
    /// first real poll.
    pub fn start_backgound_updates(&self, now: i64) -> (r: BackgroundUpdaters)
        ensures
            match self.config().kitty {
                None => r.kitty == Err::<KittyUpdater, ConfigError>(ConfigError::MissingSection),
                Some(k) => match period_of(k.update_period) {
                    Err(e) => r.kitty == Err::<KittyUpdater, ConfigError>(e),
                    Ok(p) => r.kitty matches Ok(u) && u.mode() == KittyUpdateMode::Dummy
                        && u.url_view() == k.url && u.period() == p,
                },
            },
            match self.config().gcal {
                None => r.gcal == Err::<GcalUpdater, ConfigError>(ConfigError::MissingSection),
                Some(g) => match period_of(g.update_period) {
                    Err(e) => r.gcal == Err::<GcalUpdater, ConfigError>(e),
                    Ok(p) => r.gcal matches Ok(u) && u.mode() == GcalUpdateMode::Dummy
                        && u.url_view() == g.url && u.period() == p,
                },
            },
            match self.config().transport {
                None => r.transport == Err::<TransportUpdater, ConfigError>(
                    ConfigError::MissingSection,
                ),
                Some(t) => r.transport matches Ok(u) && u.mode() == TransportUpdateMode::Dummy
                    && u.config_view() == t && points_view(u.points()) == t.destination_points
                    && u.planned() == add_secs(now, DEFAULT_UPDATE_SECS as int),
            },
    {
        BackgroundUpdaters {
            kitty: KittyUpdater::new(KittyUpdateMode::Dummy, &self.config),
            gcal: GcalUpdater::new(GcalUpdateMode::Dummy, &self.config),
            transport: TransportUpdater::new(TransportUpdateMode::Dummy, &self.config, now),
        }
    }
}

} // verus!
