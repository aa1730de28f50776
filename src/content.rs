use vstd::prelude::*;

use crate::text::{chars_of, matches_at};

verus! {

/// An instant, as seconds (and nanoseconds) since the Unix epoch, UTC.
#[derive(Clone, Copy, Debug, PartialEq, Eq, Structural)]
pub struct Timestamp {
    pub seconds: i64,
    pub nanos: i32,
}

/// A wall-clock time of day.
#[derive(Clone, Copy, Debug, PartialEq, Eq, Structural)]
pub struct Time {
    pub hours: u32,
    pub minutes: u32,
}

/// A non-negative decimal amount: `units / 10^scale`.
#[derive(Clone, Copy, Debug, PartialEq, Eq, Structural)]
pub struct Amount {
    pub units: u64,
    pub scale: u32,
}

/// One debt: `who` owes `how_much` to `whom`.
#[derive(Debug, PartialEq)]
pub struct KittyDebt {
    pub who: String,
    pub how_much: Amount,
    pub whom: String,
}

/// The logical destinations that departures are grouped under.
#[derive(Clone, Copy, Debug, PartialEq, Eq, Structural)]
pub enum DestinationEnum {
    Flon,
    Renens,
}

/// The next departure towards one logical destination.
#[derive(Clone, Copy, Debug, PartialEq, Eq, Structural)]
pub struct Departure {
    pub destination_enum: DestinationEnum,
    pub departure_time: Option<Timestamp>,
}

/// The nearest upcoming calendar event.
#[derive(Debug, PartialEq)]
pub struct CalendarEvent {
    pub event_start: Option<Timestamp>,
    pub event_title: String,
}

/// The aggregated snapshot served to display clients.
#[derive(Debug, PartialEq)]
pub struct ScreenContentReply {
    pub now: Option<Time>,
    /// The display brightness, in thousandths of full brightness.
    pub brightness: u32,
    pub kitty_debts: Vec<KittyDebt>,
    pub bus_departures: Vec<Departure>,
    pub next_upcoming_event: Option<CalendarEvent>,
    pub error: bool,
}

/// The destination that a configured name stands for.
pub open spec fn destination_named(name: Seq<char>) -> Option<DestinationEnum> {
    if name == "FLON"@ {
        Some(DestinationEnum::Flon)
    } else if name == "RENENS"@ {
        Some(DestinationEnum::Renens)
    } else {
        None
    }
}

/// Whether two strings hold the same characters.
pub fn str_equal(a: &str, b: &str) -> (r: bool)
    ensures
        r == (a@ == b@),
{
    let ac = chars_of(a);
    let bc = chars_of(b);
    if ac.len() != bc.len() {
        return false;
    }
    let r = matches_at(&ac, &bc, 0);
    assert(ac@.subrange(0, bc@.len() as int) =~= ac@);
    r
}

impl DestinationEnum {
    /// The configuration name of the destination.
    pub fn as_str_name(&self) -> (r: &'static str)
        ensures
            destination_named(r@) == Some(*self),
    {
        proof {
            reveal_strlit("FLON");
            reveal_strlit("RENENS");
            assert("RENENS"@.len() != "FLON"@.len());
        }
        let r = match *self {
            DestinationEnum::Flon => "FLON",
            DestinationEnum::Renens => "RENENS",
        };
        assert(r@ == "FLON"@ || r@ == "RENENS"@);
        r
    }

    /// The destination with the given configuration name, if any.
    pub fn from_str_name(name: &str) -> (r: Option<DestinationEnum>)
        ensures
            r == destination_named(name@),
    {
        if str_equal(name, "FLON") {
            Some(DestinationEnum::Flon)
        } else if str_equal(name, "RENENS") {
            Some(DestinationEnum::Renens)
        } else {
            None
        }
    }
}

impl KittyDebt {
    /// A copy of the debt.
    pub fn duplicate(&self) -> (r: KittyDebt)
        ensures
            r == *self,
    {
        KittyDebt { who: self.who.clone(), how_much: self.how_much, whom: self.whom.clone() }
    }
}

impl CalendarEvent {
    /// A copy of the event.
    pub fn duplicate(&self) -> (r: CalendarEvent)
        ensures
            r == *self,
    {
        CalendarEvent { event_start: self.event_start, event_title: self.event_title.clone() }
    }
}

} // verus!
