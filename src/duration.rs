use vstd::prelude::*;

verus! {

/// A span of time, counted in whole seconds.
#[derive(Clone, Copy, Debug, PartialEq, Eq, Structural)]
pub struct Duration {
    pub secs: u64,
}

impl Duration {
    pub fn from_secs(secs: u64) -> (r: Duration)
        ensures
            r.secs == secs,
    {
        Duration { secs }
    }

    pub fn as_secs(&self) -> (r: u64)
        ensures
            r == self.secs,
    {
        self.secs
    }
}


/// The instant `d` seconds after `t` (Unix seconds), held within the range
/// of `i64`.
pub open spec fn add_secs(t: i64, d: int) -> i64 {
    if t + d > i64::MAX {
        i64::MAX
    } else if t + d < i64::MIN {
        i64::MIN
    } else {
        (t + d) as i64
    }
}

/// The instant `d` seconds after `t`, held within the range of `i64`.
pub fn later_by(t: i64, d: i64) -> (r: i64)
    ensures
        r == add_secs(t, d as int),
{
    let s = t as i128 + d as i128;
    if s > i64::MAX as i128 {
        i64::MAX
    } else if s < i64::MIN as i128 {
        i64::MIN
    } else {
        s as i64
    }
}

/// The instant `d` after `t`, held within the range of `i64`.
pub fn later_by_duration(t: i64, d: Duration) -> (r: i64)
    ensures
        r == add_secs(t, d.secs as int),
{
    let s = t as i128 + d.secs as i128;
    if s > i64::MAX as i128 {
        i64::MAX
    } else {
        s as i64
    }
}

/// The second within its minute of the instant `t` (Unix seconds).
pub fn second_of_minute(t: i64) -> (r: i64)
    ensures
        r == t % 60,
        0 <= r < 60,
{
    match t.checked_rem_euclid(60) {
        Some(r) => r,
        None => 0,
    }
}

} // verus!
