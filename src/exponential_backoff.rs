use vstd::prelude::*;

use crate::duration::Duration;

verus! {

/// What a backoff handler holds, as mathematical values.
pub ghost struct BackoffView {
    pub base: nat,
    pub first_error: nat,
    pub max_error: nat,
    pub current: nat,
    pub is_error: bool,
}

/// The duration after one more failure while already failing: doubled, but
/// never above the ceiling.
pub open spec fn doubled_capped(current: nat, max_error: nat) -> nat {
    if 2 * current <= max_error {
        2 * current
    } else {
        max_error
    }
}

/// The state after a failure is reported.
pub open spec fn after_failure(s: BackoffView) -> BackoffView {
    if !s.is_error {
        BackoffView { current: s.first_error, is_error: true, ..s }
    } else {
        BackoffView { current: doubled_capped(s.current, s.max_error), ..s }
    }
}

/// The state after a success is reported.
pub open spec fn after_success(s: BackoffView) -> BackoffView {
    if s.is_error {
        BackoffView { current: s.base, is_error: false, ..s }
    } else {
        s
    }
}

/// A handler for giving a configured duration on normal operation, or doing
/// exponential backoff from a given starting point on errors, up to a maximum.
#[derive(Debug)]
pub struct ExponentialBackoff {
    base_duration: Duration,
    first_error_duration: Duration,
    max_error_duration: Duration,
    current_duration: Duration,
    is_error: bool,
}

impl View for ExponentialBackoff {
    type V = BackoffView;

    closed spec fn view(&self) -> BackoffView {
        BackoffView {
            base: self.base_duration.secs as nat,
            first_error: self.first_error_duration.secs as nat,
            max_error: self.max_error_duration.secs as nat,
            current: self.current_duration.secs as nat,
            is_error: self.is_error,
        }
    }
}

impl ExponentialBackoff {
    pub fn new(
        base_duration: Duration,
        first_error_duration: Duration,
        max_error_duration: Duration,
    ) -> (r: Self)
        ensures
            r@ == (BackoffView {
                base: base_duration.secs as nat,
                first_error: first_error_duration.secs as nat,
                max_error: max_error_duration.secs as nat,
                current: base_duration.secs as nat,
                is_error: false,
            }),
    {
        ExponentialBackoff {
            base_duration,
            first_error_duration,
            max_error_duration,
            current_duration: base_duration,
            is_error: false,
        }
    }

    /// Returns whether the handler is currently in backoff mode.
    pub fn get_is_error(&self) -> (r: bool)
        ensures
            r == self@.is_error,
    {
        self.is_error
    }

    /// The duration to wait for, given the successes and failures so far.
    pub fn get_current_duration(&self) -> (r: Duration)
        ensures
            r.secs == self@.current,
    {
        self.current_duration
    }

    /// Tells the handler that the last attempt failed.
    pub fn set_error(&mut self)
        ensures
            final(self)@ == after_failure(old(self)@),
    {
        if !self.is_error {
            self.is_error = true;
            self.current_duration = self.first_error_duration;
        } else {
            let cur = self.current_duration.secs;
            let max = self.max_error_duration.secs;
            if cur <= max / 2 {
                self.current_duration = Duration { secs: cur * 2 };
            } else {
                self.current_duration = self.max_error_duration;
            }
        }
    }

    /// Tells the handler that the last attempt succeeded.
    pub fn set_success(&mut self)
        ensures
            final(self)@ == after_success(old(self)@),
    {
        if self.is_error {
            self.is_error = false;
            self.current_duration = self.base_duration;
        }
    }
}

} // verus!
