//! The pace of polling: the first fetch at once, each later one after a
//! fixed pause.

use vstd::prelude::*;
use crate::constants::TIMEOUT_BETWEEN_REQUESTS;
use crate::numbers::{parse_u64, parsed_u64};

verus! {

/// The pause to use: what the setting spells, or the default where there is
/// no setting or it spells no number.
pub open spec fn interval_of(setting: Option<Seq<char>>) -> u64 {
    match setting {
        Some(text) => match parsed_u64(text) {
            Some(seconds) => seconds,
            None => TIMEOUT_BETWEEN_REQUESTS,
        },
        None => TIMEOUT_BETWEEN_REQUESTS,
    }
}

/// The pause before a fetch: none before the first.
pub open spec fn delay_before(tick: nat, interval_seconds: u64) -> u64 {
    if tick == 0 {
        0
    } else {
        interval_seconds
    }
}

/// The pause between two polls, in seconds: the number that the setting
/// spells, or [`TIMEOUT_BETWEEN_REQUESTS`].
pub fn interval_from_setting(setting: Option<&str>) -> (seconds: u64)
    ensures
        seconds == interval_of(
            match setting {
                Some(text) => Some(text@),
                None => None,
            },
        ),
{
    match setting {
        Some(text) => match parse_u64(text) {
            Some(seconds) => seconds,
            None => TIMEOUT_BETWEEN_REQUESTS,
        },
        None => TIMEOUT_BETWEEN_REQUESTS,
    }
}

/// The heartbeat of one polling session. It is used up as it is asked: a new
/// session takes a new scheduler.
#[derive(Debug)]
pub struct PollScheduler {
    interval_seconds: u64,
    ticks: u64,
}

impl PollScheduler {
    /// The pause between two fetches, in seconds.
    pub closed spec fn interval(&self) -> u64 {
        self.interval_seconds
    }

    /// The number of ticks given out so far.
    pub closed spec fn ticks(&self) -> nat {
        self.ticks as nat
    }

    /// A scheduler that has given out no tick.
    pub fn new(interval_seconds: u64) -> (scheduler: PollScheduler)
        ensures
            scheduler.interval() == interval_seconds,
            scheduler.ticks() == 0,
    {
        PollScheduler { interval_seconds, ticks: 0 }
    }

    /// Gives out the next tick: the seconds to pause before the fetch.
    pub fn next_delay(&mut self) -> (seconds: u64)
        ensures
            seconds == delay_before(old(self).ticks(), old(self).interval()),
            final(self).interval() == old(self).interval(),
            final(self).ticks() == if old(self).ticks() < u64::MAX {
                old(self).ticks() + 1
            } else {
                old(self).ticks()
            },
    {
        let seconds = if self.ticks == 0 {
            0
        } else {
            self.interval_seconds
        };
        if self.ticks < u64::MAX {
            self.ticks = self.ticks + 1;
        }
        seconds
    }
}

} // verus!
