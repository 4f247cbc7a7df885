//! The speed counter: how many characters were typed since the first one, and
//! the rate per minute that follows from it.

use vstd::prelude::*;

verus! {

/// What a speed counter holds.
pub struct CounterState {
    /// Whether the clock has been started.
    pub started: bool,
    /// The time of the start, in milliseconds since the Unix epoch. It means
    /// nothing before the start.
    pub started_at: int,
    /// The characters counted.
    pub chars: nat,
    /// The spaces among them: one for each word that was completed.
    pub words: nat,
}

impl CounterState {
    /// The counter after a call to start it at the time `now_ms`: started at
    /// that time if it was not started, and as it was if it was.
    pub open spec fn start_at(self, now_ms: int) -> CounterState {
        if self.started {
            self
        } else {
            CounterState { started: true, started_at: now_ms, ..self }
        }
    }
}

/// Starting twice is starting once: the second call changes nothing, so the
/// time of the start is that of the first call.
pub proof fn lemma_start_is_idempotent(counter: CounterState, first_ms: int, second_ms: int)
    ensures
        counter.start_at(first_ms).start_at(second_ms) == counter.start_at(first_ms),
        !counter.started ==> counter.start_at(first_ms).start_at(second_ms).started_at == first_ms,
{
}

/// The whole seconds that count as elapsed between two times given in
/// milliseconds: those that passed, rounded down, and one where less than
/// one passed or the second time is the earlier one.
pub open spec fn elapsed_seconds(start_ms: int, now_ms: int) -> int {
    if now_ms - start_ms < 1000 {
        1
    } else {
        (now_ms - start_ms) / 1000
    }
}

/// A rate: `count` events in `seconds` seconds.
#[derive(Debug, Clone, Copy, PartialEq, Eq, Structural)]
pub struct PerMinute {
    pub count: u64,
    pub seconds: u64,
}

impl PerMinute {
    /// The events of one minute at this rate, rounded down.
    pub open spec fn per_minute(self) -> int {
        self.count * 60 / (self.seconds as int)
    }

    /// The events of one minute at this rate, rounded down.
    pub fn whole(&self) -> (rate: u128)
        requires
            self.seconds > 0,
        ensures
            rate == self.per_minute(),
    {
        let count: u128 = self.count as u128;
        let seconds: u128 = self.seconds as u128;
        count * 60 / seconds
    }
}

/// The typing speed at one moment.
#[derive(Debug, Clone, Copy, PartialEq, Eq, Structural)]
pub struct CurrentWPS {
    /// Characters per minute.
    pub chars_per_min: PerMinute,
    /// Words per minute, a word taken as five characters.
    pub words_per_min: PerMinute,
}

/// The speed after `chars` characters in the time from `start_ms` to `now_ms`.
pub open spec fn speed(chars: nat, start_ms: int, now_ms: int) -> CurrentWPS {
    CurrentWPS {
        chars_per_min: PerMinute {
            count: chars as u64,
            seconds: elapsed_seconds(start_ms, now_ms) as u64,
        },
        words_per_min: PerMinute {
            count: (chars / 5) as u64,
            seconds: elapsed_seconds(start_ms, now_ms) as u64,
        },
    }
}

/// The time now, in milliseconds since the Unix epoch.
///
/// Calls `chrono::Local::now` and `chrono::DateTime::timestamp_millis`.
/// Nothing is claimed of the value: it is whatever the system clock says.
/// `now` panics where the system clock stands before the Unix epoch.
#[verifier::external_body]
pub(crate) fn now_millis() -> i64 {
    chrono::Local::now().timestamp_millis()
}

/// Counts typed characters from the moment it is started.
#[derive(Clone, Copy, Debug)]
pub struct WpmCounter {
    is_started: bool,
    started_at: i64,
    chars_counters: u64,
    words_counter: u64,
}

impl View for WpmCounter {
    type V = CounterState;

    closed spec fn view(&self) -> CounterState {
        CounterState {
            started: self.is_started,
            started_at: self.started_at as int,
            chars: self.chars_counters as nat,
            words: self.words_counter as nat,
        }
    }
}

impl WpmCounter {
    #[verifier::type_invariant]
    spec fn counts_words_within_chars(self) -> bool {
        self.words_counter <= self.chars_counters
    }

    /// A counter that has counted nothing and is not started.
    pub fn new() -> (counter: WpmCounter)
        ensures
            !counter@.started,
            counter@.chars == 0,
            counter@.words == 0,
    {
        WpmCounter { is_started: false, started_at: now_millis(), words_counter: 0, chars_counters: 0 }
    }

    pub fn is_started(&self) -> (started: bool)
        ensures
            started == self@.started,
    {
        self.is_started
    }

    /// The characters counted so far.
    pub fn chars(&self) -> (n: u64)
        ensures
            n == self@.chars,
    {
        self.chars_counters
    }

    /// The words counted so far: the spaces among the characters.
    pub fn words(&self) -> (n: u64)
        ensures
            n == self@.words,
            n <= self@.chars,
    {
        proof {
            use_type_invariant(self);
        }
        self.words_counter
    }

    /// Starts the clock at `now_ms` unless it is running already.
    pub fn start_at(&mut self, now_ms: i64)
        ensures
            final(self)@ == old(self)@.start_at(now_ms as int),
    {
        proof {
            use_type_invariant(&*self);
        }
        if !self.is_started {
            self.started_at = now_ms;
            self.is_started = true;
        }
    }

    /// Starts the clock now unless it is running already: a second call
    /// changes nothing.
    pub fn start(&mut self)
        ensures
            exists|now_ms: int| final(self)@ == old(self)@.start_at(now_ms),
    {
        if !self.is_started {
            let now = now_millis();
            self.start_at(now);
            assert(self@ == old(self)@.start_at(now as int));
        } else {
            assert(self@ == old(self)@.start_at(0));
        }
    }

    /// Counts one character, and one word where the character is a space.
    pub fn tick_char(&mut self, c: &char)
        requires
            old(self)@.chars < u64::MAX,
        ensures
            final(self)@.chars == old(self)@.chars + 1,
            final(self)@.words == old(self)@.words + if *c == ' ' { 1nat } else { 0nat },
            final(self)@.started == old(self)@.started,
            final(self)@.started_at == old(self)@.started_at,
    {
        proof {
            use_type_invariant(&*self);
        }
        self.chars_counters += 1;
        if *c == ' ' {
            self.tick_word();
        }
    }

    /// Counts one word.
    fn tick_word(&mut self)
        requires
            old(self).words_counter < old(self).chars_counters,
        ensures
            final(self).words_counter == old(self).words_counter + 1,
            final(self).chars_counters == old(self).chars_counters,
            final(self).is_started == old(self).is_started,
            final(self).started_at == old(self).started_at,
    {
        self.words_counter += 1;
    }

    /// The speed at the time `now_ms`, given in milliseconds since the Unix
    /// epoch, of a counter that has been started.
    pub fn rate_at(&self, now_ms: i64) -> (rate: CurrentWPS)
        requires
            self@.started,
        ensures
            rate == speed(self@.chars, self@.started_at, now_ms as int),
            rate.chars_per_min.seconds >= 1,
    {
        let passed: i128 = now_ms as i128 - self.started_at as i128;
        let seconds: u64 = if passed < 1000 {
            1
        } else {
            (passed / 1000) as u64
        };
        CurrentWPS {
            chars_per_min: PerMinute { count: self.chars_counters, seconds },
            words_per_min: PerMinute { count: self.chars_counters / 5, seconds },
        }
    }

    /// The speed now, of a counter that has been started.
    pub fn current_wpm(&self) -> (rate: CurrentWPS)
        requires
            self@.started,
        ensures
            exists|now_ms: int| rate == speed(self@.chars, self@.started_at, now_ms),
    {
        let now = now_millis();
        self.rate_at(now)
    }
}

} // verus!
