use vstd::prelude::*;
use crate::clock::{elapsed_exceeds, elapsed_nanos, exceeds_spec, instant_now};
use crate::input::KeyChord;

verus! {

/// The chords of a multi-key sequence typed so far, and when the last one
/// arrived; also how many times the time since then was read from the
/// clock, and the last reading.
#[derive(Debug)]
pub struct ChordSequenceTracker {
    sequence: Vec<KeyChord>,
    last_input: Option<std::time::Instant>,
    timeout_ms: u64,
    clock_reads: u64,
    last_reading: u128,
}

impl View for ChordSequenceTracker {
    type V = Seq<KeyChord>;

    closed spec fn view(&self) -> Seq<KeyChord> {
        self.sequence@
    }
}

impl ChordSequenceTracker {
    /// When the last chord arrived is recorded.
    pub closed spec fn has_input_time(&self) -> bool {
        self.last_input is Some
    }

    /// The timeout, in milliseconds, after which a pending sequence expires.
    pub closed spec fn timeout_spec(&self) -> u64 {
        self.timeout_ms
    }

    /// How many times [`read_elapsed`](Self::read_elapsed) has read the
    /// clock (counting modulo 2^64).
    pub closed spec fn clock_reads_spec(&self) -> u64 {
        self.clock_reads
    }

    /// The nanoseconds the last clock reading gave.
    pub closed spec fn last_reading_spec(&self) -> u128 {
        self.last_reading
    }

    /// `after` has read the clock once more than `before`, and `reading` is
    /// what it read; the sequence, its input time and timeout are unchanged.
    pub open spec fn clock_read(before: Self, after: Self, reading: u128) -> bool {
        &&& after.clock_reads_spec() == (if before.clock_reads_spec() == u64::MAX {
            0
        } else {
            (before.clock_reads_spec() + 1) as u64
        })
        &&& after.last_reading_spec() == reading
        &&& after@ == before@
        &&& after.has_input_time() == before.has_input_time()
        &&& after.timeout_spec() == before.timeout_spec()
    }

    /// The tracker's clock readings are the same in both.
    pub open spec fn same_readings(before: Self, after: Self) -> bool {
        after.clock_reads_spec() == before.clock_reads_spec() && after.last_reading_spec()
            == before.last_reading_spec()
    }

    /// An empty tracker whose sequences expire after `timeout_ms`.
    pub fn new(timeout_ms: u64) -> (r: Self)
        ensures
            r@ == Seq::<KeyChord>::empty(),
            !r.has_input_time(),
            r.timeout_spec() == timeout_ms,
    {
        ChordSequenceTracker {
            sequence: Vec::new(),
            last_input: None,
            timeout_ms,
            clock_reads: 0,
            last_reading: 0,
        }
    }

    /// Append `chord` and record that input arrived now.
    pub fn add(&mut self, chord: KeyChord)
        ensures
            final(self)@ == old(self)@.push(chord),
            final(self).has_input_time(),
            final(self).timeout_spec() == old(self).timeout_spec(),
            Self::same_readings(*old(self), *final(self)),
    {
        self.sequence.push(chord);
        self.last_input = Some(instant_now());
    }

    /// The chords typed so far.
    pub fn get(&self) -> (r: &[KeyChord])
        ensures
            r@ == self@,
    {
        self.sequence.as_slice()
    }

    pub fn is_empty(&self) -> (r: bool)
        ensures
            r == (self@.len() == 0),
    {
        self.sequence.len() == 0
    }

    /// Forget the sequence and the time of the last input.
    pub fn reset(&mut self)
        ensures
            final(self)@ == Seq::<KeyChord>::empty(),
            !final(self).has_input_time(),
            final(self).timeout_spec() == old(self).timeout_spec(),
            Self::same_readings(*old(self), *final(self)),
    {
        self.sequence.clear();
        self.last_input = None;
    }

    /// The nanoseconds the clock reports since the last input, or zero when
    /// none is recorded. Nothing is stated of the reading.
    pub fn elapsed_since_input(&self) -> (r: u128)
        ensures
            !self.has_input_time() ==> r == 0,
    {
        match &self.last_input {
            Some(last) => elapsed_nanos(last),
            None => 0,
        }
    }

    /// Read from the clock the nanoseconds since the last input (zero when
    /// none is recorded) and record the reading. The value is the clock's
    /// and is not stated; that it was read, once, is.
    pub fn read_elapsed(&mut self) -> (r: u128)
        ensures
            Self::clock_read(*old(self), *final(self), r),
            !old(self).has_input_time() ==> r == 0,
    {
        let r = self.elapsed_since_input();
        proof {
            if self.last_input is None {
                assert(r == 0);
            }
        }
        self.clock_reads = if self.clock_reads == u64::MAX {
            0
        } else {
            self.clock_reads + 1
        };
        self.last_reading = r;
        r
    }

    /// A sequence is pending and `elapsed_nanos` exceed its timeout.
    pub open spec fn expired_after(&self, elapsed_nanos: int) -> bool {
        self.has_input_time() && exceeds_spec(elapsed_nanos, self.timeout_spec())
    }

    /// `after` is `before` once `elapsed_nanos` have passed since its last
    /// input: reset when that exceeds the timeout, unchanged otherwise.
    pub open spec fn expire_step(before: Self, after: Self, elapsed_nanos: int) -> bool {
        if before.expired_after(elapsed_nanos) {
            &&& after@ == Seq::<KeyChord>::empty()
            &&& !after.has_input_time()
            &&& after.timeout_spec() == before.timeout_spec()
            &&& Self::same_readings(before, after)
        } else {
            after == before
        }
    }

    /// Reset when `elapsed_nanos` nanoseconds since the last input exceed
    /// the timeout; otherwise leave the tracker as it is.
    pub fn expire_after(&mut self, elapsed_nanos: u128)
        ensures
            Self::expire_step(*old(self), *final(self), elapsed_nanos as int),
    {
        if self.last_input.is_some() && elapsed_exceeds(elapsed_nanos, self.timeout_ms) {
            self.reset();
        }
    }

    /// Reset when more than the timeout has passed since the last input:
    /// [`expire_after`](Self::expire_after) with the time elapsed by the
    /// clock, which is not stated. Without a recorded input the tracker is
    /// unchanged.
    pub fn maybe_expire(&mut self)
        ensures
            exists|n: u128| #[trigger] Self::expire_step(*old(self), *final(self), n as int),
            !old(self).has_input_time() ==> *final(self) == *old(self),
    {
        let elapsed = match &self.last_input {
            Some(last) => Some(elapsed_nanos(last)),
            None => None,
        };
        match elapsed {
            Some(n) => {
                self.expire_after(n);
                assert(Self::expire_step(*old(self), *self, n as int));
            },
            None => {
                assert(Self::expire_step(*old(self), *self, 0));
            },
        }
    }
}

} // verus!
