use vstd::prelude::*;

verus! {

/// How many readings a slow subscriber may leave unread before its oldest
/// unread entries are dropped.
pub const FANOUT_CAPACITY: usize = 16;

/// One measurement: the raw bits of the measured value (the embedding process
/// interprets them) and the position of the reading in the periodic sequence.
#[derive(Clone, Copy, PartialEq, Eq, Structural, Debug)]
pub struct Reading {
    pub value_bits: u32,
    pub sequence: i32,
}

/// The sequence number that marks a one-shot reading taken outside the
/// periodic sequence.
pub const ONE_SHOT_SEQUENCE: i32 = -1;

/// Produces one reading per tick with a sequence number that starts at 1 and
/// grows by exactly 1 per tick, never reused and never reset while the
/// process runs.
pub struct PeriodicSource {
    next_sequence: i32,
}

impl PeriodicSource {
    /// The sequence number the next reading will carry.
    pub closed spec fn next_seq(&self) -> int {
        self.next_sequence as int
    }

    /// Creates a source whose first reading will carry sequence number 1.
    pub fn new() -> (s: PeriodicSource)
        ensures
            s.next_seq() == 1,
    {
        PeriodicSource { next_sequence: 1 }
    }

    /// The sequence number the next reading will carry, for callers that must
    /// check room before a tick.
    pub fn next_sequence_number(&self) -> (n: i32)
        ensures
            n as int == self.next_seq(),
    {
        self.next_sequence
    }

    /// Emits the reading for one tick, carrying the measured bits as handed
    /// in. Sequence monotonicity lives here: this reading's number is the
    /// source's current one, and the next reading is owed exactly the number
    /// after it.
    pub fn tick(&mut self, value_bits: u32) -> (r: Reading)
        requires
            old(self).next_seq() < i32::MAX,
        ensures
            r.value_bits == value_bits,
            r.sequence as int == old(self).next_seq(),
            final(self).next_seq() == r.sequence + 1,
    {
        let r = Reading { value_bits, sequence: self.next_sequence };
        self.next_sequence = self.next_sequence + 1;
        r
    }
}

/// Builds a one-shot reading for a simple polling client, independent of the
/// subscription mechanism: it consumes nothing from any subscriber's backlog
/// and carries the one-shot marker instead of a periodic sequence number.
pub fn read_once(value_bits: u32) -> (r: Reading)
    ensures
        r.value_bits == value_bits,
        r.sequence == ONE_SHOT_SEQUENCE,
{
    Reading { value_bits, sequence: ONE_SHOT_SEQUENCE }
}

/// The index of the oldest reading still retained out of `len` published.
pub open spec fn retained_start(len: int) -> int {
    if len > FANOUT_CAPACITY as int {
        len - FANOUT_CAPACITY as int
    } else {
        0
    }
}

/// What one poll of a subscriber delivers.
#[derive(Clone, Copy, PartialEq, Eq, Structural, Debug)]
pub enum PollOutcome {
    /// The next unread reading.
    Item(Reading),
    /// The subscriber fell more than `FANOUT_CAPACITY` readings behind; its
    /// oldest unread entries were dropped and it resumes at the oldest
    /// retained reading.
    Lagged,
    /// Nothing published beyond what this subscriber has already read.
    Empty,
}

/// What one poll of a subscriber at position `cursor` of history `h` delivers.
pub open spec fn spec_poll_outcome(h: Seq<Reading>, cursor: int) -> PollOutcome {
    if cursor >= h.len() {
        PollOutcome::Empty
    } else if cursor < retained_start(h.len() as int) {
        PollOutcome::Lagged
    } else {
        PollOutcome::Item(h[cursor])
    }
}

/// Where a subscriber at position `cursor` of history `h` stands after one
/// poll.
pub open spec fn spec_poll_cursor(h: Seq<Reading>, cursor: int) -> int {
    if cursor >= h.len() {
        cursor
    } else if cursor < retained_start(h.len() as int) {
        retained_start(h.len() as int)
    } else {
        cursor + 1
    }
}

/// A per-consumer cursor into the fanout's broadcast history.
pub struct SubscriberHandle {
    cursor: u64,
}

impl SubscriberHandle {
    /// The position in the publication history of the next reading this
    /// subscriber is owed.
    pub closed spec fn cursor(&self) -> int {
        self.cursor as int
    }

    /// That position, for callers that must check a handle against the fanout
    /// it came from.
    pub fn position(&self) -> (p: u64)
        ensures
            p as int == self.cursor(),
    {
        self.cursor
    }
}

/// Multiplexes one reading stream to many independent consumers with bounded
/// memory: every subscriber sees every reading published after its creation,
/// except that one which lets more than `FANOUT_CAPACITY` readings accumulate
/// unread has its oldest unread entries dropped rather than stalling the
/// producer or the other subscribers. The model is the full publication
/// history; only the last `FANOUT_CAPACITY` readings are retained in memory.
pub struct StreamFanout {
    history: Ghost<Seq<Reading>>,
    epoch: u64,
    buffer: Vec<Reading>,
}

impl StreamFanout {
    #[verifier::type_invariant]
    spec fn wf(self) -> bool {
        &&& self.epoch == self.history@.len()
        &&& self.buffer@ == self.history@.skip(retained_start(self.history@.len() as int))
    }

    /// Every reading published so far, in publication order.
    pub closed spec fn history(&self) -> Seq<Reading> {
        self.history@
    }

    /// Creates a fanout with nothing published yet.
    pub fn new() -> (f: StreamFanout)
        ensures
            f.history() == Seq::<Reading>::empty(),
    {
        let buffer: Vec<Reading> = Vec::new();
        proof {
            assert(buffer@ =~= Seq::<Reading>::empty().skip(retained_start(0)));
        }
        StreamFanout { history: Ghost(Seq::empty()), epoch: 0, buffer }
    }

    /// How many readings have been published, for callers that must check
    /// room before a publication.
    pub fn published_count(&self) -> (n: u64)
        ensures
            n as int == self.history().len(),
    {
        proof {
            use_type_invariant(&*self);
        }
        self.epoch
    }

    /// Makes `r` visible to every currently attached subscriber. Publishing
    /// never blocks and never fails: it appends to the history and touches no
    /// subscriber handle, whatever any subscriber's read rate.
    pub fn publish(&mut self, r: Reading)
        requires
            old(self).history().len() < u64::MAX,
        ensures
            final(self).history() == old(self).history().push(r),
    {
        proof {
            use_type_invariant(&*self);
        }
        let ghost h0 = self.history@;
        let ghost h1 = h0.push(r);
        let empty_buffer: Vec<Reading> = Vec::new();
        proof {
            assert(empty_buffer@ =~= Seq::<Reading>::empty().skip(retained_start(0)));
        }
        let mut taken = StreamFanout { history: Ghost(Seq::empty()), epoch: 0, buffer: empty_buffer };
        std::mem::swap(&mut taken, self);
        let StreamFanout { history: _, epoch, buffer: mut buf } = taken;
        buf.push(r);
        if buf.len() > FANOUT_CAPACITY {
            buf.remove(0);
        }
        proof {
            assert(buf@ =~= h1.skip(retained_start(h1.len() as int)));
        }
        *self = StreamFanout { history: Ghost(h1), epoch: epoch + 1, buffer: buf };
    }

    /// Attaches a new streaming consumer: the handle returned will see every
    /// reading published from this point forward, as an independent,
    /// non-restartable view.
    pub fn subscribe(&self) -> (h: SubscriberHandle)
        ensures
            h.cursor() == self.history().len(),
    {
        proof {
            use_type_invariant(&*self);
        }
        SubscriberHandle { cursor: self.epoch }
    }

    /// Delivers the next reading owed to `handle`, reports the gap if the
    /// subscriber fell behind by more than `FANOUT_CAPACITY` readings, or
    /// reports that nothing new has been published. Only the handle moves;
    /// the fanout, and with it every other subscriber, is untouched.
    pub fn poll(&self, handle: &mut SubscriberHandle) -> (r: PollOutcome)
        requires
            old(handle).cursor() <= self.history().len(),
        ensures
            r == spec_poll_outcome(self.history(), old(handle).cursor()),
            final(handle).cursor() == spec_poll_cursor(self.history(), old(handle).cursor()),
    {
        proof {
            use_type_invariant(&*self);
        }
        let start: u64 = self.epoch - (self.buffer.len() as u64);
        proof {
            assert(start as int == retained_start(self.history@.len() as int));
        }
        if handle.cursor >= self.epoch {
            PollOutcome::Empty
        } else if handle.cursor < start {
            handle.cursor = start;
            PollOutcome::Lagged
        } else {
            let idx: usize = (handle.cursor - start) as usize;
            let item = self.buffer[idx];
            handle.cursor = handle.cursor + 1;
            PollOutcome::Item(item)
        }
    }
}

/// Slow-subscriber isolation: a subscriber that has left more than
/// `FANOUT_CAPACITY` published readings unread observes a gap — its next poll
/// reports the loss and resumes at the oldest retained reading — while the
/// publication history itself is complete and untouched, so the producer and
/// every other subscriber are unaffected.
pub proof fn lemma_slow_subscriber_isolation(h: Seq<Reading>, cursor: int)
    requires
        0 <= cursor,
        cursor < h.len() - FANOUT_CAPACITY as int,
    ensures
        spec_poll_outcome(h, cursor) == PollOutcome::Lagged,
        spec_poll_cursor(h, cursor) == h.len() - FANOUT_CAPACITY as int,
        spec_poll_outcome(h, spec_poll_cursor(h, cursor)) == PollOutcome::Item(
            h[h.len() - FANOUT_CAPACITY as int],
        ),
{
}

} // verus!
