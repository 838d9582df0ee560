//! Event channels: one broadcast log per event type, read through cursors.
//!
//! A writer appends; every registered reader sees each event written after
//! its registration exactly once and in write order, however many other
//! readers there are. Events that every registered reader has seen are
//! dropped from the channel.

use vstd::prelude::*;

verus! {

/// The observable state of a channel: everything ever written to it, and
/// for each registered reader how much of that it has seen.
pub struct ChannelState<E> {
    pub written: Seq<E>,
    pub cursors: Map<usize, nat>,
}

/// One operation on a channel, as the model sees it.
pub enum ChannelOp<E> {
    Write(E),
    Register(usize),
    Read(usize),
    Unregister(usize),
}

impl<E> ChannelState<E> {
    /// Every cursor lies within the log.
    pub open spec fn wf(self) -> bool {
        forall|id: usize| #[trigger]
            self.cursors.contains_key(id) ==> self.cursors[id] <= self.written.len()
    }

    pub open spec fn write(self, e: E) -> Self {
        ChannelState { written: self.written.push(e), cursors: self.cursors }
    }

    pub open spec fn write_all(self, events: Seq<E>) -> Self {
        ChannelState { written: self.written + events, cursors: self.cursors }
    }

    /// A reader registered now has seen everything written so far.
    pub open spec fn register(self, id: usize) -> Self {
        ChannelState { written: self.written, cursors: self.cursors.insert(id, self.written.len()) }
    }

    /// What a read by `id` hands out: the events past its cursor.
    pub open spec fn pending(self, id: usize) -> Seq<E> {
        self.written.skip(self.cursors[id] as int)
    }

    /// A read moves the cursor of `id` to the end of the log.
    pub open spec fn read(self, id: usize) -> Self {
        ChannelState { written: self.written, cursors: self.cursors.insert(id, self.written.len()) }
    }

    pub open spec fn unregister(self, id: usize) -> Self {
        ChannelState { written: self.written, cursors: self.cursors.remove(id) }
    }

    /// `w` is the length of the prefix that every registered reader has
    /// seen; with no reader registered, that is the whole log.
    pub open spec fn is_low_water(self, w: nat) -> bool {
        &&& w <= self.written.len()
        &&& forall|id: usize| #[trigger] self.cursors.contains_key(id) ==> w <= self.cursors[id]
        &&& (w == self.written.len() || exists|id: usize| #[trigger]
            self.cursors.contains_key(id) && self.cursors[id] == w)
    }

    pub open spec fn step(self, op: ChannelOp<E>) -> Self {
        match op {
            ChannelOp::Write(e) => self.write(e),
            ChannelOp::Register(id) => self.register(id),
            ChannelOp::Read(id) => self.read(id),
            ChannelOp::Unregister(id) => self.unregister(id),
        }
    }

    /// The state after the operations of `ops`, applied first to last.
    pub open spec fn run(self, ops: Seq<ChannelOp<E>>) -> Self
        decreases ops.len(),
    {
        if ops.len() == 0 {
            self
        } else {
            self.run(ops.drop_last()).step(ops.last())
        }
    }
}

/// The events that the writes among `ops` append, in order.
pub open spec fn writes_of<E>(ops: Seq<ChannelOp<E>>) -> Seq<E>
    decreases ops.len(),
{
    if ops.len() == 0 {
        Seq::empty()
    } else {
        match ops.last() {
            ChannelOp::Write(e) => writes_of(ops.drop_last()).push(e),
            _ => writes_of(ops.drop_last()),
        }
    }
}

/// None of `ops` registers, reads as, or unregisters the reader `id`.
pub open spec fn leaves_reader_alone<E>(ops: Seq<ChannelOp<E>>, id: usize) -> bool {
    forall|k: int|
        0 <= k < ops.len() ==> match #[trigger] ops[k] {
            ChannelOp::Write(_) => true,
            ChannelOp::Register(other) => other != id,
            ChannelOp::Read(other) => other != id,
            ChannelOp::Unregister(other) => other != id,
        }
}

/// While others write, register, read and unregister, the reader `id` keeps
/// its cursor and the log only grows by what was written.
pub proof fn lemma_run_keeps_reader<E>(s: ChannelState<E>, ops: Seq<ChannelOp<E>>, id: usize)
    requires
        s.cursors.contains_key(id),
        leaves_reader_alone(ops, id),
    ensures
        s.run(ops).cursors.contains_key(id),
        s.run(ops).cursors[id] == s.cursors[id],
        s.run(ops).written == s.written + writes_of(ops),
    decreases ops.len(),
{
    if ops.len() != 0 {
        let front = ops.drop_last();
        lemma_run_keeps_reader(s, front, id);
        match ops.last() {
            ChannelOp::Write(e) => {
                assert((s.written + writes_of(front)).push(e) =~= s.written + writes_of(
                    front,
                ).push(e));
            },
            _ => {},
        }
    }
}

/// Exactly-once delivery. A reader with nothing pending (one that has just
/// registered, or has just read) is left alone while any mix of writes and
/// of other readers' registrations, reads and removals takes place. Its next
/// read then hands out exactly the events written meanwhile, in write
/// order, and the read after that hands out nothing.
pub proof fn law_exactly_once<E>(s: ChannelState<E>, ops: Seq<ChannelOp<E>>, id: usize)
    requires
        s.cursors.contains_key(id),
        s.cursors[id] == s.written.len(),
        leaves_reader_alone(ops, id),
    ensures
        s.run(ops).cursors.contains_key(id),
        s.run(ops).pending(id) == writes_of(ops),
        s.run(ops).read(id).pending(id) == Seq::<E>::empty(),
{
    lemma_run_keeps_reader(s, ops, id);
}

/// A reader's cursor on one channel. It is handed out by
/// [`EventChannel::register_reader`] and cannot be copied.
pub struct ReaderId {
    slot: usize,
}

impl ReaderId {
    /// The key under which the channel files this reader.
    pub closed spec fn key(&self) -> usize {
        self.slot
    }
}

/// A broadcast log of events of type `E`.
pub struct EventChannel<E> {
    events: Vec<E>,
    dropped: Ghost<Seq<E>>,
    cursors: Vec<Option<usize>>,
}

impl<E> View for EventChannel<E> {
    type V = ChannelState<E>;

    closed spec fn view(&self) -> ChannelState<E> {
        ChannelState {
            written: self.dropped@ + self.events@,
            cursors: Map::new(
                |id: usize| id < self.cursors@.len() && self.cursors@[id as int] is Some,
                |id: usize| (self.dropped@.len() + self.cursors@[id as int].unwrap()) as nat,
            ),
        }
    }
}

impl<E: Copy> EventChannel<E> {
    /// The number of events that the channel no longer holds.
    pub closed spec fn trimmed(&self) -> nat {
        self.dropped@.len()
    }

    /// The number of events that the channel still holds.
    pub closed spec fn retained(&self) -> nat {
        self.events@.len()
    }

    /// Cursors lie within the log, and the channel holds exactly the events
    /// that some registered reader has yet to see.
    pub closed spec fn wf(&self) -> bool {
        &&& forall|k: int|
            0 <= k < self.cursors@.len() ==> match #[trigger] self.cursors@[k] {
                Some(c) => c <= self.events@.len(),
                None => true,
            }
        &&& self@.is_low_water(self.trimmed())
    }

    /// Retention. A channel holds the events that some registered reader
    /// has yet to see, and no others: what it no longer holds is exactly
    /// the part of the log that every reader has seen.
    pub proof fn law_retention(&self)
        requires
            self.wf(),
        ensures
            self@.wf(),
            self@.is_low_water(self.trimmed()),
            self.trimmed() + self.retained() == self@.written.len(),
    {
    }

    pub fn new() -> (r: Self)
        ensures
            r.wf(),
            r@.written == Seq::<E>::empty(),
            r@.cursors == Map::<usize, nat>::empty(),
    {
        let r = EventChannel { events: Vec::new(), dropped: Ghost(Seq::empty()), cursors: Vec::new() };
        r
    }

    /// How many events the channel still holds.
    pub fn len(&self) -> (n: usize)
        ensures
            n == self.retained(),
    {
        self.events.len()
    }

    /// Whether `reader` is registered with this channel.
    pub fn has_reader(&self, reader: &ReaderId) -> (r: bool)
        ensures
            r == self@.cursors.contains_key(reader.key()),
    {
        reader.slot < self.cursors.len() && self.cursors[reader.slot].is_some()
    }

    /// The smallest cursor, or the number of held events with no reader.
    fn low_water(&self) -> (m: usize)
        requires
            forall|k: int|
                0 <= k < self.cursors@.len() ==> match #[trigger] self.cursors@[k] {
                    Some(c) => c <= self.events@.len(),
                    None => true,
                },
        ensures
            m <= self.events@.len(),
            forall|k: int|
                0 <= k < self.cursors@.len() ==> match #[trigger] self.cursors@[k] {
                    Some(c) => m <= c,
                    None => true,
                },
            m == self.events@.len() || exists|k: int|
                0 <= k < self.cursors@.len() && #[trigger] self.cursors@[k] == Some(m),
    {
        let mut m: usize = self.events.len();
        let mut i: usize = 0;
        while i < self.cursors.len()
            invariant
                i <= self.cursors@.len(),
                m <= self.events@.len(),
                forall|k: int|
                    0 <= k < i ==> match #[trigger] self.cursors@[k] {
                        Some(c) => m <= c,
                        None => true,
                    },
                m == self.events@.len() || exists|k: int|
                    0 <= k < i && #[trigger] self.cursors@[k] == Some(m),
            decreases self.cursors@.len() - i,
        {
            match self.cursors[i] {
                Some(c) => {
                    if c < m {
                        m = c;
                    }
                },
                None => {},
            }
            i += 1;
        }
        m
    }

    /// Drops the events that every registered reader has seen.
    fn compact(&mut self)
        requires
            forall|k: int|
                0 <= k < old(self).cursors@.len() ==> match #[trigger] old(self).cursors@[k] {
                    Some(c) => c <= old(self).events@.len(),
                    None => true,
                },
        ensures
            final(self).wf(),
            final(self)@ == old(self)@,
    {
        let m: usize = self.low_water();
        let ghost before = *self;
        let tail = self.events.split_off(m);
        let ghost head = self.events@;
        self.events = tail;
        proof {
            self.dropped@ = self.dropped@ + head;
        }
        let mut i: usize = 0;
        while i < self.cursors.len()
            invariant
                i <= self.cursors@.len(),
                self.cursors@.len() == before.cursors@.len(),
                self.events@ == before.events@.skip(m as int),
                self.dropped@ == before.dropped@ + before.events@.take(m as int),
                m <= before.events@.len(),
                forall|k: int|
                    0 <= k < before.cursors@.len() ==> match #[trigger] before.cursors@[k] {
                        Some(c) => m <= c <= before.events@.len(),
                        None => true,
                    },
                forall|k: int|
                    0 <= k < i ==> #[trigger] self.cursors@[k] == match before.cursors@[k] {
                        Some(c) => Some((c - m) as usize),
                        None => None,
                    },
                forall|k: int|
                    i <= k < self.cursors@.len() ==> #[trigger] self.cursors@[k]
                        == before.cursors@[k],
            decreases self.cursors@.len() - i,
        {
            match self.cursors[i] {
                Some(c) => {
                    self.cursors.set(i, Some(c - m));
                },
                None => {},
            }
            i += 1;
        }
        proof {
            assert(self@.written =~= before@.written) by {
                assert(before.events@ =~= before.events@.take(m as int) + before.events@.skip(
                    m as int,
                ));
            }
            assert(self@.cursors =~= before@.cursors);
            assert(self@.is_low_water(self.trimmed())) by {
                if m != before.events@.len() {
                    let k = choose|k: int|
                        0 <= k < before.cursors@.len() && #[trigger] before.cursors@[k] == Some(m);
                    assert(self@.cursors.contains_key(k as usize));
                }
            }
        }
    }

    /// Registers a reader. It sees the events written from now on, and none
    /// of those written before.
    pub fn register_reader(&mut self) -> (reader: ReaderId)
        requires
            old(self).wf(),
        ensures
            final(self).wf(),
            !old(self)@.cursors.contains_key(reader.key()),
            final(self)@ == old(self)@.register(reader.key()),
    {
        let at: usize = self.events.len();
        let mut i: usize = 0;
        while i < self.cursors.len() && self.cursors[i].is_some()
            invariant
                i <= self.cursors@.len(),
                *self == *old(self),
            decreases self.cursors@.len() - i,
        {
            i += 1;
        }
        if i < self.cursors.len() {
            self.cursors.set(i, Some(at));
        } else {
            self.cursors.push(Some(at));
        }
        let reader = ReaderId { slot: i };
        proof {
            assert(self@.cursors =~= old(self)@.cursors.insert(i, old(self)@.written.len()));
        }
        self.compact();
        reader
    }

    /// Removes a reader; the channel stops holding events for it.
    pub fn unregister_reader(&mut self, reader: ReaderId)
        requires
            old(self).wf(),
        ensures
            final(self).wf(),
            final(self)@ == old(self)@.unregister(reader.key()),
    {
        if reader.slot < self.cursors.len() {
            self.cursors.set(reader.slot, None);
        }
        proof {
            assert(self@.cursors =~= old(self)@.cursors.remove(reader.slot));
        }
        self.compact();
    }

    /// Appends one event.
    pub fn single_write(&mut self, event: E)
        requires
            old(self).wf(),
        ensures
            final(self).wf(),
            final(self)@ == old(self)@.write(event),
    {
        self.events.push(event);
        self.compact();
    }

    /// Appends the events of `events`, first to last.
    pub fn iter_write(&mut self, events: &Vec<E>)
        requires
            old(self).wf(),
        ensures
            final(self).wf(),
            final(self)@ == old(self)@.write_all(events@),
    {
        let mut i: usize = 0;
        while i < events.len()
            invariant
                i <= events@.len(),
                self.cursors == old(self).cursors,
                self.dropped == old(self).dropped,
                self.events@ == old(self).events@ + events@.take(i as int),
            decreases events@.len() - i,
        {
            self.events.push(events[i]);
            i += 1;
        }
        proof {
            assert(self@.written =~= old(self)@.written + events@);
        }
        self.compact();
    }

    /// The events that the next read of `reader` would hand out, in write
    /// order; the cursor stays where it is.
    pub fn peek(&self, reader: &ReaderId) -> (out: Vec<E>)
        requires
            self.wf(),
            self@.cursors.contains_key(reader.key()),
        ensures
            out@ == self@.pending(reader.key()),
    {
        let from: usize = self.cursors[reader.slot].unwrap();
        let mut out: Vec<E> = Vec::new();
        let mut i: usize = from;
        while i < self.events.len()
            invariant
                from <= i <= self.events@.len(),
                out@ == self.events@.subrange(from as int, i as int),
            decreases self.events@.len() - i,
        {
            out.push(self.events[i]);
            i += 1;
        }
        out
    }

    /// Hands out, in write order, the events written since the last read of
    /// `reader` (or since its registration), and moves its cursor past them.
    pub fn read(&mut self, reader: &ReaderId) -> (out: Vec<E>)
        requires
            old(self).wf(),
            old(self)@.cursors.contains_key(reader.key()),
        ensures
            final(self).wf(),
            out@ == old(self)@.pending(reader.key()),
            final(self)@ == old(self)@.read(reader.key()),
    {
        let from: usize = self.cursors[reader.slot].unwrap();
        let mut out: Vec<E> = Vec::new();
        let mut i: usize = from;
        while i < self.events.len()
            invariant
                from <= i <= self.events@.len(),
                *self == *old(self),
                out@ == self.events@.subrange(from as int, i as int),
            decreases self.events@.len() - i,
        {
            out.push(self.events[i]);
            i += 1;
        }
        self.cursors.set(reader.slot, Some(self.events.len()));
        proof {
            assert(self@.cursors =~= old(self)@.cursors.insert(
                reader.slot,
                old(self)@.written.len(),
            ));
        }
        self.compact();
        out
    }
}

} // verus!
