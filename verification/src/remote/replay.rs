//! The replay buffer: a bounded tail of one viewer's output stream.
//!
//! Every byte that the host writes to a viewer has a position in that viewer's
//! stream, counted from zero. The buffer keeps the newest bytes, so that a viewer
//! that reconnects can be sent exactly what it missed. The oldest bytes are
//! evicted first: a viewer that never comes back cannot hold more memory than the
//! capacity.

use std::collections::VecDeque;
use vstd::prelude::*;

verus! {

/// The largest number of bytes that a buffer keeps.
pub const REPLAY_BUFFER_CAPACITY: usize = 4 * 1024 * 1024;

/// Why a replay cannot be served.
#[derive(Debug, Clone, Copy, PartialEq, Eq)]
pub enum ReplayError {
    /// The position asked for is older than anything still kept, or lies beyond
    /// what was ever written. The viewer has to attach afresh and accept the gap.
    TooFarBehind,
}

/// What a replay buffer stands for: a run of bytes and the position of its first one.
#[verifier::ext_equal]
pub struct ReplayView {
    pub start: nat,
    pub data: Seq<u8>,
}

/// The newest `REPLAY_BUFFER_CAPACITY` bytes of `s`, or all of it.
pub open spec fn newest(s: Seq<u8>) -> Seq<u8> {
    if s.len() > REPLAY_BUFFER_CAPACITY {
        s.skip(s.len() - REPLAY_BUFFER_CAPACITY)
    } else {
        s
    }
}

impl ReplayView {
    /// A buffer to which nothing was written.
    pub open spec fn fresh() -> Self {
        ReplayView { start: 0, data: Seq::empty() }
    }

    /// The position that the next byte will get.
    pub open spec fn next(self) -> nat {
        self.start + self.data.len()
    }

    /// The buffer after `bytes` were written.
    pub open spec fn push(self, bytes: Seq<u8>) -> Self {
        let all = self.data + bytes;
        ReplayView { start: (self.next() + bytes.len() - newest(all).len()) as nat, data: newest(all) }
    }

    /// The buffer after further `writes`, the first one first.
    pub open spec fn pushed_all(self, writes: Seq<Seq<u8>>) -> Self
        decreases writes.len(),
    {
        if writes.len() == 0 {
            self
        } else {
            self.pushed_all(writes.drop_last()).push(writes.last())
        }
    }

    /// The bytes from position `from` on, with the position to go on from; nothing
    /// where `from` is not within what is kept.
    pub open spec fn replay(self, from: nat) -> Option<(Seq<u8>, nat)> {
        if from < self.start || from > self.next() {
            None
        } else {
            Some((self.data.skip(from - self.start), self.next()))
        }
    }

    /// The buffer after the writes in `writes`, the first one first.
    pub open spec fn after(writes: Seq<Seq<u8>>) -> Self {
        ReplayView::fresh().pushed_all(writes)
    }
}

/// A bounded tail of one viewer's output stream.
pub struct ReplayBuffer {
    data: VecDeque<u8>,
    start_seq: u64,
    next_seq: u64,
}

impl View for ReplayBuffer {
    type V = ReplayView;

    closed spec fn view(&self) -> ReplayView {
        ReplayView { start: self.start_seq as nat, data: self.data@ }
    }
}

impl ReplayBuffer {
    /// The counters span exactly the bytes kept, and no more than the capacity is kept.
    pub closed spec fn wf(&self) -> bool {
        &&& self.next_seq == self.start_seq + self.data@.len()
        &&& self.data@.len() <= REPLAY_BUFFER_CAPACITY
    }

    /// A well-formed buffer's next position fits its counter, and what it keeps fits
    /// the capacity.
    pub proof fn lemma_bounds(&self)
        requires
            self.wf(),
        ensures
            self@.next() <= u64::MAX,
            self@.data.len() <= REPLAY_BUFFER_CAPACITY,
    {
    }

    /// An empty buffer at position zero.
    pub fn new() -> (r: Self)
        ensures
            r.wf(),
            r@ == ReplayView::fresh(),
    {
        let r = ReplayBuffer {
            data: VecDeque::with_capacity(REPLAY_BUFFER_CAPACITY),
            start_seq: 0,
            next_seq: 0,
        };
        assert(r@ =~= ReplayView::fresh());
        r
    }

    /// Appends `bytes` to the stream and evicts the oldest bytes beyond the capacity.
    pub fn push(&mut self, bytes: &[u8])
        requires
            old(self).wf(),
            old(self)@.next() + bytes@.len() <= u64::MAX,
        ensures
            final(self).wf(),
            final(self)@ == old(self)@.push(bytes@),
    {
        let ghost kept = self.data@;
        let mut i: usize = 0;
        while i < bytes.len()
            invariant
                i <= bytes@.len(),
                self.data@ == kept + bytes@.take(i as int),
                self.start_seq == old(self).start_seq,
                self.next_seq == old(self).next_seq,
            decreases bytes@.len() - i,
        {
            self.data.push_back(bytes[i]);
            i += 1;
            assert(self.data@ =~= kept + bytes@.take(i as int));
        }
        let ghost all = kept + bytes@;
        assert(self.data@ =~= all);
        self.next_seq = self.next_seq + bytes.len() as u64;
        while self.data.len() > REPLAY_BUFFER_CAPACITY
            invariant
                self.next_seq == self.start_seq + self.data@.len(),
                self.next_seq == old(self)@.next() + bytes@.len(),
                self.data@.len() <= all.len(),
                all.len() > REPLAY_BUFFER_CAPACITY ==> self.data@.len() >= REPLAY_BUFFER_CAPACITY,
                all.len() <= REPLAY_BUFFER_CAPACITY ==> self.data@.len() == all.len(),
                self.data@ == all.skip(all.len() - self.data@.len()),
            decreases self.data@.len(),
        {
            let ghost before = self.data@;
            let _ = self.data.pop_front();
            self.start_seq = self.start_seq + 1;
            assert(self.data@ =~= all.skip(all.len() - self.data@.len()));
        }
        assert(self.data@ =~= newest(all));
    }

    /// Everything from position `from_seq` on, with the position from which the live
    /// stream goes on. A viewer that has seen everything gets an empty replay.
    pub fn replay_from(&self, from_seq: u64) -> (r: Result<(Vec<u8>, u64), ReplayError>)
        requires
            self.wf(),
        ensures
            r is Ok <==> self@.replay(from_seq as nat) is Some,
            r matches Ok((bytes, next)) ==> self@.replay(from_seq as nat) == Some(
                (bytes@, next as nat),
            ),
            r matches Err(e) ==> e == ReplayError::TooFarBehind,
    {
        if from_seq < self.start_seq {
            return Err(ReplayError::TooFarBehind);
        }
        if from_seq > self.next_seq {
            return Err(ReplayError::TooFarBehind);
        }
        let skip: usize = (from_seq - self.start_seq) as usize;
        let mut bytes: Vec<u8> = Vec::new();
        let mut i: usize = skip;
        while i < self.data.len()
            invariant
                skip <= i <= self.data@.len(),
                bytes@ == self.data@.subrange(skip as int, i as int),
            decreases self.data@.len() - i,
        {
            bytes.push(self.data[i]);
            i += 1;
        }
        Ok((bytes, self.next_seq))
    }
}

proof fn lemma_after(writes: Seq<Seq<u8>>)
    ensures
        ReplayView::after(writes).next() == writes.flatten().len(),
        ReplayView::after(writes).data == newest(writes.flatten()),
    decreases writes.len(),
{
    if writes.len() == 0 {
        assert(writes.flatten() =~= Seq::<u8>::empty());
    } else {
        let prior = writes.drop_last();
        lemma_after(prior);
        assert(writes =~= prior.push(writes.last()));
        prior.lemma_flatten_push(writes.last());
        let stream = prior.flatten();
        let all = newest(stream) + writes.last();
        assert(writes.flatten() =~= stream + writes.last());
        assert(newest(all) =~= newest(writes.flatten()));
    }
}

/// A replay gives back what was written: after any writes, the replay from a
/// position within the newest `REPLAY_BUFFER_CAPACITY` bytes is exactly the stream
/// from there on, and the stream goes on at its end.
pub proof fn law_replay_gives_back_the_stream(writes: Seq<Seq<u8>>, from: nat)
    requires
        from <= writes.flatten().len(),
        writes.flatten().len() - from <= REPLAY_BUFFER_CAPACITY,
    ensures
        ReplayView::after(writes).replay(from) == Some(
            (writes.flatten().skip(from as int), writes.flatten().len()),
        ),
{
    lemma_after(writes);
    let stream = writes.flatten();
    let v = ReplayView::after(writes);
    assert(v.data.skip(from - v.start) =~= stream.skip(from as int));
}

/// A replay is refused exactly where bytes are missing: the position asked for is
/// beyond the end of the stream, or older than the newest `REPLAY_BUFFER_CAPACITY`
/// bytes of it.
pub proof fn law_replay_is_refused_only_beyond_what_is_kept(writes: Seq<Seq<u8>>, from: nat)
    ensures
        ReplayView::after(writes).replay(from) is None <==> (from > writes.flatten().len()
            || writes.flatten().len() - from > REPLAY_BUFFER_CAPACITY),
{
    lemma_after(writes);
}

/// What a buffer keeps never exceeds the capacity.
pub proof fn law_memory_is_bounded(writes: Seq<Seq<u8>>)
    ensures
        ReplayView::after(writes).data.len() <= REPLAY_BUFFER_CAPACITY,
{
    lemma_after(writes);
}

/// A viewer that has everything gets an empty replay, not an error.
pub proof fn law_caught_up_viewer_replays_nothing(v: ReplayView)
    ensures
        v.replay(v.next()) == Some((Seq::<u8>::empty(), v.next())),
{
    assert(v.data.skip(v.data.len() as int) =~= Seq::<u8>::empty());
}

/// A write moves the stream on by just its bytes, and what is kept is the end of the
/// stream: all of it while it fits in four megabytes, and the newest four megabytes of it
/// from then on.
pub proof fn law_write_moves_the_stream_on(buffer: ReplayView, bytes: Seq<u8>)
    ensures
        ({
            let after = buffer.push(bytes);
            let all = buffer.data + bytes;
            &&& after.next() == buffer.next() + bytes.len()
            &&& after.data.len() == if all.len() <= 4194304 {
                all.len()
            } else {
                4194304nat
            }
            &&& after.data == all.skip(all.len() - after.data.len())
            &&& after.next() == after.start + after.data.len()
        }),
{
    let all = buffer.data + bytes;
    assert(all.skip(0) =~= all);
}

/// What is replayed from a place is everything that was kept from there on, and then the
/// stream goes on where it ends; nothing is replayed from a place that is no longer kept,
/// or was not reached yet.
pub proof fn law_replay_is_what_follows(buffer: ReplayView, from: nat)
    ensures
        buffer.replay(from) is Some <==> buffer.start <= from <= buffer.start + buffer.data.len(),
        buffer.replay(from) matches Some((bytes, next)) ==> {
            &&& next == buffer.start + buffer.data.len()
            &&& bytes.len() == next - from
            &&& forall|i: int|
                0 <= i < bytes.len() ==> bytes[i] == buffer.data[from - buffer.start + i]
        },
        ReplayView::fresh().replay(0) == Some((Seq::<u8>::empty(), 0nat)),
{
    assert(ReplayView::fresh().data.skip(0) =~= Seq::<u8>::empty());
}

} // verus!
