//! The state of one synthesized logical connection over the cloud relay.
//!
//! A duplex buffers the bytes that arrive for it until the local reader takes
//! them, remembers whether the peer has gone, and keeps the replay buffer of a
//! host's per-viewer connection. The program around it holds the duplex behind a
//! lock, waits where `read` says to wait, and performs the writes.

use std::collections::VecDeque;
use vstd::prelude::*;
use crate::remote::replay::ReplayBuffer;
use crate::remote::replay::ReplayError;
use crate::remote::replay::ReplayView;
use crate::remote::replay::REPLAY_BUFFER_CAPACITY;

verus! {

/// What one attempt to read comes to.
#[derive(Debug, PartialEq, Eq)]
pub enum ReadStep {
    /// These bytes go to the reader. None, where the reader asked for none.
    Data(Vec<u8>),
    /// The peer has gone and everything it sent was read.
    Eof,
    /// Nothing has arrived yet: wait, at most so many nanoseconds where a time is given,
    /// then try again.
    Wait(Option<u128>),
    /// The read timeout has passed.
    TimedOut,
}

/// The model of [`ReadStep`].
pub enum ReadStepView {
    Data(Seq<u8>),
    Eof,
    Wait(Option<u128>),
    TimedOut,
}

impl ReadStep {
    /// The model of the step.
    pub open spec fn view(&self) -> ReadStepView {
        match self {
            ReadStep::Data(bytes) => ReadStepView::Data(bytes@),
            ReadStep::Eof => ReadStepView::Eof,
            ReadStep::Wait(time) => ReadStepView::Wait(*time),
            ReadStep::TimedOut => ReadStepView::TimedOut,
        }
    }
}

/// How long a read may take: when it started, and the time it has, in nanoseconds.
#[derive(Debug, Clone, Copy, PartialEq, Eq, Structural)]
pub struct ReadDeadline {
    pub started: u128,
    pub timeout: u128,
}

impl ReadDeadline {
    /// The time that has passed at the moment `now`.
    pub open spec fn elapsed(self, now: u128) -> u128 {
        if now > self.started {
            (now - self.started) as u128
        } else {
            0
        }
    }
}

/// Something done to what a duplex writes.
pub enum WriteOp<W> {
    /// What it writes through is replaced.
    Replace(W),
    /// Bytes are written.
    Write(Seq<u8>),
}

/// What a duplex stands for. `W` is whatever the program writes through.
#[verifier::ext_equal]
pub struct DuplexView<W> {
    pub buffer: Seq<u8>,
    pub closed: bool,
    pub write_fn: W,
    pub read_timeout: Option<u128>,
    pub replay: Option<ReplayView>,
}

impl<W> DuplexView<W> {
    /// The duplex after `data` arrived. A closed duplex takes nothing in.
    pub open spec fn push(self, data: Seq<u8>) -> Self {
        if self.closed {
            self
        } else {
            DuplexView { buffer: self.buffer + data, ..self }
        }
    }

    /// The duplex after its peer has gone.
    pub open spec fn close(self) -> Self {
        DuplexView { closed: true, ..self }
    }

    /// The duplex with another function to write through.
    pub open spec fn with_write_fn(self, write_fn: W) -> Self {
        DuplexView { write_fn, ..self }
    }

    /// The duplex after `bytes` were written.
    pub open spec fn written(self, bytes: Seq<u8>) -> Self {
        DuplexView {
            replay: match self.replay {
                Some(replay) => Some(replay.push(bytes)),
                None => None,
            },
            ..self
        }
    }

    /// The duplex after the operations in `ops`, the first one first.
    pub open spec fn after_ops(self, ops: Seq<WriteOp<W>>) -> Self
        decreases ops.len(),
    {
        if ops.len() == 0 {
            self
        } else {
            let before = self.after_ops(ops.drop_last());
            match ops.last() {
                WriteOp::Replace(write_fn) => before.with_write_fn(write_fn),
                WriteOp::Write(bytes) => before.written(bytes),
            }
        }
    }

    /// What the operations in `ops` come to: for each write, what is called and the bytes
    /// that it is given.
    pub open spec fn calls(self, ops: Seq<WriteOp<W>>) -> Seq<(W, Seq<u8>)>
        decreases ops.len(),
    {
        if ops.len() == 0 {
            Seq::empty()
        } else {
            let front = ops.drop_last();
            match ops.last() {
                WriteOp::Replace(_) => self.calls(front),
                WriteOp::Write(bytes) => self.calls(front).push(
                    (self.after_ops(front).write_fn, bytes),
                ),
            }
        }
    }

    /// The time that a read has which starts at the moment `now`.
    pub open spec fn deadline(self, now: u128) -> Option<ReadDeadline> {
        match self.read_timeout {
            Some(timeout) => Some(ReadDeadline { started: now, timeout }),
            None => None,
        }
    }

    /// What an attempt to read at most `max` bytes at the moment `now` comes to; `timed_out`
    /// says whether the wait before it ended by its time running out.
    pub open spec fn read_step(
        self,
        max: nat,
        deadline: Option<ReadDeadline>,
        now: u128,
        timed_out: bool,
    ) -> ReadStepView {
        if max == 0 || self.buffer.len() > 0 {
            ReadStepView::Data(self.taken(max))
        } else if self.closed {
            ReadStepView::Eof
        } else {
            match deadline {
                None => ReadStepView::Wait(None),
                Some(deadline) => if timed_out || deadline.elapsed(now) >= deadline.timeout {
                    ReadStepView::TimedOut
                } else {
                    ReadStepView::Wait(Some((deadline.timeout - deadline.elapsed(now)) as u128))
                },
            }
        }
    }

    /// How many bytes a read for `max` bytes takes.
    pub open spec fn readable(self, max: nat) -> nat {
        if self.buffer.len() < max {
            self.buffer.len()
        } else {
            max
        }
    }

    /// The bytes that a read for `max` bytes takes.
    pub open spec fn taken(self, max: nat) -> Seq<u8> {
        self.buffer.take(self.readable(max) as int)
    }

    /// The duplex after a read for `max` bytes.
    pub open spec fn after_read(self, max: nat) -> Self {
        DuplexView { buffer: self.buffer.skip(self.readable(max) as int), ..self }
    }

    /// What the reads for the sizes in `sizes` take, one after the other.
    pub open spec fn taken_by(self, sizes: Seq<nat>) -> Seq<u8>
        decreases sizes.len(),
    {
        if sizes.len() == 0 {
            Seq::empty()
        } else {
            self.taken(sizes[0]) + self.after_read(sizes[0]).taken_by(sizes.drop_first())
        }
    }

    /// The duplex after the reads for the sizes in `sizes`.
    pub open spec fn after_reads(self, sizes: Seq<nat>) -> Self
        decreases sizes.len(),
    {
        if sizes.len() == 0 {
            self
        } else {
            self.after_read(sizes[0]).after_reads(sizes.drop_first())
        }
    }
}

/// One logical connection: on the host, one per attached viewer; on the viewer, the
/// connection to the host.
pub struct CloudDuplex<W> {
    buffer: VecDeque<u8>,
    closed: bool,
    write_fn: W,
    read_timeout: Option<u128>,
    replay: Option<ReplayBuffer>,
}

impl<W> View for CloudDuplex<W> {
    type V = DuplexView<W>;

    closed spec fn view(&self) -> DuplexView<W> {
        DuplexView {
            buffer: self.buffer@,
            closed: self.closed,
            write_fn: self.write_fn,
            read_timeout: self.read_timeout,
            replay: match self.replay {
                Some(replay) => Some(replay@),
                None => None,
            },
        }
    }
}

impl<W> CloudDuplex<W> {
    /// The replay buffer, where there is one, is well-formed.
    pub closed spec fn wf(&self) -> bool {
        self.replay matches Some(replay) ==> replay.wf()
    }

    /// An open, empty duplex without a replay buffer: the viewer's side.
    pub fn new(write_fn: W) -> (r: Self)
        ensures
            r.wf(),
            r@ == (DuplexView {
                buffer: Seq::<u8>::empty(),
                closed: false,
                write_fn,
                read_timeout: None,
                replay: None,
            }),
    {
        Self::new_inner(write_fn, None)
    }

    /// An open, empty duplex with a fresh replay buffer: the host's side of one viewer.
    pub fn new_with_replay(write_fn: W) -> (r: Self)
        ensures
            r.wf(),
            r@ == (DuplexView {
                buffer: Seq::<u8>::empty(),
                closed: false,
                write_fn,
                read_timeout: None,
                replay: Some(ReplayView::fresh()),
            }),
    {
        Self::new_inner(write_fn, Some(ReplayBuffer::new()))
    }

    /// An open, empty duplex with the given replay buffer.
    pub fn new_inner(write_fn: W, replay: Option<ReplayBuffer>) -> (r: Self)
        requires
            replay matches Some(replay) ==> replay.wf(),
        ensures
            r.wf(),
            r@ == (DuplexView {
                buffer: Seq::<u8>::empty(),
                closed: false,
                write_fn,
                read_timeout: None,
                replay: match replay {
                    Some(replay) => Some(replay@),
                    None => None,
                },
            }),
    {
        let r = CloudDuplex {
            buffer: VecDeque::new(),
            closed: false,
            write_fn,
            read_timeout: None,
            replay,
        };
        assert(r@.buffer =~= Seq::<u8>::empty());
        r
    }

    /// The buffered output from position `from_seq` on. `None` where this duplex has no
    /// replay buffer.
    pub fn replay_from(&self, from_seq: u64) -> (r: Option<Result<(Vec<u8>, u64), ReplayError>>)
        requires
            self.wf(),
        ensures
            r is None <==> self@.replay is None,
            r matches Some(Ok((bytes, next))) ==> self@.replay->0.replay(from_seq as nat) == Some(
                (bytes@, next as nat),
            ) && bytes@.len() <= REPLAY_BUFFER_CAPACITY,
            r matches Some(Err(_)) ==> self@.replay->0.replay(from_seq as nat) is None,
    {
        match &self.replay {
            Some(replay) => {
                proof {
                    replay.lemma_bounds();
                }
                Some(replay.replay_from(from_seq))
            },
            None => None,
        }
    }

    /// Sets or clears the time in nanoseconds that bounds every later read.
    pub fn set_recv_timeout(&mut self, timeout: Option<u128>)
        requires
            old(self).wf(),
        ensures
            final(self).wf(),
            final(self)@ == (DuplexView { read_timeout: timeout, ..old(self)@ }),
    {
        self.read_timeout = timeout;
    }

    /// Replaces what the program writes through.
    pub fn set_write_fn(&mut self, write_fn: W)
        requires
            old(self).wf(),
        ensures
            final(self).wf(),
            final(self)@ == old(self)@.with_write_fn(write_fn),
    {
        self.write_fn = write_fn;
    }

    /// What the program writes through now.
    pub fn write_fn(&self) -> (r: &W)
        ensures
            *r == self@.write_fn,
    {
        &self.write_fn
    }

    /// Takes in bytes that arrived over the data channel. They join the bytes that
    /// arrived over the relay.
    pub fn push_p2p(&mut self, data: &[u8])
        requires
            old(self).wf(),
        ensures
            final(self).wf(),
            final(self)@ == old(self)@.push(data@),
    {
        self.push(data);
    }

    /// Takes in bytes that arrived for this connection.
    pub fn push(&mut self, data: &[u8])
        requires
            old(self).wf(),
        ensures
            final(self).wf(),
            final(self)@ == old(self)@.push(data@),
    {
        if self.closed {
            return;
        }
        let ghost before = self.buffer@;
        let mut i: usize = 0;
        while i < data.len()
            invariant
                i <= data@.len(),
                self.buffer@ == before + data@.take(i as int),
                before == old(self).buffer@,
                !self.closed,
                !old(self).closed,
                self.write_fn == old(self).write_fn,
                self.read_timeout == old(self).read_timeout,
                self.replay == old(self).replay,
            decreases data@.len() - i,
        {
            self.buffer.push_back(data[i]);
            i += 1;
            assert(self.buffer@ =~= before + data@.take(i as int));
        }
        assert(self.buffer@ =~= before + data@);
    }

    /// Marks the peer as gone. What has arrived can still be read.
    pub fn close(&mut self)
        requires
            old(self).wf(),
        ensures
            final(self).wf(),
            final(self)@ == old(self)@.close(),
    {
        self.closed = true;
    }

    /// The time that a read has which starts at the moment `now`.
    pub fn read_deadline(&self, now: u128) -> (r: Option<ReadDeadline>)
        ensures
            r == self@.deadline(now),
    {
        match self.read_timeout {
            Some(timeout) => Some(ReadDeadline { started: now, timeout }),
            None => None,
        }
    }

    /// One attempt to read at most `max` bytes. `timed_out` says whether the wait before
    /// this attempt ended by its time running out.
    pub fn read(
        &mut self,
        max: usize,
        deadline: Option<ReadDeadline>,
        now: u128,
        timed_out: bool,
    ) -> (r: ReadStep)
        requires
            old(self).wf(),
        ensures
            final(self).wf(),
            r@ == old(self)@.read_step(max as nat, deadline, now, timed_out),
            final(self)@ == old(self)@.after_read(max as nat),
    {
        if max == 0 {
            let none: Vec<u8> = Vec::new();
            assert(none@ =~= old(self)@.taken(0));
            assert(self@.buffer.skip(0) =~= self@.buffer);
            return ReadStep::Data(none);
        }
        if self.buffer.len() > 0 {
            let n: usize = if self.buffer.len() < max {
                self.buffer.len()
            } else {
                max
            };
            let mut bytes: Vec<u8> = Vec::new();
            while bytes.len() < n
                invariant
                    bytes@.len() <= n <= old(self).buffer@.len(),
                    bytes@ == old(self).buffer@.take(bytes@.len() as int),
                    self.buffer@ == old(self).buffer@.skip(bytes@.len() as int),
                    self.closed == old(self).closed,
                    self.write_fn == old(self).write_fn,
                    self.read_timeout == old(self).read_timeout,
                    self.replay == old(self).replay,
                decreases n - bytes@.len(),
            {
                let ghost rest = self.buffer@;
                match self.buffer.pop_front() {
                    Some(byte) => {
                        bytes.push(byte);
                    },
                    None => {},
                }
                assert(self.buffer@ =~= old(self).buffer@.skip(bytes@.len() as int));
                assert(bytes@ =~= old(self).buffer@.take(bytes@.len() as int));
            }
            return ReadStep::Data(bytes);
        }
        assert(self@.after_read(max as nat) =~= self@);
        if self.closed {
            return ReadStep::Eof;
        }
        match deadline {
            None => ReadStep::Wait(None),
            Some(deadline) => {
                let elapsed: u128 = if now > deadline.started {
                    now - deadline.started
                } else {
                    0
                };
                if timed_out || elapsed >= deadline.timeout {
                    ReadStep::TimedOut
                } else {
                    ReadStep::Wait(Some(deadline.timeout - elapsed))
                }
            },
        }
    }

    /// Records that `buf` is written to the peer, so that it can be replayed, and returns
    /// what is to be called with it. Both the relay and the data channel are written
    /// through here.
    pub fn write(&mut self, buf: &[u8]) -> (r: &W)
        requires
            old(self).wf(),
            old(self)@.replay matches Some(replay) ==> replay.next() + buf@.len() <= u64::MAX,
        ensures
            final(self).wf(),
            final(self)@ == old(self)@.written(buf@),
            *r == old(self)@.write_fn,
    {
        match &mut self.replay {
            Some(replay) => {
                replay.push(buf);
            },
            None => {},
        }
        &self.write_fn
    }
}

/// Reads deliver what was pushed, in order and without loss: whatever sizes are asked
/// for, the bytes taken so far followed by those still buffered are the bytes that
/// were there.
pub proof fn law_reads_deliver_in_order<W>(d: DuplexView<W>, sizes: Seq<nat>)
    ensures
        d.taken_by(sizes) + d.after_reads(sizes).buffer == d.buffer,
        d.after_reads(sizes).closed == d.closed,
    decreases sizes.len(),
{
    if sizes.len() == 0 {
        assert(Seq::<u8>::empty() + d.buffer =~= d.buffer);
    } else {
        let next = d.after_read(sizes[0]);
        law_reads_deliver_in_order(next, sizes.drop_first());
        assert(d.taken(sizes[0]) + next.buffer =~= d.buffer);
        assert(d.taken_by(sizes) + d.after_reads(sizes).buffer =~= d.taken(sizes[0]) + (
        next.taken_by(sizes.drop_first()) + d.after_reads(sizes).buffer));
    }
}

/// What arrives while earlier bytes are being read comes after them: reading first and
/// taking `data` in afterwards leaves the same bytes to read as the other way round,
/// as long as the reads found enough.
pub proof fn law_push_after_read_keeps_order<W>(d: DuplexView<W>, data: Seq<u8>, max: nat)
    requires
        max <= d.buffer.len(),
    ensures
        d.after_read(max).push(data) == d.push(data).after_read(max),
        d.push(data).taken(max) == d.taken(max),
{
    assert(d.after_read(max).push(data) =~= d.push(data).after_read(max));
    assert(d.push(data).taken(max) =~= d.taken(max));
}

/// Bytes that arrive after the peer has gone are dropped.
pub proof fn law_closed_duplex_takes_nothing<W>(d: DuplexView<W>, data: Seq<u8>)
    ensures
        d.close().push(data) == d.close(),
{
}

/// Every write after a replacement goes through the new function: once, with all of its
/// bytes, and through no other. The replacement itself changes nothing else, and the
/// writes change nothing but what is kept for a replay, where every byte is recorded.
pub proof fn law_writes_go_through_the_newest_function<W>(
    d: DuplexView<W>,
    write_fn: W,
    writes: Seq<Seq<u8>>,
)
    ensures
        ({
            let replaced = d.with_write_fn(write_fn);
            let ops = writes.map_values(|bytes: Seq<u8>| WriteOp::<W>::Write(bytes));
            let after = replaced.after_ops(ops);
            &&& replaced.calls(ops) == writes.map_values(|bytes: Seq<u8>| (write_fn, bytes))
            &&& after.write_fn == write_fn
            &&& replaced.buffer == d.buffer && after.buffer == d.buffer
            &&& replaced.closed == d.closed && after.closed == d.closed
            &&& replaced.read_timeout == d.read_timeout && after.read_timeout == d.read_timeout
            &&& replaced.replay == d.replay
            &&& d.replay is None ==> after.replay is None
            &&& d.replay matches Some(replay) ==> after.replay == Some(replay.pushed_all(writes))
        }),
    decreases writes.len(),
{
    let replaced = d.with_write_fn(write_fn);
    let ops = writes.map_values(|bytes: Seq<u8>| WriteOp::<W>::Write(bytes));
    let calls = writes.map_values(|bytes: Seq<u8>| (write_fn, bytes));
    if writes.len() == 0 {
        assert(replaced.calls(ops) =~= calls);
    } else {
        let front = writes.drop_last();
        law_writes_go_through_the_newest_function(d, write_fn, front);
        assert(ops.drop_last() =~= front.map_values(
            |bytes: Seq<u8>| WriteOp::<W>::Write(bytes),
        ));
        assert(ops.last() == WriteOp::<W>::Write(writes.last()));
        assert(calls =~= front.map_values(|bytes: Seq<u8>| (write_fn, bytes)).push(
            (write_fn, writes.last()),
        ));
    }
}

/// A read times out on time. While nothing arrives and the peer stays, an attempt in a read
/// with a timeout gives up exactly when the time has passed since the read started, and
/// otherwise waits for the rest of it, so that a wait whose time runs out ends the read at
/// that moment. Without a timeout no read gives up. Either way the duplex is as it was:
/// the next read has the same time again.
pub proof fn law_reads_time_out_on_time<W>(
    d: DuplexView<W>,
    timeout: Option<u128>,
    max: nat,
    started: u128,
    now: u128,
)
    requires
        !d.closed,
        d.buffer.len() == 0,
        max > 0,
        started <= now,
    ensures
        ({
            let set = DuplexView { read_timeout: timeout, ..d };
            let deadline = set.deadline(started);
            let step = set.read_step(max, deadline, now, false);
            &&& match timeout {
                Some(time) => {
                    &&& step == if now - started >= time {
                        ReadStepView::TimedOut
                    } else {
                        ReadStepView::Wait(Some((started + time - now) as u128))
                    }
                    &&& set.read_step(max, deadline, now, true) == ReadStepView::TimedOut
                },
                None => step == ReadStepView::Wait(None) && set.read_step(max, deadline, now, true)
                    == ReadStepView::Wait(None),
            }
            &&& set.after_read(max) == set
        }),
{
    let set = DuplexView { read_timeout: timeout, ..d };
    assert(set.after_read(max) =~= set);
}

/// What arrives joins the end of what is there to read, whole, and changes nothing else;
/// so two arrivals are read one after the other.
pub proof fn law_arrivals_are_read_in_order<W>(d: DuplexView<W>, first: Seq<u8>, second: Seq<u8>)
    requires
        !d.closed,
    ensures
        d.push(first).buffer == d.buffer + first,
        d.push(first).push(second).buffer == d.buffer + first + second,
        d.push(first).closed == d.closed,
        d.push(first).write_fn == d.write_fn,
        d.push(first).read_timeout == d.read_timeout,
        d.push(first).replay == d.replay,
{
}

/// A read takes from the front as many bytes as were asked for, or as there are, and
/// leaves the rest. It hands out bytes whenever there are any, and none only where none
/// were asked for.
pub proof fn law_read_takes_what_is_there<W>(
    d: DuplexView<W>,
    max: nat,
    deadline: Option<ReadDeadline>,
    now: u128,
    timed_out: bool,
)
    ensures
        d.taken(max).len() == if d.buffer.len() < max {
            d.buffer.len()
        } else {
            max
        },
        d.taken(max) + d.after_read(max).buffer == d.buffer,
        d.after_read(max).closed == d.closed,
        d.after_read(max).write_fn == d.write_fn,
        d.after_read(max).read_timeout == d.read_timeout,
        d.after_read(max).replay == d.replay,
        max > 0 && d.buffer.len() > 0 ==> d.read_step(max, deadline, now, timed_out)
            == ReadStepView::Data(d.taken(max)) && d.taken(max).len() > 0,
        max == 0 ==> (d.read_step(max, deadline, now, timed_out) matches ReadStepView::Data(bytes)
            && bytes.len() == 0),
{
    assert(d.taken(max) + d.after_read(max).buffer =~= d.buffer);
}

/// When the peer has gone, what had arrived can still be read, and the end is told only
/// behind it.
pub proof fn law_end_is_told_behind_the_bytes<W>(
    d: DuplexView<W>,
    max: nat,
    deadline: Option<ReadDeadline>,
    now: u128,
    timed_out: bool,
)
    requires
        max > 0,
    ensures
        d.close().buffer == d.buffer,
        d.close().closed,
        d.close().replay == d.replay,
        d.close().write_fn == d.write_fn,
        d.read_step(max, deadline, now, timed_out) is Eof <==> d.closed && d.buffer.len() == 0,
        d.close().read_step(max, deadline, now, timed_out) is Eof <==> d.buffer.len() == 0,
        d.buffer.len() > 0 ==> d.close().read_step(max, deadline, now, timed_out)
            == ReadStepView::Data(d.taken(max)),
{
}

/// A clock that runs backwards does not cut a read short: until its start is reached again
/// the read still has all of its time.
pub proof fn law_clock_running_backwards_costs_no_time<W>(
    d: DuplexView<W>,
    timeout: u128,
    max: nat,
    started: u128,
    now: u128,
)
    requires
        !d.closed,
        d.buffer.len() == 0,
        max > 0,
        now <= started,
        timeout > 0,
    ensures
        d.read_step(max, Some(ReadDeadline { started, timeout }), now, false)
            == ReadStepView::Wait(Some(timeout)),
{
}

/// What an attempt to read comes to is modelled with all of its bytes.
pub proof fn law_read_steps_are_modelled_whole(step: ReadStep)
    ensures
        step matches ReadStep::Data(bytes) ==> step@ == ReadStepView::Data(bytes@),
        step matches ReadStep::Wait(time) ==> step@ == ReadStepView::Wait(time),
        step is Eof <==> step@ is Eof,
        step is TimedOut <==> step@ is TimedOut,
{
}

} // verus!
