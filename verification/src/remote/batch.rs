//! Coalescing the viewer's input: bytes that follow each other closely go out in one
//! message.

use vstd::prelude::*;

verus! {

/// How long a batch waits for more bytes, in nanoseconds.
pub const INPUT_BATCH_WINDOW: u128 = 10_000_000;

/// A batch of this size or more goes out without further waiting.
pub const INPUT_BATCH_MAX_BYTES: usize = 4096;

/// What to do with a batch.
#[derive(Debug, Clone, Copy, PartialEq, Eq, Structural)]
pub enum BatchStep {
    /// Wait for the next chunk, at most so many nanoseconds.
    Wait(u128),
    /// Send the batch.
    Flush,
}

/// A batch that is being filled: its bytes, and the moment at which it goes out.
#[verifier::ext_equal]
pub struct BatchView {
    pub bytes: Seq<u8>,
    pub deadline: int,
}

/// What to do with a batch at the moment `now`.
pub open spec fn batch_step(batch: BatchView, now: u128) -> BatchStep {
    if batch.bytes.len() >= INPUT_BATCH_MAX_BYTES || now >= batch.deadline {
        BatchStep::Flush
    } else {
        BatchStep::Wait((batch.deadline - now) as u128)
    }
}

/// The batch after a chunk arrived at the moment `now`: it joins the batch that is being
/// filled, or begins one.
pub open spec fn with_chunk(batch: Option<BatchView>, chunk: Seq<u8>, now: int) -> BatchView {
    match batch {
        Some(batch) => BatchView { bytes: batch.bytes + chunk, ..batch },
        None => BatchView { bytes: chunk, deadline: now + INPUT_BATCH_WINDOW },
    }
}

/// The viewer's input on its way out.
pub struct Batcher {
    batch: Option<(Vec<u8>, u128)>,
}

impl Batcher {
    /// The batch that is being filled.
    pub closed spec fn view(&self) -> Option<BatchView> {
        match self.batch {
            Some((bytes, deadline)) => Some(
                BatchView { bytes: bytes@, deadline: deadline as int },
            ),
            None => None,
        }
    }

    /// No batch yet.
    pub fn new() -> (r: Self)
        ensures
            r@ is None,
    {
        Batcher { batch: None }
    }

    /// Takes in a chunk that arrived at the moment `now`.
    pub fn arrived(&mut self, chunk: Vec<u8>, now: u128)
        requires
            now + INPUT_BATCH_WINDOW <= u128::MAX,
        ensures
            final(self)@ == Some(with_chunk(old(self)@, chunk@, now as int)),
    {
        let mut chunk = chunk;
        match &mut self.batch {
            Some(batch) => {
                batch.0.append(&mut chunk);
            },
            None => {
                self.batch = Some((chunk, now + INPUT_BATCH_WINDOW));
            },
        }
    }

    /// What to do with the batch at the moment `now`. Nothing while there is none: the
    /// first chunk is awaited without a limit.
    pub fn step(&self, now: u128) -> (r: Option<BatchStep>)
        ensures
            r == match self@ {
                Some(batch) => Some(batch_step(batch, now)),
                None => None,
            },
    {
        match &self.batch {
            Some(batch) => {
                if batch.0.len() >= INPUT_BATCH_MAX_BYTES || now >= batch.1 {
                    Some(BatchStep::Flush)
                } else {
                    Some(BatchStep::Wait(batch.1 - now))
                }
            },
            None => None,
        }
    }

    /// Takes the batch out to be sent.
    pub fn flush(&mut self) -> (r: Option<Vec<u8>>)
        ensures
            final(self)@ is None,
            match r {
                Some(bytes) => old(self)@ matches Some(batch) && batch.bytes == bytes@,
                None => old(self)@ is None,
            },
    {
        let batch = self.batch.take();
        match batch {
            Some((bytes, _)) => Some(bytes),
            None => None,
        }
    }
}

/// What happens to the bytes that are written.
pub enum BatchEvent {
    /// A chunk arrives at a moment.
    Chunk(Seq<u8>, int),
    /// The batch goes out, where there is one.
    Flush,
}

/// The batches that went out, and the one being filled, after the events in `events`.
pub open spec fn batches(events: Seq<BatchEvent>) -> (Seq<Seq<u8>>, Option<BatchView>)
    decreases events.len(),
{
    if events.len() == 0 {
        (Seq::empty(), None)
    } else {
        let (sent, open) = batches(events.drop_last());
        match events.last() {
            BatchEvent::Chunk(chunk, now) => (sent, Some(with_chunk(open, chunk, now))),
            BatchEvent::Flush => match open {
                Some(batch) => (sent.push(batch.bytes), None),
                None => (sent, None),
            },
        }
    }
}

/// The chunks among `events`, joined in order.
pub open spec fn written(events: Seq<BatchEvent>) -> Seq<u8>
    decreases events.len(),
{
    if events.len() == 0 {
        Seq::empty()
    } else {
        match events.last() {
            BatchEvent::Chunk(chunk, _) => written(events.drop_last()) + chunk,
            BatchEvent::Flush => written(events.drop_last()),
        }
    }
}

/// Batching keeps every byte and their order: the batches that went out, with the one
/// being filled, are what was written.
pub proof fn law_batches_keep_every_byte_in_order(events: Seq<BatchEvent>)
    ensures
        batches(events).0.flatten() + match batches(events).1 {
            Some(batch) => batch.bytes,
            None => Seq::empty(),
        } == written(events),
    decreases events.len(),
{
    if events.len() == 0 {
        assert(batches(events).0.flatten() =~= Seq::<u8>::empty());
        assert(Seq::<u8>::empty() + Seq::<u8>::empty() =~= Seq::<u8>::empty());
    } else {
        let front = events.drop_last();
        law_batches_keep_every_byte_in_order(front);
        let (sent, open) = batches(front);
        match events.last() {
            BatchEvent::Chunk(chunk, _) => {
                match open {
                    Some(batch) => {
                        assert(sent.flatten() + (batch.bytes + chunk) =~= sent.flatten()
                            + batch.bytes + chunk);
                    },
                    None => {
                        assert(sent.flatten() + Seq::<u8>::empty() =~= sent.flatten());
                    },
                }
            },
            BatchEvent::Flush => {
                if let Some(batch) = open {
                    sent.lemma_flatten_push(batch.bytes);
                    assert(sent.push(batch.bytes).flatten() + Seq::<u8>::empty()
                        =~= sent.flatten() + batch.bytes);
                }
            },
        }
    }
}

/// A batch goes out in time: from the moment its window ends it is sent, whatever has
/// arrived, and before that only once it is full.
pub proof fn law_batch_waits_no_longer_than_its_window(chunk: Seq<u8>, first: int, now: u128)
    requires
        first <= now,
    ensures
        ({
            let batch = with_chunk(None, chunk, first);
            &&& now >= first + INPUT_BATCH_WINDOW ==> batch_step(batch, now) is Flush
            &&& batch_step(batch, now) matches BatchStep::Wait(time) ==> 0 < time
                <= INPUT_BATCH_WINDOW && now + time == first + INPUT_BATCH_WINDOW
        }),
{
}

/// A batch goes out if and only if it is full, with four kilobytes or more, or its window
/// is over; until then it waits for just the rest of its window.
pub proof fn law_batch_goes_out_full_or_in_time(batch: BatchView, now: u128)
    ensures
        batch_step(batch, now) is Flush <==> batch.bytes.len() >= 4096 || now >= batch.deadline,
        batch.deadline <= u128::MAX ==> (batch_step(batch, now) matches BatchStep::Wait(time) ==> now
            + time == batch.deadline),
{
}

/// A chunk joins the batch behind what is there and does not put its window off; the first
/// chunk opens a window of ten milliseconds.
pub proof fn law_chunks_do_not_put_the_window_off(batch: BatchView, chunk: Seq<u8>, now: int)
    ensures
        with_chunk(Some(batch), chunk, now).bytes == batch.bytes + chunk,
        with_chunk(Some(batch), chunk, now).deadline == batch.deadline,
        with_chunk(None, chunk, now).bytes == chunk,
        with_chunk(None, chunk, now).deadline == now + 10_000_000,
{
}

} // verus!
