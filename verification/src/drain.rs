//! Reading a stream to its end.

use vstd::prelude::*;

verus! {

/// How many bytes of a message's payload are read at once.
pub const PAYLOAD_CHUNK: usize = 8192;

/// How many candidates are read at once.
pub const CANDIDATE_CHUNK: usize = 4;

/// A stream that is read to its end, batch by batch.
pub struct Drain<T> {
    items: Vec<T>,
    chunk: usize,
    over: bool,
}

/// What has been read of a stream.
pub struct DrainView<T> {
    /// What the batches held, in order.
    pub items: Seq<T>,
    /// How much is read at once.
    pub chunk: usize,
    /// Whether the stream has ended.
    pub over: bool,
}

impl<T> View for Drain<T> {
    type V = DrainView<T>;

    closed spec fn view(&self) -> DrainView<T> {
        DrainView { items: self.items@, chunk: self.chunk, over: self.over }
    }
}

/// What has been read after one more batch, and whether the stream ended with it.
pub open spec fn with_batch<T>(drain: DrainView<T>, batch: Seq<T>, ended: bool) -> DrainView<T> {
    if drain.over {
        drain
    } else {
        DrainView { items: drain.items + batch, over: ended, ..drain }
    }
}

impl<T> Drain<T> {
    /// Begin to read a stream, so much at once.
    pub fn new(chunk: usize) -> (r: Drain<T>)
        ensures
            r@ == (DrainView { items: Seq::<T>::empty(), chunk, over: false }),
    {
        Drain { items: Vec::new(), chunk, over: false }
    }

    /// How much to read next; nothing once the stream has ended.
    pub fn want(&self) -> (r: Option<usize>)
        ensures
            r == if self@.over {
                None
            } else {
                Some(self@.chunk)
            },
    {
        if self.over {
            None
        } else {
            Some(self.chunk)
        }
    }

    /// Take the batch that was read, and whether the stream ended with it.
    pub fn push(&mut self, batch: Vec<T>, ended: bool)
        ensures
            final(self)@ == with_batch(old(self)@, batch@, ended),
    {
        if !self.over {
            let mut batch = batch;
            self.items.append(&mut batch);
            self.over = ended;
        }
    }

    /// Everything that was read.
    pub fn finish(self) -> (r: Vec<T>)
        ensures
            r@ == self@.items,
    {
        self.items
    }
}

/// What has been read after some batches.
pub open spec fn with_batches<T>(
    drain: DrainView<T>,
    batches: Seq<(Seq<T>, bool)>,
) -> DrainView<T>
    decreases batches.len(),
{
    if batches.len() == 0 {
        drain
    } else {
        with_batch(with_batches(drain, batches.drop_last()), batches.last().0, batches.last().1)
    }
}

/// What some batches hold, in order.
pub open spec fn in_turn<T>(batches: Seq<(Seq<T>, bool)>) -> Seq<T>
    decreases batches.len(),
{
    if batches.len() == 0 {
        seq![]
    } else {
        in_turn(batches.drop_last()) + batches.last().0
    }
}

/// Nothing is lost, added or reordered: until the stream ends, what has been read is what
/// the batches held, in order.
pub proof fn drain_reads_everything<T>(drain: DrainView<T>, batches: Seq<(Seq<T>, bool)>)
    requires
        !drain.over,
        drain.items.len() == 0,
        forall|i: int| 0 <= i < batches.len() - 1 ==> !(#[trigger] batches[i]).1,
    ensures
        with_batches(drain, batches).items == in_turn(batches),
        with_batches(drain, batches).over <==> batches.len() > 0 && batches.last().1,
    decreases batches.len(),
{
    if batches.len() > 0 {
        let earlier = batches.drop_last();
        assert forall|i: int| 0 <= i < earlier.len() - 1 implies !(#[trigger] earlier[i]).1 by {
            assert(earlier[i] == batches[i]);
        }
        drain_reads_everything(drain, earlier);
        if earlier.len() > 0 {
            assert(earlier.last() == batches[batches.len() - 2]);
        }
    } else {
        assert(drain.items =~= Seq::<T>::empty());
    }
}

/// Once the stream has ended, nothing more is taken from it.
pub proof fn ended_drain_stays_ended<T>(drain: DrainView<T>, batches: Seq<(Seq<T>, bool)>)
    requires
        drain.over,
    ensures
        with_batches(drain, batches) == drain,
    decreases batches.len(),
{
    if batches.len() > 0 {
        ended_drain_stays_ended(drain, batches.drop_last());
    }
}

} // verus!
