//! The ordered queue of pending conversion jobs.
use vstd::prelude::*;

use crate::tts::VoiceProfile;

verus! {

/// How subtitles are cut: not at all, one per sentence, or one per group of
/// the given number of words.
#[derive(Debug, Clone, Copy, PartialEq, Eq, Structural)]
pub enum SubtitleGranularity {
    Disabled,
    Sentence,
    Words(u8),
}

/// A fully resolved conversion job. `speed_percent` is the speaking-speed
/// multiplier in hundredths (100 is normal speed).
#[derive(Debug, Clone)]
pub struct QueueItem {
    pub source_path: String,
    pub output_dir: String,
    pub voice: VoiceProfile,
    pub speed_percent: u32,
    pub subtitle_granularity: SubtitleGranularity,
    pub replace_single_newlines: bool,
}

/// First-in, first-out queue of conversion jobs.
pub struct ConversionQueue {
    items: Vec<QueueItem>,
}

/// The queue after `item` is appended.
pub open spec fn enqueued(q: Seq<QueueItem>, item: QueueItem) -> Seq<QueueItem> {
    q.push(item)
}

/// What a dequeue hands out from `q`: its head, if any.
pub open spec fn dequeued_item(q: Seq<QueueItem>) -> Option<QueueItem> {
    if q.len() == 0 {
        None
    } else {
        Some(q[0])
    }
}

/// The queue left after a dequeue from `q`.
pub open spec fn dequeued_rest(q: Seq<QueueItem>) -> Seq<QueueItem> {
    if q.len() == 0 {
        q
    } else {
        q.drop_first()
    }
}

impl View for ConversionQueue {
    type V = Seq<QueueItem>;

    closed spec fn view(&self) -> Seq<QueueItem> {
        self.items@
    }
}

impl ConversionQueue {
    pub fn new() -> (r: ConversionQueue)
        ensures
            r@ == Seq::<QueueItem>::empty(),
    {
        ConversionQueue { items: Vec::new() }
    }

    /// Appends `item` at the tail.
    pub fn enqueue(&mut self, item: QueueItem)
        ensures
            final(self)@ == enqueued(old(self)@, item),
    {
        self.items.push(item);
    }

    /// Removes and returns the head, or `None` when the queue is empty.
    pub fn dequeue(&mut self) -> (r: Option<QueueItem>)
        ensures
            r == dequeued_item(old(self)@),
            final(self)@ == dequeued_rest(old(self)@),
    {
        if self.items.len() == 0 {
            None
        } else {
            let item = self.items.remove(0);
            proof {
                assert(old(self)@.remove(0) =~= old(self)@.drop_first());
            }
            Some(item)
        }
    }

    pub fn len(&self) -> (r: usize)
        ensures
            r == self@.len(),
    {
        self.items.len()
    }

    pub fn is_empty(&self) -> (r: bool)
        ensures
            r <==> self@.len() == 0,
    {
        self.items.len() == 0
    }

    /// The queued jobs, head first, without removing them.
    pub fn iter(&self) -> (r: &[QueueItem])
        ensures
            r@ == self@,
    {
        self.items.as_slice()
    }
}

/// The queue reached by enqueuing `items` one by one onto `q`.
pub open spec fn enqueue_all(q: Seq<QueueItem>, items: Seq<QueueItem>) -> Seq<QueueItem>
    decreases items.len(),
{
    if items.len() == 0 {
        q
    } else {
        enqueued(enqueue_all(q, items.drop_last()), items.last())
    }
}

/// The queue left after `k` dequeues from `q`.
pub open spec fn dequeue_times(q: Seq<QueueItem>, k: nat) -> Seq<QueueItem>
    decreases k,
{
    if k == 0 {
        q
    } else {
        dequeued_rest(dequeue_times(q, (k - 1) as nat))
    }
}

proof fn lemma_enqueue_all(items: Seq<QueueItem>)
    ensures
        enqueue_all(Seq::empty(), items) == items,
    decreases items.len(),
{
    if items.len() > 0 {
        lemma_enqueue_all(items.drop_last());
        assert(items.drop_last().push(items.last()) == items);
    }
}

proof fn lemma_dequeue_times(q: Seq<QueueItem>, k: nat)
    requires
        k <= q.len(),
    ensures
        dequeue_times(q, k) == q.subrange(k as int, q.len() as int),
    decreases k,
{
    if k > 0 {
        lemma_dequeue_times(q, (k - 1) as nat);
        assert(q.subrange(k - 1, q.len() as int).drop_first() == q.subrange(
            k as int,
            q.len() as int,
        ));
    } else {
        assert(q.subrange(0, q.len() as int) == q);
    }
}

/// Order is kept: enqueuing `items` onto an empty queue and then dequeuing
/// hands them out in the order they were enqueued, the `k`-th dequeue giving
/// `items[k]`; once all are handed out the queue is empty and a further
/// dequeue gives nothing.
pub proof fn lemma_fifo_order(items: Seq<QueueItem>)
    ensures
        forall|k: nat|
            k < items.len() ==> dequeued_item(
                #[trigger] dequeue_times(enqueue_all(Seq::empty(), items), k),
            ) == Some(items[k as int]),
        dequeue_times(enqueue_all(Seq::empty(), items), items.len()).len() == 0,
        dequeued_item(dequeue_times(enqueue_all(Seq::empty(), items), items.len())) is None,
{
    lemma_enqueue_all(items);
    assert forall|k: nat| k < items.len() implies dequeued_item(
        #[trigger] dequeue_times(enqueue_all(Seq::empty(), items), k),
    ) == Some(items[k as int]) by {
        lemma_dequeue_times(items, k);
    }
    lemma_dequeue_times(items, items.len());
}

/// One use of a queue: enqueue an item, or dequeue.
pub enum QueueOp {
    Enqueue(QueueItem),
    Dequeue,
}

/// The queue after `op`.
pub open spec fn apply_op(q: Seq<QueueItem>, op: QueueOp) -> Seq<QueueItem> {
    match op {
        QueueOp::Enqueue(x) => enqueued(q, x),
        QueueOp::Dequeue => dequeued_rest(q),
    }
}

/// The queue reached from `q` through `ops`.
pub open spec fn run_ops(q: Seq<QueueItem>, ops: Seq<QueueOp>) -> Seq<QueueItem>
    decreases ops.len(),
{
    if ops.len() == 0 {
        q
    } else {
        apply_op(run_ops(q, ops.drop_last()), ops.last())
    }
}

/// The items enqueued by `ops`, in order.
pub open spec fn enqueued_by(ops: Seq<QueueOp>) -> Seq<QueueItem>
    decreases ops.len(),
{
    if ops.len() == 0 {
        Seq::empty()
    } else {
        match ops.last() {
            QueueOp::Enqueue(x) => enqueued_by(ops.drop_last()).push(x),
            QueueOp::Dequeue => enqueued_by(ops.drop_last()),
        }
    }
}

/// The items handed out by the dequeues of `ops` (from an empty queue), in order.
pub open spec fn handed_out(ops: Seq<QueueOp>) -> Seq<QueueItem>
    decreases ops.len(),
{
    if ops.len() == 0 {
        Seq::empty()
    } else {
        match (ops.last(), dequeued_item(run_ops(Seq::empty(), ops.drop_last()))) {
            (QueueOp::Dequeue, Some(x)) => handed_out(ops.drop_last()).push(x),
            _ => handed_out(ops.drop_last()),
        }
    }
}

/// Strict FIFO for any interleaving of enqueues and dequeues on an empty
/// queue: the items handed out so far are exactly the first ones enqueued, in
/// order, and the queue holds the rest; so a dequeue gives nothing only when
/// every enqueued item has been handed out.
pub proof fn lemma_fifo_interleaved(ops: Seq<QueueOp>)
    ensures
        handed_out(ops).len() <= enqueued_by(ops).len(),
        handed_out(ops) == enqueued_by(ops).take(handed_out(ops).len() as int),
        run_ops(Seq::empty(), ops) == enqueued_by(ops).skip(handed_out(ops).len() as int),
    decreases ops.len(),
{
    if ops.len() > 0 {
        let pre = ops.drop_last();
        lemma_fifo_interleaved(pre);
        let e = enqueued_by(pre);
        let h = handed_out(pre);
        let q = run_ops(Seq::<QueueItem>::empty(), pre);
        match ops.last() {
            QueueOp::Enqueue(x) => {
                assert(e.push(x).take(h.len() as int) =~= e.take(h.len() as int));
                assert(q.push(x) =~= e.push(x).skip(h.len() as int));
            },
            QueueOp::Dequeue => {
                if q.len() > 0 {
                    assert(q[0] == e[h.len() as int]);
                    assert(h.push(q[0]) =~= e.take(h.len() as int + 1));
                    assert(q.drop_first() =~= e.skip(h.len() as int + 1));
                }
            },
        }
    }
}

} // verus!
