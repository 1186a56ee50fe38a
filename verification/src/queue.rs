//! Pending-intent queue: the process-wide buffer of file-open intents
//! that arrived before a UI surface existed. Intents are kept in arrival
//! order; `enqueue` keeps only supported paths; `drain_all` removes and
//! returns everything at once. The host wraps one queue in a lock, so a
//! whole call is one critical section.
use vstd::prelude::*;
use vstd::multiset::Multiset;
use crate::filter::is_supported_file;
use crate::filter::spec_is_supported;

verus! {

/// The views of a sequence of owned strings.
pub open spec fn seq_views(ss: Seq<String>) -> Seq<Seq<char>> {
    ss.map_values(|s: String| s@)
}

/// The supported paths of `ps`, in order.
pub open spec fn keep_supported(ps: Seq<Seq<char>>) -> Seq<Seq<char>>
    decreases ps.len(),
{
    if ps.len() == 0 {
        Seq::<Seq<char>>::empty()
    } else if spec_is_supported(ps.last()) {
        keep_supported(ps.drop_last()).push(ps.last())
    } else {
        keep_supported(ps.drop_last())
    }
}

/// Keeps the supported paths of `paths`, in order.
pub fn filter_supported(paths: &Vec<String>) -> (r: Vec<String>)
    ensures
        seq_views(r@) == keep_supported(seq_views(paths@)),
{
    let mut r: Vec<String> = Vec::new();
    let mut i: usize = 0;
    while i < paths.len()
        invariant
            i <= paths@.len(),
            seq_views(r@) == keep_supported(seq_views(paths@.take(i as int))),
        decreases paths@.len() - i,
    {
        proof {
            assert(seq_views(paths@.take(i + 1)).drop_last() =~= seq_views(
                paths@.take(i as int),
            ));
            assert(seq_views(paths@.take(i + 1)).last() == paths@[i as int]@);
        }
        if is_supported_file(paths[i].as_str()) {
            let p = paths[i].clone();
            r.push(p);
            proof {
                assert(seq_views(r@) =~= keep_supported(seq_views(paths@.take(i + 1))));
            }
        } else {
            proof {
                assert(seq_views(r@) =~= keep_supported(seq_views(paths@.take(i + 1))));
            }
        }
        i += 1;
    }
    proof {
        assert(paths@.take(paths@.len() as int) =~= paths@);
    }
    r
}

/// The pending-intent queue. The view is the sequence of queued paths,
/// oldest first.
pub struct PendingQueue {
    items: Vec<String>,
}

impl View for PendingQueue {
    type V = Seq<Seq<char>>;

    closed spec fn view(&self) -> Seq<Seq<char>> {
        seq_views(self.items@)
    }
}

impl PendingQueue {
    /// A queue with nothing pending.
    pub fn new() -> (q: PendingQueue)
        ensures
            q@ == Seq::<Seq<char>>::empty(),
    {
        let q = PendingQueue { items: Vec::new() };
        proof {
            assert(q@ =~= Seq::<Seq<char>>::empty());
        }
        q
    }

    /// Appends the supported paths of `paths` to the tail, in arrival
    /// order; unsupported paths are dropped. A no-op when nothing in
    /// `paths` is supported.
    pub fn enqueue(&mut self, paths: Vec<String>)
        ensures
            final(self)@ == old(self)@ + keep_supported(seq_views(paths@)),
    {
        let mut kept = filter_supported(&paths);
        self.items.append(&mut kept);
        proof {
            assert(self@ =~= old(self)@ + keep_supported(seq_views(paths@)));
        }
    }

    /// Removes and returns the entire contents, oldest first, leaving
    /// the queue empty. Calling it again before new arrivals returns an
    /// empty sequence; that is expected, not an error.
    pub fn drain_all(&mut self) -> (r: Vec<String>)
        ensures
            seq_views(r@) == old(self)@,
            final(self)@ == Seq::<Seq<char>>::empty(),
    {
        let mut taken: Vec<String> = Vec::new();
        core::mem::swap(&mut self.items, &mut taken);
        proof {
            assert(self@ =~= Seq::<Seq<char>>::empty());
        }
        taken
    }

    /// How many intents are pending.
    pub fn len(&self) -> (n: usize)
        ensures
            n == self@.len(),
    {
        self.items.len()
    }
}

/// One step of the queue's history: an `enqueue` with some batch of
/// paths, or a `drain_all`.
pub enum QueueOp {
    Enqueue(Seq<Seq<char>>),
    Drain,
}

/// The queue contents after starting from `init` and taking `ops` in
/// order, by the contracts of `enqueue` and `drain_all`.
pub open spec fn queue_after(init: Seq<Seq<char>>, ops: Seq<QueueOp>) -> Seq<Seq<char>>
    decreases ops.len(),
{
    if ops.len() == 0 {
        init
    } else {
        match ops.last() {
            QueueOp::Enqueue(ps) => queue_after(init, ops.drop_last()) + keep_supported(ps),
            QueueOp::Drain => Seq::<Seq<char>>::empty(),
        }
    }
}

/// Everything the drains of `ops` hand out, as a multiset.
pub open spec fn drained_after(init: Seq<Seq<char>>, ops: Seq<QueueOp>) -> Multiset<Seq<char>>
    decreases ops.len(),
{
    if ops.len() == 0 {
        Multiset::<Seq<char>>::empty()
    } else {
        match ops.last() {
            QueueOp::Enqueue(_) => drained_after(init, ops.drop_last()),
            QueueOp::Drain => drained_after(init, ops.drop_last()).add(
                queue_after(init, ops.drop_last()).to_multiset(),
            ),
        }
    }
}

/// Everything the enqueues of `ops` accept (after filtering), as a
/// multiset.
pub open spec fn enqueued_after(ops: Seq<QueueOp>) -> Multiset<Seq<char>>
    decreases ops.len(),
{
    if ops.len() == 0 {
        Multiset::<Seq<char>>::empty()
    } else {
        match ops.last() {
            QueueOp::Enqueue(ps) => enqueued_after(ops.drop_last()).add(
                keep_supported(ps).to_multiset(),
            ),
            QueueOp::Drain => enqueued_after(ops.drop_last()),
        }
    }
}

/// Law: over any interleaving of enqueues and drains, the paths the
/// queue accepted are exactly the paths its drains handed out plus the
/// paths still queued — no intent is lost and none is duplicated.
pub proof fn lemma_no_intent_lost_or_duplicated(init: Seq<Seq<char>>, ops: Seq<QueueOp>)
    ensures
        init.to_multiset().add(enqueued_after(ops)) == drained_after(init, ops).add(
            queue_after(init, ops).to_multiset(),
        ),
    decreases ops.len(),
{
    broadcast use vstd::multiset::group_multiset_axioms;
    broadcast use vstd::seq_lib::group_to_multiset_ensures;

    if ops.len() == 0 {
        assert(init.to_multiset().add(Multiset::<Seq<char>>::empty()) =~= Multiset::<
            Seq<char>,
        >::empty().add(init.to_multiset()));
    } else {
        let prev = ops.drop_last();
        lemma_no_intent_lost_or_duplicated(init, prev);
        match ops.last() {
            QueueOp::Enqueue(ps) => {
                let qp = queue_after(init, prev);
                let ks = keep_supported(ps);
                vstd::seq_lib::lemma_multiset_commutative(qp, ks);
                assert(queue_after(init, ops) == qp + ks);
                assert((qp + ks).to_multiset() == qp.to_multiset().add(ks.to_multiset()));
                assert(enqueued_after(ops) == enqueued_after(prev).add(ks.to_multiset()));
                assert(drained_after(init, ops) == drained_after(init, prev));
                assert forall|a: Seq<char>|
                    init.to_multiset().add(enqueued_after(ops)).count(a) == drained_after(
                        init,
                        ops,
                    ).add(queue_after(init, ops).to_multiset()).count(a) by {
                    assert(init.to_multiset().add(enqueued_after(prev)).count(a)
                        == drained_after(init, prev).add(qp.to_multiset()).count(a));
                }
                assert(init.to_multiset().add(enqueued_after(ops)) =~= drained_after(
                    init,
                    ops,
                ).add(queue_after(init, ops).to_multiset()));
            },
            QueueOp::Drain => {
                assert(Seq::<Seq<char>>::empty().to_multiset() =~= Multiset::<
                    Seq<char>,
                >::empty());
                assert(init.to_multiset().add(enqueued_after(ops)) =~= drained_after(
                    init,
                    ops,
                ).add(queue_after(init, ops).to_multiset()));
            },
        }
    }
}

/// Law: a drain directly after a drain, with nothing enqueued between,
/// returns the empty sequence — what the second drain hands out is the
/// queue contents an earlier drain left behind.
pub proof fn lemma_second_drain_returns_nothing(init: Seq<Seq<char>>, ops: Seq<QueueOp>)
    ensures
        queue_after(init, ops.push(QueueOp::Drain)) == Seq::<Seq<char>>::empty(),
{
    assert(ops.push(QueueOp::Drain).last() == QueueOp::Drain);
}

} // verus!
