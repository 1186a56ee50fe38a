//! Event bridge: decides, for every discovered file-open intent, whether
//! to forward it live to the attached UI surface or to queue it for the
//! UI's one startup drain. Intents come from the command line (seeded
//! once, before any surface can exist) and from OS open-file events
//! (recurring, at arbitrary times). The host performs the actual
//! delivery; the bridge owns the decision and the pending queue.
use vstd::prelude::*;
use crate::filter::spec_is_supported;
use crate::queue::PendingQueue;
use crate::queue::filter_supported;
use crate::queue::keep_supported;
use crate::queue::seq_views;

verus! {

/// An OS-delivered URL, reduced to what the bridge reads of it: its
/// scheme (as the URL library reports it, already lower-cased by
/// normalization), and the local path it resolves to (`None` when
/// resolution failed). The host converts the platform's URL values
/// into this.
pub struct OpenUrl {
    pub scheme: String,
    pub local_path: Option<String>,
}

impl OpenUrl {
    /// The path this URL contributes: only `file` scheme URLs that
    /// resolved are honored; everything else is silently dropped.
    pub open spec fn resolved_view(&self) -> Option<Seq<char>> {
        match self.local_path {
            Some(p) => if self.scheme@ == "file"@ {
                Some(p@)
            } else {
                None
            },
            None => None,
        }
    }
}

/// The local paths of the honored URLs of `us`, in delivery order.
pub open spec fn resolve_paths(us: Seq<OpenUrl>) -> Seq<Seq<char>>
    decreases us.len(),
{
    if us.len() == 0 {
        Seq::<Seq<char>>::empty()
    } else {
        match us.last().resolved_view() {
            Some(p) => resolve_paths(us.drop_last()).push(p),
            None => resolve_paths(us.drop_last()),
        }
    }
}

/// A flag-like argument: one that starts with `-`.
pub open spec fn is_flag(a: Seq<char>) -> bool {
    a.len() > 0 && a[0] == '-'
}

/// The non-flag arguments of `args`, in order.
pub open spec fn non_flags(args: Seq<Seq<char>>) -> Seq<Seq<char>>
    decreases args.len(),
{
    if args.len() == 0 {
        Seq::<Seq<char>>::empty()
    } else if is_flag(args.last()) {
        non_flags(args.drop_last())
    } else {
        non_flags(args.drop_last()).push(args.last())
    }
}

/// The startup intents carried by a full argument vector: every
/// non-flag argument past the executable path whose extension is
/// supported, in order.
pub open spec fn cli_intents(args: Seq<Seq<char>>) -> Seq<Seq<char>> {
    if args.len() == 0 {
        Seq::<Seq<char>>::empty()
    } else {
        keep_supported(non_flags(args.drop_first()))
    }
}

fn str_eq(a: &str, b: &str) -> (r: bool)
    ensures
        r == (a@ == b@),
{
    let n: usize = a.unicode_len();
    if n != b.unicode_len() {
        return false;
    }
    let mut i: usize = 0;
    while i < n
        invariant
            i <= n == a@.len() == b@.len(),
            forall|j: int| 0 <= j < i ==> a@[j] == b@[j],
        decreases n - i,
    {
        if a.get_char(i) != b.get_char(i) {
            return false;
        }
        i += 1;
    }
    proof {
        assert(a@ =~= b@);
    }
    true
}

/// Resolves a batch of OS-delivered URLs to local paths: `file` scheme
/// URLs that resolved are kept, in order; the rest are dropped. One
/// entry's failure never aborts the batch.
pub fn resolve_open_urls(urls: &Vec<OpenUrl>) -> (r: Vec<String>)
    ensures
        seq_views(r@) == resolve_paths(urls@),
{
    let mut r: Vec<String> = Vec::new();
    let mut i: usize = 0;
    while i < urls.len()
        invariant
            i <= urls@.len(),
            seq_views(r@) == resolve_paths(urls@.take(i as int)),
        decreases urls@.len() - i,
    {
        proof {
            assert(urls@.take(i + 1).drop_last() =~= urls@.take(i as int));
            assert(urls@.take(i + 1).last() == urls@[i as int]);
        }
        let honored = str_eq(urls[i].scheme.as_str(), "file");
        match &urls[i].local_path {
            Some(p) => {
                if honored {
                    let q = p.clone();
                    r.push(q);
                }
            },
            None => {},
        }
        proof {
            assert(seq_views(r@) =~= resolve_paths(urls@.take(i + 1)));
        }
        i += 1;
    }
    proof {
        assert(urls@.take(urls@.len() as int) =~= urls@);
    }
    r
}

/// The event bridge and its pending queue. The view is the queued
/// contents, oldest first.
pub struct EventBridge {
    queue: PendingQueue,
}

impl View for EventBridge {
    type V = Seq<Seq<char>>;

    closed spec fn view(&self) -> Seq<Seq<char>> {
        self.queue@
    }
}

impl EventBridge {
    /// A bridge with nothing pending.
    pub fn new() -> (b: EventBridge)
        ensures
            b@ == Seq::<Seq<char>>::empty(),
    {
        EventBridge { queue: PendingQueue::new() }
    }

    /// Seeds the queue from the raw argument vector: the executable
    /// path and flag-like arguments are dropped, unsupported paths are
    /// dropped, the rest are queued in order. Run once at process
    /// start, before any UI surface can exist, so it always queues and
    /// never forwards.
    pub fn seed_from_cli(&mut self, args: &Vec<String>)
        ensures
            final(self)@ == old(self)@ + cli_intents(seq_views(args@)),
    {
        let mut candidates: Vec<String> = Vec::new();
        let mut i: usize = 1;
        while i < args.len()
            invariant
                1 <= i <= args@.len() || (args@.len() == 0 && i == 1),
                args@.len() > 0 ==> seq_views(candidates@) == non_flags(
                    seq_views(args@).drop_first().take(i - 1),
                ),
                args@.len() == 0 ==> candidates@.len() == 0,
            decreases args@.len() - i,
        {
            proof {
                let rest = seq_views(args@).drop_first();
                assert(rest.take(i as int).drop_last() =~= rest.take(i - 1));
                assert(rest.take(i as int).last() == args@[i as int]@);
            }
            let a = &args[i];
            let flag = a.as_str().unicode_len() > 0 && a.as_str().get_char(0) == '-';
            if !flag {
                let p = a.clone();
                candidates.push(p);
            }
            proof {
                assert(seq_views(candidates@) =~= non_flags(
                    seq_views(args@).drop_first().take(i as int),
                ));
            }
            i += 1;
        }
        proof {
            if args@.len() > 0 {
                assert(seq_views(args@).drop_first().take(args@.len() - 1) =~= seq_views(
                    args@,
                ).drop_first());
            }
        }
        self.queue.enqueue(candidates);
        proof {
            if args@.len() == 0 {
                assert(seq_views(candidates@) =~= Seq::<Seq<char>>::empty());
                assert(self@ =~= old(self)@);
            }
        }
    }

    /// Handles one OS open-file notification: resolves the URLs,
    /// keeps the supported paths, and either forwards them live (a UI
    /// surface is attached) or queues them (none is). Returns the
    /// batch to forward, or `None` when nothing is to be delivered
    /// live.
    pub fn handle_open_event(&mut self, urls: &Vec<OpenUrl>, ui_attached: bool) -> (forwarded:
        Option<Vec<String>>)
        ensures
            ({
                let kept = keep_supported(resolve_paths(urls@));
                &&& final(self)@ == if ui_attached {
                    old(self)@
                } else {
                    old(self)@ + kept
                }
                &&& if ui_attached && kept.len() > 0 {
                    forwarded matches Some(f) && seq_views(f@) == kept
                } else {
                    forwarded is None
                }
            }),
    {
        let resolved = resolve_open_urls(urls);
        if ui_attached {
            let kept = filter_supported(&resolved);
            if kept.len() > 0 {
                Some(kept)
            } else {
                None
            }
        } else {
            self.queue.enqueue(resolved);
            None
        }
    }

    /// The UI's one startup pull: removes and returns everything queued
    /// before the surface existed, oldest first. A later call before
    /// new arrivals returns an empty sequence.
    pub fn drain_pending(&mut self) -> (r: Vec<String>)
        ensures
            seq_views(r@) == old(self)@,
            final(self)@ == Seq::<Seq<char>>::empty(),
    {
        self.queue.drain_all()
    }

    /// How many intents are pending.
    pub fn pending_len(&self) -> (n: usize)
        ensures
            n == self@.len(),
    {
        self.queue.len()
    }
}

} // verus!
