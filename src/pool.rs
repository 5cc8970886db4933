//! The scheduling core of the download pool: which worker fetches what,
//! who hears about it, and how the rate limit is split. The tasks, channels
//! and HTTP transfers that carry these decisions out live with the caller.

use vstd::prelude::*;
use vstd::set_lib::{lemma_int_range, lemma_len_subset, set_int_range};
use crate::text::str_eq;

verus! {

/// What identifies a download: a URL and an optional inclusive byte range.
#[derive(Clone, Debug, PartialEq, Eq, Hash)]
pub struct DownloadKey {
    url: String,
    range: Option<(u64, u64)>,
}

impl View for DownloadKey {
    type V = (Seq<char>, Option<(u64, u64)>);

    closed spec fn view(&self) -> (Seq<char>, Option<(u64, u64)>) {
        (self.url@, self.range)
    }
}

impl DownloadKey {
    /// Creates a key.
    pub fn new(url: String, range: Option<(u64, u64)>) -> (r: Self)
        ensures
            r@ == (url@, range),
    {
        DownloadKey { url, range }
    }

    /// Gets the URL.
    pub fn url(&self) -> (r: &str)
        ensures
            r@ == self@.0,
    {
        self.url.as_str()
    }

    /// Gets the byte range.
    pub fn range(&self) -> (r: Option<(u64, u64)>)
        ensures
            r == self@.1,
    {
        self.range
    }

    /// Whether two keys name the same URL and range.
    pub fn same(&self, other: &DownloadKey) -> (r: bool)
        ensures
            r == (self@ == other@),
    {
        str_eq(self.url.as_str(), other.url.as_str()) && self.range == other.range
    }

    /// A copy of the key.
    pub fn duplicate(&self) -> (r: DownloadKey)
        ensures
            r@ == self@,
    {
        DownloadKey { url: self.url.clone(), range: self.range }
    }
}

/// A command for a worker.
#[derive(Clone, Debug)]
pub enum Command {
    /// Download a blob.
    Download(DownloadKey),
    /// Stop the worker.
    Stop,
}

/// What became of a submitted download.
#[derive(Debug)]
pub enum Submitted {
    /// The key was already being followed: the subscriber joined it.
    Joined,
    /// A new worker with this id was started and sent the download.
    Started(u8),
    /// Every worker slot is taken: the download waits.
    Queued,
}

/// What a worker does once an update has been routed.
#[derive(Debug)]
pub enum Next {
    /// The update was progress: the worker keeps going.
    Working,
    /// The worker finished and takes this waiting download next.
    Reuse(DownloadKey),
    /// The worker finished with nothing waiting: stop it.
    Retire,
    /// The update came from a worker that is not active.
    Unknown,
}

/// How an update is routed: the subscribers to hand it to, in order, and
/// what the worker does next.
pub struct Routed {
    /// The subscribers whose key is the update's key.
    pub deliver: Vec<u64>,
    /// The worker's next step.
    pub next: Next,
}

/// A key and a subscriber, as plain values.
pub type EntryView = ((Seq<char>, Option<(u64, u64)>), u64);

/// The keys and subscribers of some entries.
pub open spec fn entries_view(v: Seq<(DownloadKey, u64)>) -> Seq<EntryView> {
    v.map_values(|e: (DownloadKey, u64)| (e.0@, e.1))
}

/// The subscribers of `entries` whose key is `key`, in order.
pub open spec fn subscribers_of(entries: Seq<EntryView>, key: (Seq<char>, Option<(u64, u64)>)) -> Seq<
    u64,
>
    decreases entries.len(),
{
    if entries.len() == 0 {
        Seq::empty()
    } else {
        let prev = subscribers_of(entries.drop_last(), key);
        if entries.last().0 == key {
            prev.push(entries.last().1)
        } else {
            prev
        }
    }
}

/// Whether some entry follows `key`.
pub open spec fn followed(entries: Seq<EntryView>, key: (Seq<char>, Option<(u64, u64)>)) -> bool {
    exists|i: int| 0 <= i < entries.len() && #[trigger] entries[i].0 == key
}

/// The smallest worker id not in `ids`.
pub open spec fn is_smallest_free(ids: Seq<u8>, id: u8) -> bool {
    !ids.contains(id) && forall|j: u8| j < id ==> ids.contains(j)
}

/// The rate each worker may use: none without a limit, the whole limit
/// with no worker, an equal share otherwise.
pub open spec fn worker_limit(rate: u64, current: nat) -> Option<u64> {
    if rate == 0 {
        None
    } else if current == 0 {
        Some(rate)
    } else {
        Some((rate as nat / current) as u64)
    }
}

/// Once a subscriber follows `key` (the download was handed to a worker or
/// joined), the key stays followed: every later submission of an equal key
/// joins it, and only the first submission fetched.
pub proof fn lemma_followed_after_subscribe(
    subs: Seq<EntryView>,
    key: (Seq<char>, Option<(u64, u64)>),
    subscriber: u64,
    more: Seq<EntryView>,
)
    ensures
        followed(subs.push((key, subscriber)) + more, key),
{
    let all = subs.push((key, subscriber)) + more;
    assert(all[subs.len() as int].0 == key);
}

/// Fewer than 256 ids leave one free.
proof fn lemma_free_id(ids: Seq<u8>)
    requires
        ids.len() < 256,
    ensures
        exists|id: u8| !ids.contains(id),
{
    if forall|id: u8| ids.contains(id) {
        let t = ids.map_values(|x: u8| x as int);
        assert(set_int_range(0, 256).subset_of(t.to_set())) by {
            assert forall|v: int| set_int_range(0, 256).contains(v) implies t.to_set().contains(
                v,
            ) by {
                assert(ids.contains(v as u8));
                let k = choose|k: int| 0 <= k < ids.len() && ids[k] == v as u8;
                assert(t[k] == v);
            }
        }
        lemma_int_range(0, 256);
        t.lemma_cardinality_of_set();
        lemma_len_subset(set_int_range(0, 256), t.to_set());
    }
}

/// The scheduling state of a download pool.
pub struct DownloadPool {
    max_concurrent: u8,
    rate_limit: u64,
    workers: Vec<u8>,
    pending: Vec<(DownloadKey, u64)>,
    subscribers: Vec<(DownloadKey, u64)>,
}

impl DownloadPool {
    /// At most 255 workers, each id once.
    pub closed spec fn wf(&self) -> bool {
        &&& self.workers@.len() <= 255
        &&& self.workers@.no_duplicates()
    }

    /// The cap on active workers.
    pub closed spec fn spec_max(&self) -> u8 {
        self.max_concurrent
    }

    /// The total rate limit in bytes per second; 0 means none.
    pub closed spec fn spec_rate(&self) -> u64 {
        self.rate_limit
    }

    /// The ids of the active workers, in the order they started.
    pub closed spec fn spec_workers(&self) -> Seq<u8> {
        self.workers@
    }

    /// The downloads waiting for a worker, in the order they came.
    pub closed spec fn spec_pending(&self) -> Seq<EntryView> {
        entries_view(self.pending@)
    }

    /// The subscribers of each key that was handed to a worker.
    pub closed spec fn spec_subscribers(&self) -> Seq<EntryView> {
        entries_view(self.subscribers@)
    }

    /// Creates an idle pool.
    pub fn new(max_concurrent: u8, rate_limit: Option<u64>) -> (r: Self)
        ensures
            r.wf(),
            r.spec_max() == max_concurrent,
            r.spec_rate() == (match rate_limit {
                Some(l) => l,
                None => 0,
            }),
            r.spec_workers() == Seq::<u8>::empty(),
            r.spec_pending() == Seq::<EntryView>::empty(),
            r.spec_subscribers() == Seq::<EntryView>::empty(),
    {
        let rate = match rate_limit {
            Some(l) => l,
            None => 0,
        };
        let r = DownloadPool {
            max_concurrent,
            rate_limit: rate,
            workers: Vec::new(),
            pending: Vec::new(),
            subscribers: Vec::new(),
        };
        assert(r.spec_pending() =~= Seq::<EntryView>::empty());
        assert(r.spec_subscribers() =~= Seq::<EntryView>::empty());
        r
    }

    /// Sets the cap on active workers; running workers are not stopped.
    pub fn set_max_concurrent(&mut self, max_concurrent: u8)
        requires
            old(self).wf(),
        ensures
            final(self).wf(),
            final(self).spec_max() == max_concurrent,
            old(self).spec_workers().len() <= max_concurrent ==> final(self).spec_workers().len()
                <= final(self).spec_max(),
            final(self).spec_rate() == old(self).spec_rate(),
            final(self).spec_workers() == old(self).spec_workers(),
            final(self).spec_pending() == old(self).spec_pending(),
            final(self).spec_subscribers() == old(self).spec_subscribers(),
    {
        self.max_concurrent = max_concurrent;
    }

    /// Gets the cap on active workers.
    pub fn max_concurrent(&self) -> (r: u8)
        ensures
            r == self.spec_max(),
    {
        self.max_concurrent
    }

    /// Gets the number of active workers.
    pub fn current_concurrent(&self) -> (r: u8)
        requires
            self.wf(),
        ensures
            r == self.spec_workers().len(),
    {
        self.workers.len() as u8
    }

    /// Gets the total rate limit, if there is one.
    pub fn rate_limit(&self) -> (r: Option<u64>)
        ensures
            r == (if self.spec_rate() == 0 {
                None
            } else {
                Some(self.spec_rate())
            }),
    {
        if self.rate_limit == 0 {
            None
        } else {
            Some(self.rate_limit)
        }
    }

    /// The rate each active worker may use now.
    pub fn per_worker_limit(&self) -> (r: Option<u64>)
        requires
            self.wf(),
        ensures
            r == worker_limit(self.spec_rate(), self.spec_workers().len()),
            self.spec_rate() > 0 && self.spec_workers().len() > 0 ==> r == Some(
                (self.spec_rate() as nat / self.spec_workers().len()) as u64,
            ),
    {
        let current = self.workers.len() as u64;
        if self.rate_limit == 0 {
            None
        } else if current == 0 {
            Some(self.rate_limit)
        } else {
            Some(self.rate_limit / current)
        }
    }

    /// Sets the total rate limit and returns the new per-worker share.
    pub fn set_rate_limit(&mut self, rate_limit: Option<u64>) -> (r: Option<u64>)
        requires
            old(self).wf(),
        ensures
            final(self).wf(),
            final(self).spec_rate() == (match rate_limit {
                Some(l) => l,
                None => 0,
            }),
            final(self).spec_max() == old(self).spec_max(),
            final(self).spec_workers() == old(self).spec_workers(),
            final(self).spec_pending() == old(self).spec_pending(),
            final(self).spec_subscribers() == old(self).spec_subscribers(),
            r == worker_limit(final(self).spec_rate(), final(self).spec_workers().len()),
    {
        self.rate_limit = match rate_limit {
            Some(l) => l,
            None => 0,
        };
        self.per_worker_limit()
    }

    /// Whether some subscriber follows `key`.
    fn is_followed(&self, key: &DownloadKey) -> (r: bool)
        ensures
            r == followed(self.spec_subscribers(), key@),
    {
        let mut i: usize = 0;
        while i < self.subscribers.len()
            invariant
                i <= self.subscribers@.len(),
                forall|j: int| 0 <= j < i ==> self.subscribers@[j].0@ != key@,
            decreases self.subscribers@.len() - i,
        {
            if self.subscribers[i].0.same(key) {
                assert(self.spec_subscribers()[i as int].0 == key@);
                return true;
            }
            i = i + 1;
        }
        assert(!followed(self.spec_subscribers(), key@)) by {
            if followed(self.spec_subscribers(), key@) {
                let j = choose|j: int|
                    0 <= j < self.spec_subscribers().len() && #[trigger] self.spec_subscribers()[j].0
                        == key@;
                assert(self.subscribers@[j].0@ != key@);
            }
        }
        false
    }

    /// The smallest worker id not in use.
    fn free_id(&self) -> (r: u8)
        requires
            self.workers@.len() < 256,
        ensures
            is_smallest_free(self.workers@, r),
    {
        let mut id: u16 = 0;
        while id < 256
            invariant
                self.workers@.len() < 256,
                id <= 256,
                forall|j: u8| j < id ==> self.workers@.contains(j),
            decreases 256 - id,
        {
            let mut k: usize = 0;
            let mut used = false;
            while k < self.workers.len()
                invariant
                    k <= self.workers@.len(),
                    id < 256,
                    used ==> self.workers@.contains(id as u8),
                    !used ==> forall|m: int| 0 <= m < k ==> self.workers@[m] != id as u8,
                decreases self.workers@.len() - k,
            {
                if self.workers[k] == id as u8 {
                    used = true;
                }
                k = k + 1;
            }
            if !used {
                return id as u8;
            }
            id = id + 1;
        }
        proof {
            lemma_free_id(self.workers@);
            let f = choose|f: u8| !self.workers@.contains(f);
            assert(f < id);
        }
        0
    }

    /// Submits a download for `subscriber`. A key that a subscriber already
    /// follows is joined, with no new fetch; otherwise a free worker slot
    /// starts a worker with the smallest free id; otherwise the download waits.
    pub fn download(&mut self, key: DownloadKey, subscriber: u64) -> (r: Submitted)
        requires
            old(self).wf(),
        ensures
            final(self).wf(),
            final(self).spec_max() == old(self).spec_max(),
            final(self).spec_rate() == old(self).spec_rate(),
            followed(old(self).spec_subscribers(), key@) ==> {
                &&& r is Joined
                &&& final(self).spec_subscribers() == old(self).spec_subscribers().push(
                    (key@, subscriber),
                )
                &&& final(self).spec_workers() == old(self).spec_workers()
                &&& final(self).spec_pending() == old(self).spec_pending()
            },
            !followed(old(self).spec_subscribers(), key@) && old(self).spec_workers().len()
                < old(self).spec_max() ==> {
                &&& r matches Submitted::Started(id) && is_smallest_free(
                    old(self).spec_workers(),
                    id,
                ) && final(self).spec_workers() == old(self).spec_workers().push(id)
                &&& final(self).spec_subscribers() == old(self).spec_subscribers().push(
                    (key@, subscriber),
                )
                &&& final(self).spec_pending() == old(self).spec_pending()
            },
            !followed(old(self).spec_subscribers(), key@) && old(self).spec_workers().len()
                >= old(self).spec_max() ==> {
                &&& r is Queued
                &&& final(self).spec_pending() == old(self).spec_pending().push((key@, subscriber))
                &&& final(self).spec_workers() == old(self).spec_workers()
                &&& final(self).spec_subscribers() == old(self).spec_subscribers()
            },
            old(self).spec_workers().len() <= old(self).spec_max() ==> final(self).spec_workers().len()
                <= final(self).spec_max(),
    {
        if self.is_followed(&key) {
            self.subscribers.push((key, subscriber));
            assert(entries_view(self.subscribers@) =~= entries_view(old(self).subscribers@).push(
                (key@, subscriber),
            ));
            return Submitted::Joined;
        }
        if self.workers.len() < self.max_concurrent as usize {
            let id = self.free_id();
            self.workers.push(id);
            self.subscribers.push((key, subscriber));
            assert(entries_view(self.subscribers@) =~= entries_view(old(self).subscribers@).push(
                (key@, subscriber),
            ));
            assert(self.workers@.no_duplicates()) by {
                assert(forall|m: int| 0 <= m < old(self).workers@.len() ==> old(self).workers@[m] != id);
            }
            Submitted::Started(id)
        } else {
            self.pending.push((key, subscriber));
            assert(entries_view(self.pending@) =~= entries_view(old(self).pending@).push(
                (key@, subscriber),
            ));
            Submitted::Queued
        }
    }

    /// The subscribers following `key`, in the order they subscribed.
    fn subscribers_for(&self, key: &DownloadKey) -> (r: Vec<u64>)
        ensures
            r@ == subscribers_of(self.spec_subscribers(), key@),
    {
        let ghost subs = self.spec_subscribers();
        let mut out: Vec<u64> = Vec::new();
        let mut i: usize = 0;
        while i < self.subscribers.len()
            invariant
                i <= self.subscribers@.len(),
                subs == entries_view(self.subscribers@),
                out@ == subscribers_of(subs.subrange(0, i as int), key@),
            decreases self.subscribers@.len() - i,
        {
            assert(subs.subrange(0, i + 1).drop_last() == subs.subrange(0, i as int));
            if self.subscribers[i].0.same(key) {
                out.push(self.subscribers[i].1);
            }
            i = i + 1;
        }
        assert(subs.subrange(0, i as int) == subs);
        out
    }

    /// Routes an update of `worker` about `key` to the key's subscribers.
    /// When the update says the download is done, the worker takes the most
    /// recently queued download, whose subscriber then follows it; with none
    /// waiting the worker is retired.
    pub fn on_update(&mut self, worker: u8, key: &DownloadKey, done: bool) -> (r: Routed)
        requires
            old(self).wf(),
        ensures
            final(self).wf(),
            r.deliver@ == subscribers_of(old(self).spec_subscribers(), key@),
            final(self).spec_max() == old(self).spec_max(),
            final(self).spec_rate() == old(self).spec_rate(),
            !done || !old(self).spec_workers().contains(worker) ==> {
                &&& (if done { r.next is Unknown } else { r.next is Working })
                &&& final(self).spec_workers() == old(self).spec_workers()
                &&& final(self).spec_pending() == old(self).spec_pending()
                &&& final(self).spec_subscribers() == old(self).spec_subscribers()
            },
            done && old(self).spec_workers().contains(worker) && old(self).spec_pending().len()
                > 0 ==> {
                &&& r.next matches Next::Reuse(k) && k@ == old(self).spec_pending().last().0
                &&& final(self).spec_pending() == old(self).spec_pending().drop_last()
                &&& final(self).spec_subscribers() == old(self).spec_subscribers().push(
                    old(self).spec_pending().last(),
                )
                &&& final(self).spec_workers() == old(self).spec_workers()
            },
            done && old(self).spec_workers().contains(worker) && old(self).spec_pending().len()
                == 0 ==> {
                &&& r.next is Retire
                &&& exists|i: int|
                    0 <= i < old(self).spec_workers().len() && old(self).spec_workers()[i] == worker
                        && final(self).spec_workers() == old(self).spec_workers().remove(i)
                &&& !final(self).spec_workers().contains(worker)
                &&& final(self).spec_pending() == old(self).spec_pending()
                &&& final(self).spec_subscribers() == old(self).spec_subscribers()
            },
            old(self).spec_workers().len() <= old(self).spec_max() ==> final(self).spec_workers().len()
                <= final(self).spec_max(),
    {
        let deliver = self.subscribers_for(key);
        if !done {
            return Routed { deliver, next: Next::Working };
        }
        let mut i: usize = 0;
        let mut found = false;
        while i < self.workers.len() && !found
            invariant
                i <= self.workers@.len(),
                found ==> i < self.workers@.len() && self.workers@[i as int] == worker,
                !found ==> forall|m: int| 0 <= m < i ==> self.workers@[m] != worker,
            decreases self.workers@.len() - i + (if found { 0int } else { 1int }),
        {
            if self.workers[i] == worker {
                found = true;
            } else {
                i = i + 1;
            }
        }
        if !found {
            return Routed { deliver, next: Next::Unknown };
        }
        match self.pending.pop() {
            Some((k, sub)) => {
                let next_key = k.duplicate();
                self.subscribers.push((k, sub));
                assert(entries_view(self.subscribers@) =~= entries_view(old(self).subscribers@).push(
                    old(self).spec_pending().last(),
                ));
                assert(entries_view(self.pending@) =~= entries_view(old(self).pending@).drop_last());
                Routed { deliver, next: Next::Reuse(next_key) }
            },
            None => {
                assert(old(self).spec_pending().len() == 0);
                let ghost before = self.workers@;
                self.workers.remove(i);
                assert(!self.workers@.contains(worker)) by {
                    if self.workers@.contains(worker) {
                        let m = choose|m: int| 0 <= m < self.workers@.len() && self.workers@[m] == worker;
                        if m < i {
                            assert(before[m] == worker);
                        } else {
                            assert(before[m + 1] == worker);
                        }
                    }
                }
                Routed { deliver, next: Next::Retire }
            },
        }
    }
}

} // verus!
