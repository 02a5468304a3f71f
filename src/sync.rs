//! The decisions of one sync run: which race identifiers to fetch, what to
//! record of each fetch, and how the upstream's paging is put together.
use vstd::prelude::*;

verus! {

/// What to do for one race identifier.
#[derive(Copy, Clone, PartialEq, Eq, Structural)]
pub enum SyncAction {
    /// Its document is in the cache already: no request.
    AlreadyCached,
    /// Fetch its document and write it to the cache.
    Fetch,
    /// The run was stopped by a fatal failure: do nothing more.
    Stop,
}

/// How the fetch of one document ended.
#[derive(Copy, Clone, PartialEq, Eq, Structural)]
pub enum FetchResult {
    /// The document was fetched and written to the cache.
    Cached,
    /// Upstream does not let us see it (403): it stays out of the cache and
    /// can be tried in a later run.
    Forbidden,
    /// A failure that stops the whole run.
    Failed,
}

/// What a sync run has recorded.
pub struct SyncState {
    /// Identifiers whose documents this run wrote to the cache.
    pub cached: Seq<i64>,
    /// Identifiers skipped because upstream refused them.
    pub skipped: Seq<i64>,
    /// Document requests issued.
    pub requests: nat,
    pub stopped: bool,
}

pub open spec fn action_for(st: SyncState, id: i64, on_disk: bool) -> SyncAction {
    if st.stopped {
        SyncAction::Stop
    } else if on_disk || st.cached.contains(id) {
        SyncAction::AlreadyCached
    } else {
        SyncAction::Fetch
    }
}

pub open spec fn after_begin(st: SyncState, id: i64, on_disk: bool) -> SyncState {
    if action_for(st, id, on_disk) is Fetch {
        SyncState { requests: st.requests + 1, ..st }
    } else {
        st
    }
}

pub open spec fn after_finish(st: SyncState, id: i64, r: FetchResult) -> SyncState {
    match r {
        FetchResult::Cached => SyncState { cached: st.cached.push(id), ..st },
        FetchResult::Forbidden => SyncState { skipped: st.skipped.push(id), ..st },
        FetchResult::Failed => SyncState { stopped: true, ..st },
    }
}

/// The record of one sync run.
pub struct SyncRun {
    cached: Vec<i64>,
    skipped: Vec<i64>,
    requests: u64,
    stopped: bool,
}

impl View for SyncRun {
    type V = SyncState;

    closed spec fn view(&self) -> SyncState {
        SyncState {
            cached: self.cached@,
            skipped: self.skipped@,
            requests: self.requests as nat,
            stopped: self.stopped,
        }
    }
}

fn contains_id(v: &Vec<i64>, id: i64) -> (r: bool)
    ensures
        r == v@.contains(id),
{
    let mut i: usize = 0;
    while i < v.len()
        invariant
            i <= v@.len(),
            forall|k: int| 0 <= k < i ==> v@[k] != id,
        decreases v@.len() - i,
    {
        if v[i] == id {
            assert(v@[i as int] == id);
            return true;
        }
        i = i + 1;
    }
    false
}

impl SyncRun {
    pub fn new() -> (r: SyncRun)
        ensures
            r@ == (SyncState { cached: Seq::empty(), skipped: Seq::empty(), requests: 0, stopped: false }),
    {
        SyncRun { cached: Vec::new(), skipped: Vec::new(), requests: 0, stopped: false }
    }

    /// Decides what to do for `id`; `on_disk` says whether the cache held
    /// its document when the run looked.
    pub fn begin(&mut self, id: i64, on_disk: bool) -> (a: SyncAction)
        requires
            old(self)@.requests < u64::MAX,
        ensures
            a == action_for(old(self)@, id, on_disk),
            final(self)@ == after_begin(old(self)@, id, on_disk),
    {
        if self.stopped {
            return SyncAction::Stop;
        }
        if on_disk || contains_id(&self.cached, id) {
            return SyncAction::AlreadyCached;
        }
        self.requests = self.requests + 1;
        SyncAction::Fetch
    }

    /// Records how the fetch of `id` ended.
    pub fn finish(&mut self, id: i64, r: FetchResult)
        ensures
            final(self)@ == after_finish(old(self)@, id, r),
    {
        match r {
            FetchResult::Cached => self.cached.push(id),
            FetchResult::Forbidden => self.skipped.push(id),
            FetchResult::Failed => self.stopped = true,
        }
    }

    /// The identifiers this run wrote to the cache, in order.
    pub fn synced(&self) -> (r: &Vec<i64>)
        ensures
            r@ == self@.cached,
    {
        &self.cached
    }

    /// The identifiers skipped because upstream refused them.
    pub fn skipped(&self) -> (r: &Vec<i64>)
        ensures
            r@ == self@.skipped,
    {
        &self.skipped
    }

    pub fn requests(&self) -> (r: u64)
        ensures
            r == self@.requests,
    {
        self.requests
    }

    pub fn is_stopped(&self) -> (r: bool)
        ensures
            r == self@.stopped,
    {
        self.stopped
    }
}

/// Fetching and caching the same identifier twice issues one request: once
/// its document is cached, the second attempt is a cache hit, whatever the
/// disk is seen to hold.
pub proof fn second_fetch_is_cache_hit(st: SyncState, id: i64, on_disk_later: bool)
    requires
        !st.stopped,
        !st.cached.contains(id),
    ensures
        action_for(st, id, false) == SyncAction::Fetch,
        ({
            let s1 = after_finish(after_begin(st, id, false), id, FetchResult::Cached);
            &&& action_for(s1, id, on_disk_later) == SyncAction::AlreadyCached
            &&& after_begin(s1, id, on_disk_later).requests == st.requests + 1
        }),
{
    let s1 = after_finish(after_begin(st, id, false), id, FetchResult::Cached);
    assert(s1.cached.last() == id);
    assert(s1.cached.contains(id)) by {
        assert(s1.cached[s1.cached.len() - 1] == id);
    }
}

/// A refused document (403) is skipped: it is not recorded as cached, and
/// the run goes on to its other identifiers as before.
pub proof fn forbidden_is_skipped(st: SyncState, id: i64, other: i64, on_disk: bool)
    requires
        !st.stopped,
        !st.cached.contains(id),
    ensures
        ({
            let s1 = after_finish(after_begin(st, id, false), id, FetchResult::Forbidden);
            &&& !s1.cached.contains(id)
            &&& s1.skipped == st.skipped.push(id)
            &&& !s1.stopped
            &&& action_for(s1, other, on_disk) == action_for(st, other, on_disk)
        }),
{
}

} // verus!
