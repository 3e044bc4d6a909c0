//! The proxy's shared state: which upstreams are believed healthy, which have
//! failed, how many requests each client made in the current window, and the
//! settings fixed at startup.
//!
//! The state is a plain value. Whoever shares it between tasks wraps it in a
//! lock and holds that lock only for the length of one call into this module.

use crate::counts::RequestCounts;
use crate::text::{
    copy_strings, find_text, is_first_at, lemma_first_index, lemma_texts_push, lemma_texts_remove,
    texts, without_first,
};
use vstd::multiset::group_multiset_axioms;
use vstd::prelude::*;
use vstd::seq_lib::{
    lemma_multiset_commutative, to_multiset_build, to_multiset_contains, to_multiset_remove,
};

verus! {

/// Moving the entry at `i` from one list to the end of the other keeps every
/// entry of the two lists together, each as often as before.
pub proof fn lemma_move_keeps_multiset(from: Seq<Seq<char>>, to: Seq<Seq<char>>, i: int)
    requires
        0 <= i < from.len(),
    ensures
        (from.remove(i) + to.push(from[i])).to_multiset() == (from + to).to_multiset(),
{
    broadcast use group_multiset_axioms;

    let a = from[i];
    lemma_multiset_commutative(from.remove(i), to.push(a));
    lemma_multiset_commutative(from, to);
    to_multiset_remove(from, i);
    to_multiset_build(to, a);
    to_multiset_contains(from, a);
    assert(from.contains(a));
    assert((from.remove(i) + to.push(a)).to_multiset() =~= (from + to).to_multiset());
}

/// Upstream health, per-client request counts and startup settings.
pub struct ProxyState {
    /// Seconds between two rounds of active health checks.
    active_health_check_interval: usize,
    /// Path requested from an upstream during a health check.
    active_health_check_path: String,
    /// Requests one client may make per window; zero means no limit.
    max_requests_per_minute: usize,
    /// Upstreams currently believed reachable.
    upstream_addresses: Vec<String>,
    /// Upstreams currently believed unreachable.
    failed_upstream_addresses: Vec<String>,
    /// Requests counted per client in the current window.
    requests_cnt_map: RequestCounts,
}

impl ProxyState {
    /// The healthy upstream addresses, in order.
    pub closed spec fn healthy(&self) -> Seq<Seq<char>> {
        texts(self.upstream_addresses@)
    }

    /// The failed upstream addresses, in order.
    pub closed spec fn failed(&self) -> Seq<Seq<char>> {
        texts(self.failed_upstream_addresses@)
    }

    /// The request count of each client seen in the current window.
    pub closed spec fn counts(&self) -> Map<Seq<char>, nat> {
        self.requests_cnt_map@
    }

    /// The per-client limit; zero means no limit.
    pub closed spec fn limit(&self) -> nat {
        self.max_requests_per_minute as nat
    }

    /// Seconds between two rounds of health checks.
    pub closed spec fn interval(&self) -> nat {
        self.active_health_check_interval as nat
    }

    /// The path probed during health checks.
    pub closed spec fn path(&self) -> Seq<char> {
        self.active_health_check_path@
    }

    /// The internal tables are consistent.
    pub closed spec fn wf(&self) -> bool {
        self.requests_cnt_map.wf()
    }

    /// Every known address: the healthy ones followed by the failed ones.
    pub open spec fn addresses(&self) -> Seq<Seq<char>> {
        self.healthy() + self.failed()
    }

    /// The settings are those of `other`.
    pub open spec fn same_settings(&self, other: &ProxyState) -> bool {
        &&& self.limit() == other.limit()
        &&& self.interval() == other.interval()
        &&& self.path() == other.path()
    }

    /// The healthy and failed lists are those of `other`.
    pub open spec fn same_upstreams(&self, other: &ProxyState) -> bool {
        &&& self.healthy() == other.healthy()
        &&& self.failed() == other.failed()
    }

    /// Healthy and failed together hold exactly the addresses of `startup`,
    /// each as often as `startup` does.
    pub open spec fn partitions(&self, startup: Seq<Seq<char>>) -> bool {
        self.addresses().to_multiset() == startup.to_multiset()
    }

    /// The state at startup: every upstream healthy, none failed, no request
    /// counted.
    pub fn new(
        upstream_addresses: Vec<String>,
        active_health_check_interval: usize,
        active_health_check_path: String,
        max_requests_per_minute: usize,
    ) -> (state: ProxyState)
        ensures
            state.wf(),
            state.healthy() == texts(upstream_addresses@),
            state.failed() == Seq::<Seq<char>>::empty(),
            state.counts() == Map::<Seq<char>, nat>::empty(),
            state.limit() == max_requests_per_minute,
            state.interval() == active_health_check_interval,
            state.path() == active_health_check_path@,
            state.partitions(texts(upstream_addresses@)),
    {
        let state = ProxyState {
            active_health_check_interval,
            active_health_check_path,
            max_requests_per_minute,
            upstream_addresses,
            failed_upstream_addresses: Vec::new(),
            requests_cnt_map: RequestCounts::new(),
        };
        assert(state.failed() =~= Seq::<Seq<char>>::empty());
        assert(state.addresses() =~= state.healthy());
        state
    }

    /// Seconds between two rounds of health checks.
    pub fn health_check_interval(&self) -> (r: usize)
        ensures
            r == self.interval(),
    {
        self.active_health_check_interval
    }

    /// The path probed during health checks.
    pub fn health_check_path(&self) -> (r: String)
        ensures
            r@ == self.path(),
    {
        self.active_health_check_path.clone()
    }

    /// The per-client limit; zero means no limit.
    pub fn max_requests_per_minute(&self) -> (r: usize)
        ensures
            r == self.limit(),
    {
        self.max_requests_per_minute
    }

    /// The number of healthy upstreams.
    pub fn healthy_len(&self) -> (n: usize)
        ensures
            n == self.healthy().len(),
    {
        self.upstream_addresses.len()
    }

    /// The healthy upstream at position `i`.
    pub fn healthy_at(&self, i: usize) -> (r: String)
        requires
            i < self.healthy().len(),
        ensures
            r@ == self.healthy()[i as int],
    {
        self.upstream_addresses[i].clone()
    }

    /// A copy of the healthy addresses.
    pub fn healthy_addresses(&self) -> (r: Vec<String>)
        ensures
            texts(r@) == self.healthy(),
    {
        copy_strings(&self.upstream_addresses)
    }

    /// A copy of the failed addresses.
    pub fn failed_addresses(&self) -> (r: Vec<String>)
        ensures
            texts(r@) == self.failed(),
    {
        copy_strings(&self.failed_upstream_addresses)
    }

    /// Replaces the healthy and the failed list in one step. Counts and
    /// settings stay as they are. The new lists are taken as they are: that
    /// they hold the addresses that the state held before is for the caller
    /// to see to.
    pub fn install(&mut self, healthy: Vec<String>, failed: Vec<String>)
        ensures
            final(self).healthy() == texts(healthy@),
            final(self).failed() == texts(failed@),
            final(self).counts() == old(self).counts(),
            final(self).same_settings(old(self)),
            old(self).wf() ==> final(self).wf(),
    {
        self.upstream_addresses = healthy;
        self.failed_upstream_addresses = failed;
    }

    /// Moves the first healthy entry that equals `address` to the end of the
    /// failed list and returns its former position. Where no healthy entry
    /// equals `address`, nothing changes.
    pub fn demote(&mut self, address: &str) -> (r: Option<usize>)
        ensures
            match r {
                Some(i) => {
                    &&& is_first_at(old(self).healthy(), address@, i as int)
                    &&& final(self).healthy() == old(self).healthy().remove(i as int)
                    &&& final(self).failed() == old(self).failed().push(address@)
                },
                None => {
                    &&& !old(self).healthy().contains(address@)
                    &&& final(self).same_upstreams(old(self))
                },
            },
            final(self).healthy() == without_first(old(self).healthy(), address@),
            final(self).addresses().to_multiset() == old(self).addresses().to_multiset(),
            final(self).counts() == old(self).counts(),
            final(self).same_settings(old(self)),
            old(self).wf() ==> final(self).wf(),
    {
        match find_text(&self.upstream_addresses, address) {
            Some(i) => {
                proof {
                    lemma_first_index(self.healthy(), address@, i as int);
                    lemma_texts_remove(self.upstream_addresses@, i as int);
                    lemma_move_keeps_multiset(self.healthy(), self.failed(), i as int);
                }
                let moved = self.upstream_addresses.remove(i);
                proof {
                    lemma_texts_push(self.failed_upstream_addresses@, moved);
                }
                self.failed_upstream_addresses.push(moved);
                Some(i)
            },
            None => None,
        }
    }

    /// The count recorded for `client` in the current window, if any.
    pub fn count_for(&self, client: &str) -> (r: Option<usize>)
        requires
            self.wf(),
        ensures
            match r {
                Some(c) => self.counts().contains_key(client@) && self.counts()[client@] == c,
                None => !self.counts().contains_key(client@),
            },
    {
        self.requests_cnt_map.get(client)
    }

    /// Records `count` as the number of requests of `client` in the current
    /// window.
    pub fn set_count(&mut self, client: &str, count: usize)
        requires
            old(self).wf(),
        ensures
            final(self).wf(),
            final(self).counts() == old(self).counts().insert(client@, count as nat),
            final(self).same_upstreams(old(self)),
            final(self).same_settings(old(self)),
    {
        self.requests_cnt_map.set(client, count);
    }

    /// Starts a new window: forgets every count.
    pub fn clear_counts(&mut self)
        ensures
            final(self).wf(),
            final(self).counts() == Map::<Seq<char>, nat>::empty(),
            final(self).same_upstreams(old(self)),
            final(self).same_settings(old(self)),
    {
        self.requests_cnt_map.clear();
    }
}

/// Where the startup addresses are pairwise different, a state that holds
/// exactly those addresses holds each of them once: no address is healthy
/// and failed at the same time, and none stands twice in either list.
pub proof fn law_distinct_startup_keeps_lists_apart(state: &ProxyState, startup: Seq<Seq<char>>)
    requires
        startup.no_duplicates(),
        state.partitions(startup),
    ensures
        state.addresses().no_duplicates(),
        state.healthy().disjoint(state.failed()),
        forall|a: Seq<char>|
            startup.contains(a) <==> (state.healthy().contains(a) || state.failed().contains(a)),
        forall|a: Seq<char>| !(state.healthy().contains(a) && state.failed().contains(a)),
{
    let all = state.addresses();
    startup.lemma_multiset_has_no_duplicates();
    all.lemma_multiset_has_no_duplicates_conv();
    assert(all.no_duplicates());
    assert forall|i: int, j: int|
        0 <= i < state.healthy().len() && 0 <= j < state.failed().len() implies state.healthy()[i]
        != state.failed()[j] by {
        assert(all[i] == state.healthy()[i]);
        assert(all[state.healthy().len() + j] == state.failed()[j]);
    }
    assert forall|a: Seq<char>|
        startup.contains(a) <==> (state.healthy().contains(a) || state.failed().contains(
            a,
        )) by {
        vstd::seq_lib::to_multiset_contains(startup, a);
        vstd::seq_lib::to_multiset_contains(all, a);
        if state.healthy().contains(a) {
            let i = choose|i: int| 0 <= i < state.healthy().len() && state.healthy()[i] == a;
            assert(all[i] == a);
        }
        if state.failed().contains(a) {
            let j = choose|j: int| 0 <= j < state.failed().len() && state.failed()[j] == a;
            assert(all[state.healthy().len() + j] == a);
        }
        if all.contains(a) {
            let k = choose|k: int| 0 <= k < all.len() && all[k] == a;
            if k < state.healthy().len() {
                assert(state.healthy()[k] == a);
            } else {
                assert(state.failed()[k - state.healthy().len()] == a);
            }
        }
    }
    assert forall|a: Seq<char>| !(state.healthy().contains(a) && state.failed().contains(a)) by {
        if state.healthy().contains(a) && state.failed().contains(a) {
            let i = choose|i: int| 0 <= i < state.healthy().len() && state.healthy()[i] == a;
            let j = choose|j: int| 0 <= j < state.failed().len() && state.failed()[j] == a;
            assert(state.healthy()[i] != state.failed()[j]);
        }
    }
}

} // verus!
