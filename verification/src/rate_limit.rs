//! Fixed-window rate limiting per client.
//!
//! A client may make at most `limit` requests between two resets of the
//! window; a limit of zero switches the check off. The window is reset from
//! outside, on a timer, and a reset forgets every client at once.

use crate::pool::ProxyState;
use vstd::prelude::*;

verus! {

/// The count that `counts` holds for `client`: zero where it holds none.
pub open spec fn count_in(counts: Map<Seq<char>, nat>, client: Seq<char>) -> nat {
    if counts.contains_key(client) {
        counts[client]
    } else {
        0
    }
}

/// Whether the next request of `client` is admitted.
pub open spec fn admits(limit: nat, counts: Map<Seq<char>, nat>, client: Seq<char>) -> bool {
    limit == 0 || count_in(counts, client) + 1 <= limit
}

/// The counts after the next request of `client` was judged: an admitted
/// request is counted, unless there is no limit; a rejected one is not.
pub open spec fn counts_after(limit: nat, counts: Map<Seq<char>, nat>, client: Seq<char>) -> Map<
    Seq<char>,
    nat,
> {
    if limit != 0 && admits(limit, counts, client) {
        counts.insert(client, count_in(counts, client) + 1)
    } else {
        counts
    }
}

/// The counts after the requests of `clients` were judged one after another.
pub open spec fn counts_after_all(
    limit: nat,
    counts: Map<Seq<char>, nat>,
    clients: Seq<Seq<char>>,
) -> Map<Seq<char>, nat>
    decreases clients.len(),
{
    if clients.len() == 0 {
        counts
    } else {
        counts_after(limit, counts_after_all(limit, counts, clients.drop_last()), clients.last())
    }
}

/// How often `client` occurs in `clients`.
pub open spec fn occurrences(clients: Seq<Seq<char>>, client: Seq<char>) -> nat
    decreases clients.len(),
{
    if clients.len() == 0 {
        0
    } else {
        occurrences(clients.drop_last(), client) + if clients.last() == client {
            1nat
        } else {
            0nat
        }
    }
}

/// Judges one request of `client_ip` and counts it where it is admitted.
///
/// With no limit every request is admitted and nothing is counted. With a
/// limit, a request is admitted while the client's count is below the limit,
/// and only an admitted request raises the count.
pub fn check_fixed_windows_for_ip(client_ip: &str, state: &mut ProxyState) -> (admitted: bool)
    requires
        old(state).wf(),
    ensures
        final(state).wf(),
        admitted == admits(old(state).limit(), old(state).counts(), client_ip@),
        final(state).counts() == counts_after(old(state).limit(), old(state).counts(), client_ip@),
        final(state).same_upstreams(old(state)),
        final(state).same_settings(old(state)),
{
    let max = state.max_requests_per_minute();
    if max == 0 {
        return true;
    }
    match state.count_for(client_ip) {
        Some(cnt) => {
            if cnt >= max {
                false
            } else {
                state.set_count(client_ip, cnt + 1);
                true
            }
        },
        None => {
            state.set_count(client_ip, 1);
            true
        },
    }
}

/// Starts a new window: every client's count is zero again.
pub fn clear_counter(state: &mut ProxyState)
    ensures
        final(state).wf(),
        final(state).counts() == Map::<Seq<char>, nat>::empty(),
        forall|client: Seq<char>| count_in(final(state).counts(), client) == 0,
        final(state).same_upstreams(old(state)),
        final(state).same_settings(old(state)),
{
    state.clear_counts();
}

/// With no limit, every request of every client is admitted, whatever was
/// requested before.
pub proof fn law_unlimited_admits_every_request(
    counts: Map<Seq<char>, nat>,
    earlier: Seq<Seq<char>>,
    client: Seq<char>,
)
    ensures
        admits(0, counts_after_all(0, counts, earlier), client),
        counts_after_all(0, counts, earlier) == counts,
    decreases earlier.len(),
{
    if earlier.len() > 0 {
        law_unlimited_admits_every_request(counts, earlier.drop_last(), client);
    }
}

/// A request of one client never changes the count of another.
pub proof fn law_counts_are_per_client(
    limit: nat,
    counts: Map<Seq<char>, nat>,
    client: Seq<char>,
    other: Seq<char>,
)
    requires
        client != other,
    ensures
        count_in(counts_after(limit, counts, other), client) == count_in(counts, client),
{
}

/// Within one window, a client's count is the number of its requests, capped
/// at the limit: of the requests that one client makes after a reset, the
/// first `limit` are admitted and every later one is rejected, however the
/// requests of other clients are interleaved.
pub proof fn law_window_admits_first_requests(
    limit: nat,
    counts: Map<Seq<char>, nat>,
    earlier: Seq<Seq<char>>,
    client: Seq<char>,
)
    requires
        limit > 0,
        count_in(counts, client) == 0,
    ensures
        count_in(counts_after_all(limit, counts, earlier), client) == if occurrences(
            earlier,
            client,
        ) <= limit {
            occurrences(earlier, client)
        } else {
            limit
        },
        admits(limit, counts_after_all(limit, counts, earlier), client) <==> occurrences(
            earlier,
            client,
        ) < limit,
    decreases earlier.len(),
{
    if earlier.len() > 0 {
        law_window_admits_first_requests(limit, counts, earlier.drop_last(), client);
        let before = counts_after_all(limit, counts, earlier.drop_last());
        if earlier.last() != client {
            law_counts_are_per_client(limit, before, client, earlier.last());
        }
    }
}

/// After a reset the window is fresh for every client, so the cycle of
/// `law_window_admits_first_requests` starts again.
pub proof fn law_reset_starts_fresh_window(limit: nat, later: Seq<Seq<char>>, client: Seq<char>)
    requires
        limit > 0,
    ensures
        count_in(Map::<Seq<char>, nat>::empty(), client) == 0,
        admits(limit, counts_after_all(limit, Map::<Seq<char>, nat>::empty(), later), client)
            <==> occurrences(later, client) < limit,
{
    law_window_admits_first_requests(limit, Map::<Seq<char>, nat>::empty(), later, client);
}

} // verus!
