//! Choosing an upstream to dial, and taking one out of rotation when the
//! dial fails.
//!
//! Connecting is a loop that the caller runs: ask for a candidate, dial it,
//! and on failure report it and ask again. Every reported failure shrinks
//! the healthy list, so the loop ends after at most as many dials as there
//! were healthy upstreams, with a connection or with `NoUpstream`.

use crate::pool::ProxyState;
use crate::text::{first_index, is_first_at, lemma_has_first, without_first};
use rand::rngs::StdRng;
use rand::{Rng, SeedableRng};
use vstd::prelude::*;

verus! {

/// The generator type of `rand`, carried through as an opaque value.
#[verifier::external_type_specification]
#[verifier::external_body]
pub struct ExStdRng(StdRng);

/// Calls `StdRng::from_entropy` of `rand`, which seeds a fresh generator
/// from the operating system. Nothing is claimed of the generator. The call
/// panics only where the operating system cannot supply entropy.
#[verifier::external_body]
fn entropy_rng() -> (rng: StdRng) {
    StdRng::from_entropy()
}

/// Calls `Rng::gen_range(0, n)` of `rand`, which draws from the half-open
/// range from zero to `n` and panics on an empty range. The contract claims
/// only that the draw lies in the range; which value comes is left open.
#[verifier::external_body]
fn draw_index(rng: &mut StdRng, n: usize) -> (i: usize)
    requires
        n > 0,
    ensures
        i < n,
{
    rng.gen_range(0, n)
}

/// What the caller does next while connecting.
pub enum ConnectStep {
    /// Dial this address.
    Dial(String),
    /// No healthy upstream is left: give up.
    NoUpstream,
}

/// The step that follows from drawing position `draw` among the healthy
/// upstreams: dial the upstream at that position, or give up where there is
/// none.
pub fn step_for_draw(state: &ProxyState, draw: usize) -> (step: ConnectStep)
    requires
        state.healthy().len() == 0 || draw < state.healthy().len(),
    ensures
        match step {
            ConnectStep::Dial(address) => {
                &&& state.healthy().len() > 0
                &&& address@ == state.healthy()[draw as int]
            },
            ConnectStep::NoUpstream => state.healthy().len() == 0,
        },
{
    if state.healthy_len() == 0 {
        ConnectStep::NoUpstream
    } else {
        ConnectStep::Dial(state.healthy_at(draw))
    }
}

/// Picks, at random, the healthy upstream to dial next.
///
/// Gives `NoUpstream` exactly when no upstream is healthy. An address that
/// is picked stands in the healthy list; where no address is healthy and
/// failed at once, it therefore does not stand in the failed list.
pub fn connect_to_upstream(state: &ProxyState) -> (step: ConnectStep)
    ensures
        step is NoUpstream <==> state.healthy().len() == 0,
        match step {
            ConnectStep::Dial(address) => {
                &&& state.healthy().contains(address@)
                &&& state.healthy().disjoint(state.failed()) ==> !state.failed().contains(
                    address@,
                )
            },
            ConnectStep::NoUpstream => true,
        },
{
    let n = state.healthy_len();
    if n == 0 {
        return ConnectStep::NoUpstream;
    }
    let mut rng = entropy_rng();
    let draw = draw_index(&mut rng, n);
    let step = step_for_draw(state, draw);
    proof {
        let picked = state.healthy()[draw as int];
        assert(state.healthy().contains(picked));
        if state.healthy().disjoint(state.failed()) && state.failed().contains(picked) {
            let j = choose|j: int| 0 <= j < state.failed().len() && state.failed()[j] == picked;
            assert(state.healthy()[draw as int] != state.failed()[j]);
        }
    }
    step
}

/// Records that dialing `address` failed: its first healthy entry moves to
/// the end of the failed list. Returns whether such an entry was there; if
/// not, nothing changes.
pub fn upstream_dial_failed(state: &mut ProxyState, address: &str) -> (moved: bool)
    ensures
        moved <==> old(state).healthy().contains(address@),
        moved ==> final(state).healthy().len() == old(state).healthy().len() - 1,
        moved ==> final(state).failed() == old(state).failed().push(address@),
        moved ==> exists|i: int|
            is_first_at(old(state).healthy(), address@, i) && final(state).healthy() == old(
                state,
            ).healthy().remove(i),
        !moved ==> final(state).same_upstreams(old(state)),
        final(state).healthy() == without_first(old(state).healthy(), address@),
        forall|a: Seq<char>|
            final(state).healthy().contains(a) ==> old(state).healthy().contains(a),
        final(state).addresses().to_multiset() == old(state).addresses().to_multiset(),
        final(state).counts() == old(state).counts(),
        final(state).same_settings(old(state)),
        old(state).wf() ==> final(state).wf(),
{
    let ghost before = state.healthy();
    let r = state.demote(address);
    match r {
        Some(i) => {
            proof {
                assert(is_first_at(before, address@, i as int));
                assert(before.contains(address@));
                assert forall|a: Seq<char>| state.healthy().contains(a) implies before.contains(
                    a,
                ) by {
                    let j = choose|j: int| 0 <= j < state.healthy().len() && state.healthy()[j] == a;
                    if j < i {
                        assert(before[j] == a);
                    } else {
                        assert(before[j + 1] == a);
                    }
                }
            }
            true
        },
        None => false,
    }
}

/// The healthy list after the dials of `dials` failed one after another.
pub open spec fn healthy_after(healthy: Seq<Seq<char>>, dials: Seq<Seq<char>>) -> Seq<Seq<char>>
    decreases dials.len(),
{
    if dials.len() == 0 {
        healthy
    } else {
        without_first(healthy_after(healthy, dials.drop_last()), dials.last())
    }
}

/// Every address of `dials` stood in the healthy list when it was dialed.
pub open spec fn dialed_from_healthy(healthy: Seq<Seq<char>>, dials: Seq<Seq<char>>) -> bool
    decreases dials.len(),
{
    dials.len() > 0 ==> {
        &&& dialed_from_healthy(healthy, dials.drop_last())
        &&& healthy_after(healthy, dials.drop_last()).contains(dials.last())
    }
}

/// Connecting ends: every failed dial of a healthy upstream shortens the
/// healthy list by one, so no more dials can fail in a row than upstreams
/// were healthy at the start, and after that many the list is empty.
pub proof fn law_failed_dials_are_bounded(healthy: Seq<Seq<char>>, dials: Seq<Seq<char>>)
    requires
        dialed_from_healthy(healthy, dials),
    ensures
        healthy_after(healthy, dials).len() == healthy.len() - dials.len(),
        dials.len() <= healthy.len(),
        dials.len() == healthy.len() ==> healthy_after(healthy, dials).len() == 0,
    decreases dials.len(),
{
    if dials.len() > 0 {
        law_failed_dials_are_bounded(healthy, dials.drop_last());
        let before = healthy_after(healthy, dials.drop_last());
        let i = first_index(before, dials.last());
        let k = choose|k: int| 0 <= k < before.len() && before[k] == dials.last();
        lemma_has_first(before, dials.last(), k);
        assert(is_first_at(before, dials.last(), i));
    }
}

} // verus!
