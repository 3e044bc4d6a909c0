//! Active health checks: what a probe has to observe for an upstream to
//! count as healthy, and how one round of probes reclassifies every
//! upstream.
//!
//! A round has three parts. The caller takes the list of targets from the
//! state, probes each target without holding the state, and hands the
//! results back, which replaces the healthy and the failed list in one step.

use crate::pool::ProxyState;
use crate::text::{lemma_texts_push, texts};
use vstd::prelude::*;
use vstd::seq_lib::{lemma_multiset_commutative, to_multiset_build};

verus! {

/// What one probe of an upstream observed.
pub enum ProbeOutcome {
    /// No connection could be opened.
    ConnectFailed,
    /// The connection was opened, but the request could not be sent.
    RequestFailed,
    /// The request was sent, but no response could be read.
    ResponseFailed,
    /// A response was read; this is its status line.
    StatusLine(String),
}

/// Why a probe does not count as a pass.
#[derive(Clone, Copy, Debug, PartialEq, Eq, Structural)]
pub enum ProbeError {
    /// No connection could be opened.
    CannotCreateSocket,
    /// The request could not be sent or no response could be read.
    NoResponse,
    /// The upstream answered with another status line than success.
    NotOk,
}

/// The one status line that counts as a pass.
pub open spec fn ok_status_line() -> Seq<char> {
    "HTTP/1.1 200 OK"@
}

/// A probe passes exactly when it read a response whose status line is the
/// success line, character for character.
pub open spec fn passes(outcome: ProbeOutcome) -> bool {
    match outcome {
        ProbeOutcome::StatusLine(line) => line@ == ok_status_line(),
        _ => false,
    }
}

/// Judges one probe: `Ok` for a pass, otherwise the reason.
pub fn perform_check_on_address(outcome: &ProbeOutcome) -> (r: Result<(), ProbeError>)
    ensures
        r is Ok <==> passes(*outcome),
        r == Err::<(), ProbeError>(ProbeError::CannotCreateSocket) <==> outcome is ConnectFailed,
        r == Err::<(), ProbeError>(ProbeError::NoResponse) <==> (outcome is RequestFailed
            || outcome is ResponseFailed),
        r == Err::<(), ProbeError>(ProbeError::NotOk) <==> (outcome is StatusLine && !passes(
            *outcome,
        )),
{
    match outcome {
        ProbeOutcome::ConnectFailed => Err(ProbeError::CannotCreateSocket),
        ProbeOutcome::RequestFailed => Err(ProbeError::NoResponse),
        ProbeOutcome::ResponseFailed => Err(ProbeError::NoResponse),
        ProbeOutcome::StatusLine(line) => {
            let expected = "HTTP/1.1 200 OK".to_owned();
            if *line == expected {
                Ok(())
            } else {
                Err(ProbeError::NotOk)
            }
        },
    }
}

/// The verdict of one probe on one upstream.
pub struct ProbeResult {
    /// The upstream that was probed.
    pub address: String,
    /// Whether the probe passed.
    pub healthy: bool,
}

impl ProbeResult {
    /// The result for `address` that follows from what its probe observed.
    pub fn from_outcome(address: String, outcome: &ProbeOutcome) -> (r: ProbeResult)
        ensures
            r.address == address,
            r.healthy == passes(*outcome),
    {
        let healthy = perform_check_on_address(outcome).is_ok();
        ProbeResult { address, healthy }
    }
}

/// The addresses of all `results`, in order.
pub open spec fn probed(results: Seq<ProbeResult>) -> Seq<Seq<char>> {
    Seq::new(results.len(), |i: int| results[i].address@)
}

/// The addresses of those `results` whose verdict is `healthy`, in order.
pub open spec fn probed_with(results: Seq<ProbeResult>, healthy: bool) -> Seq<Seq<char>>
    decreases results.len(),
{
    if results.len() == 0 {
        Seq::empty()
    } else if results.last().healthy == healthy {
        probed_with(results.drop_last(), healthy).push(results.last().address@)
    } else {
        probed_with(results.drop_last(), healthy)
    }
}

/// The upstreams to probe in the next round: every known address, the
/// healthy ones first. The list is a copy; probing it needs no access to the
/// state.
pub fn health_check_targets(state: &ProxyState) -> (targets: Vec<String>)
    ensures
        texts(targets@) == state.addresses(),
{
    let mut targets = state.healthy_addresses();
    let failed = state.failed_addresses();
    let ghost healthy_part = targets@;
    let mut i: usize = 0;
    while i < failed.len()
        invariant
            i <= failed@.len(),
            targets@ == healthy_part + failed@.subrange(0, i as int),
        decreases failed@.len() - i,
    {
        targets.push(failed[i].clone());
        assert(targets@ =~= healthy_part + failed@.subrange(0, i + 1));
        i += 1;
    }
    assert(failed@.subrange(0, failed@.len() as int) =~= failed@);
    assert(texts(targets@) =~= texts(healthy_part) + texts(failed@));
    targets
}

/// Splits `results` by verdict, keeping the order of the probes.
pub fn split_by_verdict(results: &Vec<ProbeResult>) -> (r: (Vec<String>, Vec<String>))
    ensures
        texts(r.0@) == probed_with(results@, true),
        texts(r.1@) == probed_with(results@, false),
{
    let mut active: Vec<String> = Vec::new();
    let mut passive: Vec<String> = Vec::new();
    let mut i: usize = 0;
    assert(results@.subrange(0, 0) =~= Seq::<ProbeResult>::empty());
    assert(texts(active@) =~= Seq::<Seq<char>>::empty());
    assert(texts(passive@) =~= Seq::<Seq<char>>::empty());
    while i < results.len()
        invariant
            i <= results@.len(),
            texts(active@) == probed_with(results@.subrange(0, i as int), true),
            texts(passive@) == probed_with(results@.subrange(0, i as int), false),
        decreases results@.len() - i,
    {
        let ghost upto = results@.subrange(0, i + 1);
        assert(upto.drop_last() =~= results@.subrange(0, i as int));
        assert(upto.last() == results@[i as int]);
        let address = results[i].address.clone();
        if results[i].healthy {
            proof {
                lemma_texts_push(active@, address);
            }
            active.push(address);
        } else {
            proof {
                lemma_texts_push(passive@, address);
            }
            passive.push(address);
        }
        i += 1;
    }
    assert(results@.subrange(0, results@.len() as int) =~= results@);
    (active, passive)
}

/// Ends a round of health checks: the upstreams whose probe passed become
/// the healthy list, the others the failed list, both in the order of the
/// probes and in one step. Request counts and settings are not touched.
pub fn upstreams_active_health_check(state: &mut ProxyState, results: &Vec<ProbeResult>)
    ensures
        final(state).healthy() == probed_with(results@, true),
        final(state).failed() == probed_with(results@, false),
        final(state).addresses().to_multiset() == probed(results@).to_multiset(),
        final(state).counts() == old(state).counts(),
        final(state).same_settings(old(state)),
        old(state).wf() ==> final(state).wf(),
{
    let (active, passive) = split_by_verdict(results);
    proof {
        law_round_keeps_every_address(results@);
    }
    state.install(active, passive);
}

/// A round loses and invents no address: the passing and the failing
/// addresses together are the probed addresses, each as often as it was
/// probed.
pub proof fn law_round_keeps_every_address(results: Seq<ProbeResult>)
    ensures
        (probed_with(results, true) + probed_with(results, false)).to_multiset() == probed(
            results,
        ).to_multiset(),
    decreases results.len(),
{
    broadcast use vstd::multiset::group_multiset_axioms;

    let pass = probed_with(results, true);
    let fail = probed_with(results, false);
    if results.len() == 0 {
        assert(pass + fail =~= probed(results));
    } else {
        let rest = results.drop_last();
        let a = results.last().address@;
        law_round_keeps_every_address(rest);
        assert(probed(results) =~= probed(rest).push(a));
        to_multiset_build(probed(rest), a);
        lemma_multiset_commutative(pass, fail);
        lemma_multiset_commutative(probed_with(rest, true), probed_with(rest, false));
        if results.last().healthy {
            to_multiset_build(probed_with(rest, true), a);
        } else {
            to_multiset_build(probed_with(rest, false), a);
        }
        assert((pass + fail).to_multiset() =~= probed(results).to_multiset());
    }
}

/// A round that probed exactly the addresses the state held leaves the state
/// holding exactly the startup addresses.
pub proof fn law_round_keeps_partition(
    before: &ProxyState,
    after: &ProxyState,
    results: Seq<ProbeResult>,
    startup: Seq<Seq<char>>,
)
    requires
        before.partitions(startup),
        probed(results).to_multiset() == before.addresses().to_multiset(),
        after.healthy() == probed_with(results, true),
        after.failed() == probed_with(results, false),
    ensures
        after.partitions(startup),
{
    law_round_keeps_every_address(results);
}

/// An address is listed under a verdict exactly when some probe of it ended
/// with that verdict.
pub proof fn law_round_lists_by_verdict(results: Seq<ProbeResult>, healthy: bool, a: Seq<char>)
    ensures
        probed_with(results, healthy).contains(a) <==> exists|i: int|
            0 <= i < results.len() && #[trigger] results[i].address@ == a && results[i].healthy
                == healthy,
    decreases results.len(),
{
    let listed = probed_with(results, healthy);
    if results.len() > 0 {
        let rest = results.drop_last();
        let last = results.last();
        law_round_lists_by_verdict(rest, healthy, a);
        let listed_rest = probed_with(rest, healthy);
        if listed.contains(a) {
            let k = choose|k: int| 0 <= k < listed.len() && listed[k] == a;
            if last.healthy == healthy && k == listed.len() - 1 {
                assert(results[results.len() - 1].address@ == a);
            } else {
                assert(listed_rest[k] == a);
                assert(listed_rest.contains(a));
                let i = choose|i: int|
                    0 <= i < rest.len() && #[trigger] rest[i].address@ == a && rest[i].healthy
                        == healthy;
                assert(results[i].address@ == a);
            }
        }
        if exists|i: int|
            0 <= i < results.len() && #[trigger] results[i].address@ == a && results[i].healthy
                == healthy {
            let i = choose|i: int|
                0 <= i < results.len() && #[trigger] results[i].address@ == a && results[i].healthy
                    == healthy;
            if i == results.len() - 1 {
                assert(listed[listed.len() - 1] == a);
            } else {
                assert(rest[i].address@ == a);
                assert(listed_rest.contains(a));
                let k = choose|k: int| 0 <= k < listed_rest.len() && listed_rest[k] == a;
                assert(listed[k] == a);
            }
        }
    }
}

/// Where every upstream was probed once, a round puts an upstream in the
/// healthy list exactly when its probe passed, and in the failed list exactly
/// when it did not, whichever list it stood in before.
pub proof fn law_round_moves_by_probe(results: Seq<ProbeResult>, i: int)
    requires
        probed(results).no_duplicates(),
        0 <= i < results.len(),
    ensures
        probed_with(results, true).contains(results[i].address@) <==> results[i].healthy,
        probed_with(results, false).contains(results[i].address@) <==> !results[i].healthy,
{
    let a = results[i].address@;
    law_round_lists_by_verdict(results, true, a);
    law_round_lists_by_verdict(results, false, a);
    assert forall|j: int| 0 <= j < results.len() && #[trigger] results[j].address@ == a implies j
        == i by {
        assert(probed(results)[j] == a);
        assert(probed(results)[i] == a);
    }
}

} // verus!
