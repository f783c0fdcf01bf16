//! A specification-level model of one routed operation: the state an
//! attempt carries, how one response transforms it, and how a whole
//! run over a sequence of responses plays out. The executable routing
//! client's contracts tie each call to one step of this model; the
//! proof functions at the end state what iterated runs must do.

use crate::trusted::{supervisor_list, url_normalized};
use vstd::prelude::*;

verus! {

/// What one response looked like once the transport layer handed it
/// over: the status code, and the two redirect headers as text where
/// they were present and text-safe.
pub ghost struct ResponseModel {
    pub status: u16,
    pub location: Option<Seq<char>>,
    pub supervisors: Option<Seq<char>>,
}

/// The routing state one attempt carries for its resource: how many
/// requests were sent, the URL the next request would go to, and the
/// topology cached for the resource.
pub ghost struct RouteState {
    pub attempts: u8,
    pub current_url: Seq<char>,
    pub topology: Option<Seq<Seq<char>>>,
}

/// How one response moves the routing state on.
pub ghost enum RouteStep {
    /// Success status: the caller decodes the body; nothing changes.
    Finish,
    /// A well-formed redirect: follow it with the state `next`.
    Proceed { next: RouteState },
    /// A terminal error, leaving the state `next` behind.
    Abort { next: RouteState },
}

/// A redirect whose headers are present, parsable, and carry a
/// usable new location.
pub open spec fn good_redirect(resp: ResponseModel) -> bool {
    &&& resp.status == 308
    &&& resp.location is Some
    &&& resp.supervisors is Some
    &&& supervisor_list(resp.supervisors->0) is Some
    &&& url_normalized(resp.location->0) is Some
}

/// How the client interprets one response: success returns, a
/// redirect with both headers intact replaces the topology and moves
/// to the new location, and anything else aborts with the state
/// untouched. The topology is replaced only when the location and the
/// listing were both extracted successfully.
pub open spec fn spec_handle(st: RouteState, resp: ResponseModel) -> RouteStep {
    if resp.status == 200 {
        RouteStep::Finish
    } else if resp.status != 308 {
        RouteStep::Abort { next: st }
    } else if resp.location is None {
        RouteStep::Abort { next: st }
    } else if resp.supervisors is None {
        RouteStep::Abort { next: st }
    } else if supervisor_list(resp.supervisors->0) is None {
        RouteStep::Abort { next: st }
    } else {
        match url_normalized(resp.location->0) {
            Some(u) => RouteStep::Proceed {
                next: RouteState {
                    attempts: st.attempts,
                    current_url: u,
                    topology: Some(supervisor_list(resp.supervisors->0)->0),
                },
            },
            None => RouteStep::Abort { next: st },
        }
    }
}

/// How a whole run ends.
pub ghost enum RunOutcome {
    /// A success status arrived; `sends` requests went out.
    Succeeded { state: RouteState, sends: nat },
    /// A terminal error arrived; `sends` requests went out.
    Failed { state: RouteState, sends: nat },
    /// The redirect budget was spent before any terminal response.
    Exhausted { state: RouteState, sends: nat },
    /// The response sequence ran out first (no real transport does).
    Starved { state: RouteState, sends: nat },
}

/// Runs the bounded redirect loop over a sequence of responses:
/// before each send the budget is checked, then one response is
/// consumed and interpreted.
pub open spec fn spec_run(max: u8, st: RouteState, resps: Seq<ResponseModel>) -> RunOutcome
    decreases resps.len(),
{
    if st.attempts >= max {
        RunOutcome::Exhausted { state: st, sends: 0 }
    } else if resps.len() == 0 {
        RunOutcome::Starved { state: st, sends: 0 }
    } else {
        let sent = RouteState {
            attempts: (st.attempts + 1) as u8,
            current_url: st.current_url,
            topology: st.topology,
        };
        match spec_handle(sent, resps[0]) {
            RouteStep::Finish => RunOutcome::Succeeded { state: sent, sends: 1 },
            RouteStep::Abort { next } => RunOutcome::Failed { state: next, sends: 1 },
            RouteStep::Proceed { next } => match spec_run(max, next, resps.skip(1)) {
                RunOutcome::Succeeded { state, sends } => RunOutcome::Succeeded {
                    state,
                    sends: sends + 1,
                },
                RunOutcome::Failed { state, sends } => RunOutcome::Failed {
                    state,
                    sends: sends + 1,
                },
                RunOutcome::Exhausted { state, sends } => RunOutcome::Exhausted {
                    state,
                    sends: sends + 1,
                },
                RunOutcome::Starved { state, sends } => RunOutcome::Starved {
                    state,
                    sends: sends + 1,
                },
            },
        }
    }
}

/// Law: answered with `k` well-formed redirects and then a success,
/// a run with budget left for all of them succeeds after exactly `k + 1`
/// sends, and the topology it leaves behind is the one the last
/// redirect carried — earlier redirects' topologies are overwritten.
pub proof fn lemma_redirects_then_success(
    max: u8,
    st: RouteState,
    resps: Seq<ResponseModel>,
    k: int,
)
    requires
        0 <= k,
        st.attempts + k < max,
        resps.len() == k + 1,
        forall|i: int| 0 <= i < k ==> good_redirect(#[trigger] resps[i]),
        resps[k].status == 200,
    ensures
        spec_run(max, st, resps) matches RunOutcome::Succeeded { state, sends } && sends == k + 1
            && state.topology == (if k == 0 {
            st.topology
        } else {
            Some(supervisor_list(resps[k - 1].supervisors->0)->0)
        }),
    decreases k,
{
    if k == 0 {
        assert(spec_handle(
            RouteState {
                attempts: (st.attempts + 1) as u8,
                current_url: st.current_url,
                topology: st.topology,
            },
            resps[0],
        ) is Finish);
    } else {
        assert(good_redirect(resps[0]));
        let sent = RouteState {
            attempts: (st.attempts + 1) as u8,
            current_url: st.current_url,
            topology: st.topology,
        };
        let step = spec_handle(sent, resps[0]);
        assert(step matches RouteStep::Proceed { next }
            && next.attempts == sent.attempts
            && next.topology == Some(supervisor_list(resps[0].supervisors->0)->0));
        let next = step->Proceed_next;
        let rest = resps.skip(1);
        assert(rest.len() == k);
        assert(forall|i: int| 0 <= i < k - 1 ==> good_redirect(#[trigger] rest[i]));
        assert(rest[k - 1].status == 200);
        lemma_redirects_then_success(max, next, rest, k - 1);
    }
}

/// Law: answered with nothing but well-formed redirects, a run that
/// starts with a fresh budget stops with the budget-exhausted outcome
/// after exactly `max` sends — never more.
pub proof fn lemma_budget_exhausted(max: u8, st: RouteState, resps: Seq<ResponseModel>)
    requires
        st.attempts == 0,
        resps.len() >= max,
        forall|i: int| 0 <= i < resps.len() ==> good_redirect(#[trigger] resps[i]),
    ensures
        spec_run(max, st, resps) matches RunOutcome::Exhausted { state, sends } && sends == max,
{
    lemma_redirects_exhaust(max, st, resps);
}

proof fn lemma_redirects_exhaust(max: u8, st: RouteState, resps: Seq<ResponseModel>)
    requires
        st.attempts <= max,
        resps.len() >= max - st.attempts,
        forall|i: int| 0 <= i < resps.len() ==> good_redirect(#[trigger] resps[i]),
    ensures
        spec_run(max, st, resps) matches RunOutcome::Exhausted { state, sends } && sends == max
            - st.attempts,
    decreases resps.len(),
{
    if st.attempts >= max {
    } else {
        assert(good_redirect(resps[0]));
        let sent = RouteState {
            attempts: (st.attempts + 1) as u8,
            current_url: st.current_url,
            topology: st.topology,
        };
        let step = spec_handle(sent, resps[0]);
        let next = step->Proceed_next;
        let rest = resps.skip(1);
        assert(forall|i: int| 0 <= i < rest.len() ==> good_redirect(#[trigger] rest[i]));
        lemma_redirects_exhaust(max, next, rest);
    }
}

} // verus!
