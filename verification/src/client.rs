//! The routing client: resolves a logical resource to a physical
//! endpoint, follows the cluster's redirects up to a bound, and keeps
//! the per-resource topology cache current.
//!
//! The client itself is a state machine. `begin_request` builds the
//! initial URL; `next_target` spends one unit of the redirect budget
//! and picks the URL to contact (a cached endpoint at random, or the
//! current URL); `handle_response` interprets what came back. The
//! transport that actually sends bytes drives these three in a loop.

use crate::cache::TopologyCache;
use crate::model::{spec_handle, ResponseModel, RouteState, RouteStep};
use crate::text::{
    find_colon, parse_port, parse_u16, trim_end_slashes, trim_end_slashes_str,
    trim_start_slashes, trim_start_slashes_str,
};
use crate::trusted::{
    normalize_url, parse_supervisors, random_below, supervisor_list, url_normalized,
    with_host_port,
};
use vstd::prelude::*;

verus! {

/// One terminal error per failed operation, carrying enough context
/// to diagnose it.
#[derive(Debug)]
pub enum ClientError {
    /// The transport failed to send or receive, or the response body
    /// did not decode; the message text says which.
    Http(String),
    /// A payload could not be serialized.
    Json(serde_json::Error),
    /// The base address or a redirect location did not parse as a URL.
    Url(url::ParseError),
    /// No supervisor could serve the named resource.
    NoSupervisor(String),
    /// A status other than success or redirect, with the contacted URL.
    UnexpectedStatus(u16, String),
    /// A redirect without a usable new location.
    MissingLocationHeader,
    /// A redirect without a usable topology listing.
    MissingSupervisorLocationsHeader,
    /// A redirect whose topology listing did not parse.
    InvalidSupervisorLocations(serde_json::Error),
    /// The redirect budget ran out before a terminal response.
    MaxRedirectsExceeded,
}

/// What the transport loop should do with the response it handed in.
#[derive(Debug)]
pub enum ResponseDirective {
    /// Success: decode the body as the expected result.
    Done,
    /// A redirect was followed: send again to the next target.
    Retry,
    /// A terminal error.
    Fail(ClientError),
}

/// The transient state of one routed operation: the URL the next
/// request would go to, and how many requests were already sent.
#[derive(Debug)]
pub struct RequestAttempt {
    pub current_url: String,
    pub attempts: u8,
}

impl RequestAttempt {
    /// This attempt's state in the routing model, given the topology
    /// its resource currently has.
    pub open spec fn route_state(&self, topology: Option<Seq<Seq<char>>>) -> RouteState {
        RouteState { attempts: self.attempts, current_url: self.current_url@, topology }
    }
}

/// Holds when `ep` splits as `h`, a colon, then `pt`, with the first
/// colon as the divide.
pub open spec fn splits_host_port(ep: Seq<char>, h: Seq<char>, pt: Seq<char>) -> bool {
    ep == h + seq![':'] + pt && !h.contains(':')
}

/// Holds when `out` is `base` with an endpoint's host and port
/// substituted in: `ep` splits as host and parsable port, and the url
/// rewrite accepts them.
pub open spec fn good_endpoint_url(base: Seq<char>, ep: Seq<char>, out: Seq<char>) -> bool {
    exists|h: Seq<char>, pt: Seq<char>|
        #[trigger] splits_host_port(ep, h, pt) && match parse_u16(pt) {
            Some(p) => crate::trusted::host_port_swapped(base, h, p) == Some(out),
            None => false,
        }
}

/// Holds when `ep` cannot be substituted into `base`: it has no
/// colon, its port does not parse, or the url rewrite refuses it.
pub open spec fn endpoint_unusable(base: Seq<char>, ep: Seq<char>) -> bool {
    forall|h: Seq<char>, pt: Seq<char>|
        #[trigger] splits_host_port(ep, h, pt) ==> match parse_u16(pt) {
            Some(p) => crate::trusted::host_port_swapped(base, h, p) is None,
            None => true,
        }
}

/// Holds when `out` is what resolving against the single endpoint
/// `ep` yields: the substituted URL, or `base` unchanged where the
/// endpoint cannot be used.
pub open spec fn resolved_via(base: Seq<char>, ep: Seq<char>, out: Seq<char>) -> bool {
    ||| good_endpoint_url(base, ep, out)
    ||| (endpoint_unusable(base, ep) && out == base)
}

/// Holds when `out` is a valid resolution of `base` against the
/// candidate endpoints: `base` itself where there are none, else the
/// resolution of some candidate — never an endpoint outside the list.
pub open spec fn resolves_to(cands: Seq<Seq<char>>, base: Seq<char>, out: Seq<char>) -> bool {
    if cands.len() == 0 {
        out == base
    } else {
        exists|i: int| 0 <= i < cands.len() && resolved_via(base, #[trigger] cands[i], out)
    }
}

/// The URL a fresh operation on `module` starts from: base address
/// and operation path joined under the fixed routing prefix.
pub open spec fn spec_join_url(base: Seq<char>, module: Seq<char>, suffix: Seq<char>) -> Seq<
    char,
> {
    trim_end_slashes(base) + "/rest/"@ + trim_start_slashes(module) + "/"@ + trim_start_slashes(
        suffix,
    )
}

proof fn lemma_no_colon_unusable(base: Seq<char>, ep: Seq<char>)
    requires
        forall|j: int| 0 <= j < ep.len() ==> ep[j] != ':',
    ensures
        endpoint_unusable(base, ep),
{
    assert forall|h: Seq<char>, pt: Seq<char>| #[trigger]
        splits_host_port(ep, h, pt) implies match parse_u16(pt) {
        Some(p) => crate::trusted::host_port_swapped(base, h, p) is None,
        None => true,
    } by {
        assert(ep[h.len() as int] == (h + seq![':'] + pt)[h.len() as int]);
        assert(ep[h.len() as int] == ':');
        assert(false);
    }
}

proof fn lemma_split_unique(
    ep: Seq<char>,
    h1: Seq<char>,
    pt1: Seq<char>,
    h2: Seq<char>,
    pt2: Seq<char>,
)
    requires
        splits_host_port(ep, h1, pt1),
        splits_host_port(ep, h2, pt2),
    ensures
        h1 == h2,
        pt1 == pt2,
{
    if h1.len() < h2.len() {
        assert(ep[h1.len() as int] == (h1 + seq![':'] + pt1)[h1.len() as int]);
        assert(ep[h1.len() as int] == ':');
        assert(ep[h1.len() as int] == (h2 + seq![':'] + pt2)[h1.len() as int]);
        assert(h2[h1.len() as int] == ':');
        assert(h2.contains(':'));
        assert(false);
    } else if h2.len() < h1.len() {
        assert(ep[h2.len() as int] == (h2 + seq![':'] + pt2)[h2.len() as int]);
        assert(ep[h2.len() as int] == ':');
        assert(ep[h2.len() as int] == (h1 + seq![':'] + pt1)[h2.len() as int]);
        assert(h1[h2.len() as int] == ':');
        assert(h1.contains(':'));
        assert(false);
    } else {
        assert forall|i: int| 0 <= i < h1.len() implies h1[i] == h2[i] by {
            assert(h1[i] == (h1 + seq![':'] + pt1)[i]);
            assert(h2[i] == (h2 + seq![':'] + pt2)[i]);
        }
        assert(h1 =~= h2);
        assert(ep.len() == h1.len() + 1 + pt1.len());
        assert(ep.len() == h2.len() + 1 + pt2.len());
        assert(pt1.len() == pt2.len());
        assert forall|i: int| 0 <= i < pt1.len() implies pt1[i] == pt2[i] by {
            assert(pt1[i] == (h1 + seq![':'] + pt1)[i + h1.len() + 1]);
            assert(pt2[i] == (h2 + seq![':'] + pt2)[i + h2.len() + 1]);
        }
        assert(pt1 =~= pt2);
    }
}

/// Law: for endpoint selection, a resource with no cached entry and
/// one whose cached entry is the empty list accept exactly the same
/// targets — the current URL unchanged, and nothing else. This holds
/// of the selection itself, before any redirect-budget check.
pub proof fn lemma_empty_entry_resolves_like_absent(
    a: Client,
    b: Client,
    resource: Seq<char>,
    base: Seq<char>,
    out: Seq<char>,
)
    requires
        a.spec_topology(resource) is None,
        b.spec_topology(resource) == Some(Seq::<Seq<char>>::empty()),
    ensures
        a.spec_candidates(resource) == b.spec_candidates(resource),
        resolves_to(a.spec_candidates(resource), base, out) <==> out == base,
        resolves_to(b.spec_candidates(resource), base, out) <==> out == base,
{
}

/// Law: resolution never invents an endpoint: a target other than the
/// current URL itself is the substitution of some endpoint that
/// stands in the candidate list.
pub proof fn lemma_resolution_never_leaves_list(
    cands: Seq<Seq<char>>,
    base: Seq<char>,
    out: Seq<char>,
)
    requires
        resolves_to(cands, base, out),
        out != base,
    ensures
        exists|i: int|
            0 <= i < cands.len() && good_endpoint_url(base, #[trigger] cands[i], out),
{
    let i = choose|i: int| 0 <= i < cands.len() && resolved_via(base, #[trigger] cands[i], out);
    assert(good_endpoint_url(base, cands[i], out));
}

/// Resolves one candidate endpoint against `base`: substitutes its
/// host and port where the endpoint is well formed, else falls back
/// to `base` unchanged.
fn resolve_candidate(base: &str, ep: &str) -> (r: String)
    ensures
        resolved_via(base@, ep@, r@),
{
    match find_colon(ep) {
        None => {
            proof {
                lemma_no_colon_unusable(base@, ep@);
            }
            base.to_owned()
        },
        Some(ci) => {
            let n = ep.unicode_len();
            let host = ep.substring_char(0, ci);
            let port_txt = ep.substring_char(ci + 1, n);
            proof {
                assert(ep@ =~= host@ + seq![':'] + port_txt@);
                assert forall|j: int| 0 <= j < host@.len() implies host@[j] != ':' by {
                    assert(host@[j] == ep@[j]);
                }
                assert(!host@.contains(':'));
                assert(splits_host_port(ep@, host@, port_txt@));
            }
            match parse_port(port_txt) {
                None => {
                    proof {
                        assert forall|h2: Seq<char>, pt2: Seq<char>| #[trigger]
                            splits_host_port(ep@, h2, pt2) implies match parse_u16(pt2) {
                            Some(p) => crate::trusted::host_port_swapped(base@, h2, p) is None,
                            None => true,
                        } by {
                            lemma_split_unique(ep@, host@, port_txt@, h2, pt2);
                        }
                    }
                    base.to_owned()
                },
                Some(p) => {
                    match with_host_port(base, host, p) {
                        Some(u) => {
                            proof {
                                assert(good_endpoint_url(base@, ep@, u@));
                            }
                            u
                        },
                        None => {
                            proof {
                                assert forall|h2: Seq<char>, pt2: Seq<char>| #[trigger]
                                    splits_host_port(ep@, h2, pt2) implies match parse_u16(pt2) {
                                    Some(q) => crate::trusted::host_port_swapped(
                                        base@,
                                        h2,
                                        q,
                                    ) is None,
                                    None => true,
                                } by {
                                    lemma_split_unique(ep@, host@, port_txt@, h2, pt2);
                                }
                            }
                            base.to_owned()
                        },
                    }
                },
            }
        },
    }
}

/// The routing client: the well-known base address, the topology
/// cache, and the redirect budget.
#[derive(Debug)]
pub struct Client {
    base_url: String,
    supervisor_cache: TopologyCache,
    max_redirects: u8,
}

impl Client {
    /// The normalized base address.
    pub closed spec fn spec_base_url(&self) -> Seq<char> {
        self.base_url@
    }

    /// The redirect budget.
    pub closed spec fn spec_max_redirects(&self) -> u8 {
        self.max_redirects
    }

    /// The topology cached for `resource`.
    pub closed spec fn spec_topology(&self, resource: Seq<char>) -> Option<Seq<Seq<char>>> {
        self.supervisor_cache.spec_lookup(resource)
    }

    /// The candidates endpoint selection sees for `resource`: the
    /// cached list, with absent and empty equivalent.
    pub open spec fn spec_candidates(&self, resource: Seq<char>) -> Seq<Seq<char>> {
        match self.spec_topology(resource) {
            Some(list) => list,
            None => Seq::empty(),
        }
    }

    /// The cache is well formed.
    pub closed spec fn wf(&self) -> bool {
        self.supervisor_cache.wf()
    }

    /// Makes a client for the cluster entered at `base_url`, with an
    /// empty topology cache and the default redirect budget of five.
    /// Fails exactly when the base address does not parse as a URL.
    pub fn new(base_url: String) -> (r: Result<Client, ClientError>)
        ensures
            r is Ok <==> url_normalized(base_url@) is Some,
            r matches Ok(c) ==> {
                &&& Some(c.spec_base_url()) == url_normalized(base_url@)
                &&& c.spec_max_redirects() == 5
                &&& c.wf()
                &&& forall|k: Seq<char>| c.spec_topology(k) is None
            },
            r matches Err(e) ==> e matches ClientError::Url(_),
    {
        match normalize_url(base_url.as_str()) {
            Ok(normalized) => Ok(
                Client {
                    base_url: normalized,
                    supervisor_cache: TopologyCache::new(),
                    max_redirects: 5,
                },
            ),
            Err(e) => Err(ClientError::Url(e)),
        }
    }

    /// The redirect budget.
    pub fn max_redirects(&self) -> (r: u8)
        ensures
            r == self.spec_max_redirects(),
    {
        self.max_redirects
    }

    /// Reads the topology cached for `resource`, atomically.
    pub fn cached_topology(&self, resource: &str) -> (r: Option<Vec<String>>)
        ensures
            r is Some <==> self.spec_topology(resource@) is Some,
            r matches Some(v) ==> Some(v.deep_view()) == self.spec_topology(resource@),
    {
        self.supervisor_cache.lookup(resource)
    }

    /// Starts an operation: joins the base address, the fixed routing
    /// prefix, the resource name and the operation path into the
    /// initial target URL. Fails exactly when the joined text does
    /// not parse as a URL.
    pub fn begin_request(&self, module: &str, path_suffix: &str) -> (r: Result<
        RequestAttempt,
        ClientError,
    >)
        ensures
            r is Ok <==> url_normalized(
                spec_join_url(self.spec_base_url(), module@, path_suffix@),
            ) is Some,
            r matches Ok(a) ==> Some(a.current_url@) == url_normalized(
                spec_join_url(self.spec_base_url(), module@, path_suffix@),
            ) && a.attempts == 0,
            r matches Err(e) ==> e matches ClientError::Url(_),
    {
        let mut joined = trim_end_slashes_str(self.base_url.as_str());
        joined.append("/rest/");
        joined.append(trim_start_slashes_str(module).as_str());
        joined.append("/");
        joined.append(trim_start_slashes_str(path_suffix).as_str());
        match normalize_url(joined.as_str()) {
            Ok(u) => Ok(RequestAttempt { current_url: u, attempts: 0 }),
            Err(e) => Err(ClientError::Url(e)),
        }
    }

    /// Spends one unit of the redirect budget and picks the URL to
    /// contact: one cached endpoint of the resource, chosen uniformly
    /// at random and substituted into the current URL, or the current
    /// URL unchanged where no cached endpoint exists or the chosen
    /// one cannot be used. Fails exactly when the budget is already
    /// spent.
    pub fn next_target(&self, attempt: &mut RequestAttempt, module: &str) -> (r: Result<
        String,
        ClientError,
    >)
        ensures
            r is Err <==> old(attempt).attempts >= self.spec_max_redirects(),
            r matches Err(e) ==> e matches ClientError::MaxRedirectsExceeded && *final(attempt)
                == *old(attempt),
            r matches Ok(u) ==> {
                &&& final(attempt).attempts == old(attempt).attempts + 1
                &&& final(attempt).current_url == old(attempt).current_url
                &&& resolves_to(
                    self.spec_candidates(module@),
                    old(attempt).current_url@,
                    u@,
                )
            },
    {
        if attempt.attempts >= self.max_redirects {
            return Err(ClientError::MaxRedirectsExceeded);
        }
        attempt.attempts = attempt.attempts + 1;
        match self.supervisor_cache.lookup(module) {
            None => Ok(attempt.current_url.clone()),
            Some(list) => {
                if list.len() == 0 {
                    Ok(attempt.current_url.clone())
                } else {
                    let idx = random_below(list.len());
                    let out = resolve_candidate(attempt.current_url.as_str(), list[idx].as_str());
                    proof {
                        let cands = self.spec_candidates(module@);
                        assert(cands == list.deep_view());
                        assert(list.deep_view()[idx as int] == list@[idx as int]@);
                        assert(resolved_via(old(attempt).current_url@, cands[idx as int], out@));
                    }
                    Ok(out)
                }
            },
        }
    }

    /// Interprets one response, as one step of the routing model:
    /// success finishes; a redirect with both headers usable replaces
    /// the resource's cached topology with the advertised listing —
    /// the listing of the last redirect always wins — and moves the
    /// attempt to the new location; anything else fails with the
    /// matching error, touching neither cache nor attempt. The cache
    /// is written only when the location and the listing were both
    /// extracted successfully. No other resource's entry is ever
    /// touched.
    pub fn handle_response(
        &mut self,
        attempt: &mut RequestAttempt,
        module: &str,
        status: u16,
        location: Option<String>,
        supervisor_locations: Option<String>,
        contacted_url: &str,
    ) -> (r: ResponseDirective)
        requires
            old(self).wf(),
        ensures
            final(self).wf(),
            final(self).spec_base_url() == old(self).spec_base_url(),
            final(self).spec_max_redirects() == old(self).spec_max_redirects(),
            forall|k: Seq<char>|
                k != module@ ==> final(self).spec_topology(k) == old(self).spec_topology(k),
            ({
                let resp = ResponseModel {
                    status,
                    location: location.deep_view(),
                    supervisors: supervisor_locations.deep_view(),
                };
                let before = old(attempt).route_state(old(self).spec_topology(module@));
                let after = final(attempt).route_state(final(self).spec_topology(module@));
                match spec_handle(before, resp) {
                    RouteStep::Finish => r is Done && after == before,
                    RouteStep::Proceed { next } => r is Retry && after == next,
                    RouteStep::Abort { next } => r matches ResponseDirective::Fail(_) && after
                        == next,
                }
            }),
            status != 200 && status != 308 ==> (r matches ResponseDirective::Fail(e) && (
            e matches ClientError::UnexpectedStatus(st, u) && st == status && u@
                == contacted_url@)),
            status == 308 && location is None ==> (r matches ResponseDirective::Fail(e) && (
            e matches ClientError::MissingLocationHeader)),
            status == 308 && location is Some && supervisor_locations is None ==> (r matches
            ResponseDirective::Fail(e) && (
            e matches ClientError::MissingSupervisorLocationsHeader)),
            supervisor_locations matches Some(sl) ==> ((status == 308 && location is Some
                && supervisor_list(sl@) is None) ==> (r matches ResponseDirective::Fail(e) && (
            e matches ClientError::InvalidSupervisorLocations(_)))),
            location matches Some(loc) ==> (supervisor_locations matches Some(sl) ==> ((status
                == 308 && supervisor_list(sl@) is Some && url_normalized(loc@) is None) ==> (
            r matches ResponseDirective::Fail(e) && (e matches ClientError::Url(_))))),
    {
        if status == 200 {
            return ResponseDirective::Done;
        }
        if status != 308 {
            return ResponseDirective::Fail(
                ClientError::UnexpectedStatus(status, contacted_url.to_owned()),
            );
        }
        let loc = match location {
            Some(l) => l,
            None => {
                return ResponseDirective::Fail(ClientError::MissingLocationHeader);
            },
        };
        let sl = match supervisor_locations {
            Some(s) => s,
            None => {
                return ResponseDirective::Fail(ClientError::MissingSupervisorLocationsHeader);
            },
        };
        let supervisors = match parse_supervisors(sl.as_str()) {
            Ok(v) => v,
            Err(e) => {
                return ResponseDirective::Fail(ClientError::InvalidSupervisorLocations(e));
            },
        };
        match normalize_url(loc.as_str()) {
            Ok(u) => {
                self.supervisor_cache.update(module, supervisors);
                attempt.current_url = u;
                ResponseDirective::Retry
            },
            Err(e) => ResponseDirective::Fail(ClientError::Url(e)),
        }
    }
}

} // verus!
