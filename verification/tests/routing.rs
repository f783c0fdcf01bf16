use rama_client::{Client, ClientError, RequestAttempt, ResponseDirective};

const BASE: &str = "http://hub.example:9000";

fn client() -> Client {
    Client::new(BASE.to_string()).expect("base address parses")
}

fn begin(c: &Client) -> RequestAttempt {
    c.begin_request("mod", "pstate/p/select").expect("joined URL parses")
}

fn redirect_for(n: u32) -> (String, String) {
    let location = format!("http://n{}:900{}/rest/mod/pstate/p/select", n, n % 10);
    let supervisors = format!("[\"n{}:900{}\"]", n, n % 10);
    (location, supervisors)
}

#[test]
fn new_rejects_malformed_base() {
    let r = Client::new("not a url at all".to_string());
    assert!(matches!(r, Err(ClientError::Url(_))));
}

#[test]
fn new_defaults_to_five_redirects() {
    assert_eq!(client().max_redirects(), 5);
}

#[test]
fn begin_request_joins_and_normalizes() {
    // Trailing slashes on the base and leading slashes on the parts
    // collapse, and the host is normalized to lower case.
    let c = Client::new("http://HUB.example:9000///".to_string()).unwrap();
    let a = c.begin_request("/mod", "/pstate/p/select").unwrap();
    assert_eq!(a.current_url, "http://hub.example:9000/rest/mod/pstate/p/select");
    assert_eq!(a.attempts, 0);
}

#[test]
fn first_target_is_initial_url_when_cache_empty() {
    let c = client();
    let mut a = begin(&c);
    let target = c.next_target(&mut a, "mod").unwrap();
    assert_eq!(target, "http://hub.example:9000/rest/mod/pstate/p/select");
    assert_eq!(a.attempts, 1);
}

#[test]
fn success_leaves_everything_untouched() {
    let mut c = client();
    let mut a = begin(&c);
    let target = c.next_target(&mut a, "mod").unwrap();
    let d = c.handle_response(&mut a, "mod", 200, None, None, &target);
    assert!(matches!(d, ResponseDirective::Done));
    assert_eq!(a.attempts, 1);
    assert!(c.cached_topology("mod").is_none());
}

#[test]
fn redirects_then_success_counts_requests_and_keeps_last_topology() {
    // k well-formed redirects then a success: exactly k + 1 requests,
    // and only the last redirect's topology survives.
    let k = 3u32;
    let mut c = client();
    let mut a = begin(&c);
    let mut sends = 0u32;
    loop {
        let target = c.next_target(&mut a, "mod").expect("budget not exhausted");
        sends += 1;
        let d = if sends <= k {
            let (location, supervisors) = redirect_for(sends);
            c.handle_response(&mut a, "mod", 308, Some(location), Some(supervisors), &target)
        } else {
            c.handle_response(&mut a, "mod", 200, None, None, &target)
        };
        match d {
            ResponseDirective::Retry => continue,
            ResponseDirective::Done => break,
            ResponseDirective::Fail(e) => panic!("unexpected failure: {:?}", e),
        }
    }
    assert_eq!(sends, k + 1);
    assert_eq!(c.cached_topology("mod"), Some(vec!["n3:9003".to_string()]));
}

#[test]
fn budget_exhaustion_fails_after_max_requests() {
    let mut c = client();
    let mut a = begin(&c);
    let max = c.max_redirects() as u32;
    let mut sends = 0u32;
    let error = loop {
        match c.next_target(&mut a, "mod") {
            Err(e) => break e,
            Ok(target) => {
                sends += 1;
                let (location, supervisors) = redirect_for(sends);
                let d = c.handle_response(
                    &mut a,
                    "mod",
                    308,
                    Some(location),
                    Some(supervisors),
                    &target,
                );
                assert!(matches!(d, ResponseDirective::Retry));
            }
        }
    };
    assert!(matches!(error, ClientError::MaxRedirectsExceeded));
    assert_eq!(sends, max);
}

#[test]
fn missing_location_fails() {
    let mut c = client();
    let mut a = begin(&c);
    let target = c.next_target(&mut a, "mod").unwrap();
    let d = c.handle_response(&mut a, "mod", 308, None, Some("[\"n1:9001\"]".into()), &target);
    assert!(matches!(
        d,
        ResponseDirective::Fail(ClientError::MissingLocationHeader)
    ));
    assert!(c.cached_topology("mod").is_none());
}

#[test]
fn missing_supervisors_fails_and_keeps_old_topology() {
    let mut c = client();
    let mut a = begin(&c);
    let target = c.next_target(&mut a, "mod").unwrap();
    let (location, supervisors) = redirect_for(1);
    c.handle_response(&mut a, "mod", 308, Some(location), Some(supervisors), &target);
    let before = c.cached_topology("mod");
    assert_eq!(before, Some(vec!["n1:9001".to_string()]));

    let mut a2 = begin(&c);
    let target2 = c.next_target(&mut a2, "mod").unwrap();
    let (location2, _) = redirect_for(2);
    let d = c.handle_response(&mut a2, "mod", 308, Some(location2), None, &target2);
    assert!(matches!(
        d,
        ResponseDirective::Fail(ClientError::MissingSupervisorLocationsHeader)
    ));
    assert_eq!(c.cached_topology("mod"), before);
}

#[test]
fn unparsable_supervisors_fails_and_keeps_old_topology() {
    let mut c = client();
    let mut a = begin(&c);
    let target = c.next_target(&mut a, "mod").unwrap();
    let (location, _) = redirect_for(1);
    let d = c.handle_response(
        &mut a,
        "mod",
        308,
        Some(location),
        Some("not json".into()),
        &target,
    );
    assert!(matches!(
        d,
        ResponseDirective::Fail(ClientError::InvalidSupervisorLocations(_))
    ));
    assert!(c.cached_topology("mod").is_none());
}

#[test]
fn unparsable_location_fails_and_keeps_old_topology() {
    // The cache is written only when both the location and the
    // topology listing were extracted successfully: a redirect whose
    // listing parses but whose location does not leaves it untouched.
    let mut c = client();
    let mut a = begin(&c);
    let target = c.next_target(&mut a, "mod").unwrap();
    let (location, supervisors) = redirect_for(1);
    c.handle_response(&mut a, "mod", 308, Some(location), Some(supervisors), &target);
    let before = c.cached_topology("mod");
    assert_eq!(before, Some(vec!["n1:9001".to_string()]));

    let mut a2 = begin(&c);
    let target2 = c.next_target(&mut a2, "mod").unwrap();
    let url_before = a2.current_url.clone();
    let d = c.handle_response(
        &mut a2,
        "mod",
        308,
        Some("::::not a url".into()),
        Some("[\"n9:9009\"]".into()),
        &target2,
    );
    assert!(matches!(d, ResponseDirective::Fail(ClientError::Url(_))));
    assert_eq!(c.cached_topology("mod"), before);
    assert_eq!(a2.current_url, url_before);
}

#[test]
fn unexpected_status_carries_code_and_url() {
    let mut c = client();
    let mut a = begin(&c);
    let target = c.next_target(&mut a, "mod").unwrap();
    let d = c.handle_response(&mut a, "mod", 500, None, None, &target);
    match d {
        ResponseDirective::Fail(ClientError::UnexpectedStatus(status, url)) => {
            assert_eq!(status, 500);
            assert_eq!(url, target);
        }
        other => panic!("expected the unexpected-status error, got {:?}", other),
    }
    // One request went out and no redirect was consumed.
    assert_eq!(a.attempts, 1);
}

#[test]
fn empty_topology_update_acts_like_no_entry() {
    let mut c = client();
    let mut a = begin(&c);
    let target = c.next_target(&mut a, "mod").unwrap();
    let (location, _) = redirect_for(1);
    let d = c.handle_response(&mut a, "mod", 308, Some(location), Some("[]".into()), &target);
    assert!(matches!(d, ResponseDirective::Retry));
    assert_eq!(c.cached_topology("mod"), Some(vec![]));
    // An empty cached list selects exactly as an absent entry: the
    // current (redirected) URL is used unchanged.
    let next = c.next_target(&mut a, "mod").unwrap();
    assert_eq!(next, a.current_url);
    assert_eq!(next, "http://n1:9001/rest/mod/pstate/p/select");
}

#[test]
fn cached_endpoints_are_used_and_never_left() {
    let mut c = client();
    let mut a = begin(&c);
    let target = c.next_target(&mut a, "mod").unwrap();
    let d = c.handle_response(
        &mut a,
        "mod",
        308,
        Some("http://hub.example:9000/rest/mod/pstate/p/select".into()),
        Some("[\"n1:8001\",\"n2:8002\"]".into()),
        &target,
    );
    assert!(matches!(d, ResponseDirective::Retry));
    let expected1 = "http://n1:8001/rest/mod/pstate/p/select";
    let expected2 = "http://n2:8002/rest/mod/pstate/p/select";
    let mut seen1 = false;
    let mut seen2 = false;
    for _ in 0..200 {
        let mut attempt = begin(&c);
        let t = c.next_target(&mut attempt, "mod").unwrap();
        if t == expected1 {
            seen1 = true;
        } else if t == expected2 {
            seen2 = true;
        } else {
            panic!("contacted an endpoint outside the cached list: {}", t);
        }
    }
    assert!(seen1 && seen2, "both cached endpoints should be contacted over many trials");
}

#[test]
fn malformed_cached_endpoint_falls_back_to_current_url() {
    for bad in ["no-colon", "host:70000", "host:port", "host:"] {
        let mut c = client();
        let mut a = begin(&c);
        let target = c.next_target(&mut a, "mod").unwrap();
        let supervisors = format!("[\"{}\"]", bad);
        let d = c.handle_response(
            &mut a,
            "mod",
            308,
            Some("http://hub.example:9000/rest/mod/pstate/p/select".into()),
            Some(supervisors),
            &target,
        );
        assert!(matches!(d, ResponseDirective::Retry));
        let t = c.next_target(&mut a, "mod").unwrap();
        assert_eq!(t, a.current_url, "endpoint {:?} must fall back", bad);
    }
}

#[test]
fn updates_touch_only_their_own_resource() {
    let mut c = client();
    let mut a = begin(&c);
    let target = c.next_target(&mut a, "mod").unwrap();
    let (location, supervisors) = redirect_for(1);
    c.handle_response(&mut a, "mod", 308, Some(location), Some(supervisors), &target);

    let mut b = c.begin_request("other", "depot/d/append").unwrap();
    let target_b = c.next_target(&mut b, "other").unwrap();
    let (location2, _) = redirect_for(2);
    c.handle_response(
        &mut b,
        "other",
        308,
        Some(location2),
        Some("[\"n2:9002\"]".into()),
        &target_b,
    );
    assert_eq!(c.cached_topology("mod"), Some(vec!["n1:9001".to_string()]));
    assert_eq!(c.cached_topology("other"), Some(vec!["n2:9002".to_string()]));
}
