use rama_client::cache::TopologyCache;

#[test]
fn empty_cache_has_no_entries() {
    let c = TopologyCache::new();
    assert!(c.lookup("mod").is_none());
    assert!(c.lookup("").is_none());
}

#[test]
fn update_then_lookup_returns_the_list() {
    let mut c = TopologyCache::new();
    c.update("mod", vec!["a:1".to_string(), "b:2".to_string()]);
    assert_eq!(c.lookup("mod"), Some(vec!["a:1".to_string(), "b:2".to_string()]));
}

#[test]
fn update_replaces_the_whole_list() {
    let mut c = TopologyCache::new();
    c.update("mod", vec!["a:1".to_string(), "b:2".to_string()]);
    c.update("mod", vec!["c:3".to_string()]);
    assert_eq!(c.lookup("mod"), Some(vec!["c:3".to_string()]));
}

#[test]
fn update_leaves_other_resources_alone() {
    let mut c = TopologyCache::new();
    c.update("one", vec!["a:1".to_string()]);
    c.update("two", vec!["b:2".to_string()]);
    c.update("one", vec![]);
    assert_eq!(c.lookup("one"), Some(vec![]));
    assert_eq!(c.lookup("two"), Some(vec!["b:2".to_string()]));
    assert!(c.lookup("three").is_none());
}

#[test]
fn empty_update_is_observable_but_offers_no_candidates() {
    // The entry exists, holding an empty list; endpoint selection
    // treats it exactly as no entry (covered by the routing tests).
    let mut c = TopologyCache::new();
    c.update("mod", vec![]);
    assert_eq!(c.lookup("mod"), Some(vec![]));
}
