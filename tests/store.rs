use criu_coordinator::client_status::ClientStatus;
use criu_coordinator::deps::DependencyStore;

fn strings(v: &[&str]) -> Vec<String> {
    v.iter().map(|s| s.to_string()).collect()
}

#[test]
fn new_status_is_connected_and_idle() {
    let s = ClientStatus::new();
    assert!(s.is_connected());
    assert!(!s.is_ready());
    assert!(!s.has_local_checkpoint());
    assert!(!s.is_ready_for_action(""));
}

#[test]
fn status_ready_for_its_action_only() {
    let mut s = ClientStatus::new();
    s.set_action("pre-dump");
    assert!(!s.is_ready_for_action("pre-dump"));
    s.set_ready(true);
    assert!(s.is_ready_for_action("pre-dump"));
    assert!(!s.is_ready_for_action("post-dump"));
    s.set_ready(false);
    assert!(!s.is_ready_for_action("pre-dump"));
}

#[test]
fn status_local_checkpoint_and_disconnect() {
    let mut s = ClientStatus::new();
    s.set_local_checkpoint();
    assert!(s.has_local_checkpoint());
    s.set_disconnected();
    assert!(!s.is_connected());
    let d = s.duplicate();
    assert!(d.has_local_checkpoint());
    assert!(!d.is_connected());
}

#[test]
fn prefix_lookup() {
    let mut store = DependencyStore::new();
    store.put("abc", strings(&["x", "y"]));
    assert_eq!(store.deps_of("abcdef123"), Some(strings(&["x", "y"])));
    assert_eq!(store.deps_of("ab"), None);
    assert_eq!(store.deps_of("xyz"), None);
}

#[test]
fn longest_prefix_wins() {
    let mut store = DependencyStore::new();
    store.put("a", strings(&["short"]));
    store.put("abcd", strings(&["long"]));
    store.put("ab", strings(&["middle"]));
    assert_eq!(store.deps_of("abcdef"), Some(strings(&["long"])));
    assert_eq!(store.deps_of("abc"), Some(strings(&["middle"])));
    assert_eq!(store.deps_of("a"), Some(strings(&["short"])));
}

#[test]
fn exact_match_is_used() {
    let mut store = DependencyStore::new();
    store.put("web", strings(&["db"]));
    store.put("web-1", strings(&["cache"]));
    assert_eq!(store.deps_of("web-1"), Some(strings(&["cache"])));
    assert_eq!(store.deps_of("web"), Some(strings(&["db"])));
}

#[test]
fn put_overwrites() {
    let mut store = DependencyStore::new();
    store.put("a", strings(&["b"]));
    store.put("a", strings(&[]));
    assert_eq!(store.deps_of("a"), Some(Vec::new()));
}

#[test]
fn later_graph_entry_wins() {
    let mut store = DependencyStore::new();
    let g = vec![
        ("a".to_string(), strings(&["b"])),
        ("a".to_string(), strings(&["c"])),
    ];
    store.add_graph(&g);
    assert_eq!(store.deps_of("a"), Some(strings(&["c"])));
    store.add_graph(&g);
    assert_eq!(store.deps_of("a"), Some(strings(&["c"])));
}

#[test]
fn lookup_is_repeatable() {
    let mut store = DependencyStore::new();
    store.put("ab", strings(&["1"]));
    store.put("abc", strings(&["2"]));
    let first = store.deps_of("abcz");
    for _ in 0..3 {
        assert_eq!(store.deps_of("abcz"), first);
    }
    assert_eq!(first, Some(strings(&["2"])));
}
