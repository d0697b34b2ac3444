use criu_coordinator::barrier::{Coordinator, Dispatch, PollDecision};
use criu_coordinator::phase::Phase;
use criu_coordinator::protocol::{Dependencies, ErrorReason, Request, Response};

fn graph(entries: &[(&str, &[&str])]) -> Vec<(String, Vec<String>)> {
    entries
        .iter()
        .map(|(k, v)| (k.to_string(), v.iter().map(|d| d.to_string()).collect()))
        .collect()
}

fn phase_request(id: &str, action: &str, deps: &str) -> Request {
    Request {
        id: id.to_string(),
        action: action.to_string(),
        dependencies: Dependencies::Declared(deps.to_string()),
    }
}

fn upload_request(g: Vec<(String, Vec<String>)>) -> Request {
    Request {
        id: String::new(),
        action: "add-dependencies".to_string(),
        dependencies: Dependencies::Graph(g),
    }
}

#[test]
fn two_peer_happy_path() {
    let mut c = Coordinator::new(50);
    c.add_dependencies(&graph(&[("A", &["B"]), ("B", &["A"])]));
    assert_eq!(c.handle_request(&phase_request("A", "pre-dump", "")), Dispatch::Await(Phase::PreDump));
    assert_eq!(c.poll("A", Phase::PreDump, 0), PollDecision::Wait);
    assert_eq!(c.handle_request(&phase_request("B", "pre-dump", "")), Dispatch::Await(Phase::PreDump));
    assert_eq!(c.poll("B", Phase::PreDump, 0), PollDecision::Release);
    assert_eq!(c.poll("A", Phase::PreDump, 1), PollDecision::Release);
    assert_eq!(Response::Success.exit_code(), 0);
}

#[test]
fn lonely_peer_times_out() {
    let mut c = Coordinator::new(3);
    c.add_dependencies(&graph(&[("A", &["B"])]));
    assert_eq!(c.handle_request(&phase_request("A", "pre-dump", "")), Dispatch::Await(Phase::PreDump));
    assert_eq!(c.poll("A", Phase::PreDump, 0), PollDecision::Wait);
    assert_eq!(c.poll("A", Phase::PreDump, 1), PollDecision::Wait);
    assert_eq!(c.poll("A", Phase::PreDump, 2), PollDecision::Timeout);
    let reply = Response::Failure(ErrorReason::Timeout);
    assert_eq!(reply.exit_code(), 1);
}

#[test]
fn upload_then_barrier() {
    let mut c = Coordinator::new(50);
    let up = upload_request(graph(&[("X", &["Y"]), ("Y", &["X"])]));
    assert_eq!(c.handle_request(&up), Dispatch::Reply(Response::Success));
    assert_eq!(c.handle_request(&phase_request("X", "pre-restore", "")), Dispatch::Await(Phase::PreRestore));
    assert_eq!(c.handle_request(&phase_request("Y", "pre-restore", "")), Dispatch::Await(Phase::PreRestore));
    assert_eq!(c.poll("X", Phase::PreRestore, 0), PollDecision::Release);
    assert_eq!(c.poll("Y", Phase::PreRestore, 0), PollDecision::Release);
}

#[test]
fn prefix_lookup_drives_barrier() {
    let mut c = Coordinator::new(50);
    c.add_dependencies(&graph(&[("abc", &["peer"])]));
    assert_eq!(c.dependencies_of("abcdef123"), vec!["peer".to_string()]);
    c.enter_phase("abcdef123", Phase::PostDump, "");
    assert_eq!(c.poll("abcdef123", Phase::PostDump, 0), PollDecision::Wait);
    c.enter_phase("peer", Phase::PostDump, "");
    assert_eq!(c.poll("abcdef123", Phase::PostDump, 0), PollDecision::Release);
}

#[test]
fn declared_dependencies_are_stored() {
    let mut c = Coordinator::new(5);
    c.enter_phase("A", Phase::PreDump, "B:C");
    assert_eq!(c.dependencies_of("A"), vec!["B".to_string(), "C".to_string()]);
    c.enter_phase("B", Phase::PreDump, "");
    assert!(!c.can_release("A", Phase::PreDump));
    c.enter_phase("C", Phase::PreDump, "");
    assert!(c.can_release("A", Phase::PreDump));
}

#[test]
fn empty_dependencies_release_at_once() {
    let mut c = Coordinator::new(5);
    c.enter_phase("solo", Phase::PostResume, "");
    assert!(c.dependencies_of("solo").is_empty());
    assert_eq!(c.poll("solo", Phase::PostResume, 0), PollDecision::Release);
}

#[test]
fn peer_in_other_phase_is_not_ready() {
    let mut c = Coordinator::new(5);
    c.add_dependencies(&graph(&[("A", &["B"])]));
    c.enter_phase("A", Phase::PostDump, "");
    c.enter_phase("B", Phase::PreDump, "");
    assert!(!c.is_peer_ready("B", Phase::PostDump));
    assert!(!c.can_release("A", Phase::PostDump));
}

#[test]
fn disconnected_peer_is_absent() {
    let mut c = Coordinator::new(5);
    c.add_dependencies(&graph(&[("A", &["B"])]));
    c.enter_phase("A", Phase::PreDump, "");
    c.enter_phase("B", Phase::PreDump, "");
    assert!(c.can_release("A", Phase::PreDump));
    c.disconnect("B");
    assert!(!c.can_release("A", Phase::PreDump));
    assert_eq!(c.poll("A", Phase::PreDump, 4), PollDecision::Timeout);
}

#[test]
fn post_dump_release_marks_local_checkpoint() {
    let mut c = Coordinator::new(5);
    c.enter_phase("A", Phase::PreDump, "");
    c.complete("A", Phase::PreDump);
    assert!(!c.has_local_checkpoint("A"));
    c.enter_phase("A", Phase::PostDump, "");
    c.complete("A", Phase::PostDump);
    assert!(c.has_local_checkpoint("A"));
    c.enter_phase("A", Phase::PreRestore, "");
    assert!(c.has_local_checkpoint("A"));
}

#[test]
fn unknown_action_is_refused() {
    let mut c = Coordinator::new(5);
    assert_eq!(
        c.handle_request(&phase_request("A", "dance", "")),
        Dispatch::Reply(Response::Failure(ErrorReason::UnknownAction))
    );
}

#[test]
fn mismatched_dependencies_are_malformed() {
    let mut c = Coordinator::new(5);
    let mut bad_upload = phase_request("A", "add-dependencies", "B");
    assert_eq!(
        c.handle_request(&bad_upload),
        Dispatch::Reply(Response::Failure(ErrorReason::MalformedRequest))
    );
    bad_upload = Request {
        id: "A".to_string(),
        action: "pre-dump".to_string(),
        dependencies: Dependencies::Graph(Vec::new()),
    };
    assert_eq!(
        c.handle_request(&bad_upload),
        Dispatch::Reply(Response::Failure(ErrorReason::MalformedRequest))
    );
}

#[test]
fn reposting_graph_changes_nothing() {
    let mut c = Coordinator::new(5);
    let g = graph(&[("A", &["B"]), ("B", &["A", "C"]), ("A", &["C"])]);
    c.add_dependencies(&g);
    let a1 = c.dependencies_of("A");
    let b1 = c.dependencies_of("B");
    c.add_dependencies(&g);
    assert_eq!(c.dependencies_of("A"), a1);
    assert_eq!(c.dependencies_of("B"), b1);
    assert_eq!(a1, vec!["C".to_string()]);
}

#[test]
fn progress_when_peer_arrives_late() {
    let mut c = Coordinator::new(4);
    c.add_dependencies(&graph(&[("A", &["B"])]));
    c.enter_phase("A", Phase::NetworkLock, "");
    assert_eq!(c.poll("A", Phase::NetworkLock, 0), PollDecision::Wait);
    assert_eq!(c.poll("A", Phase::NetworkLock, 1), PollDecision::Wait);
    c.enter_phase("B", Phase::NetworkLock, "");
    assert_eq!(c.poll("A", Phase::NetworkLock, 2), PollDecision::Release);
}

#[test]
fn zero_retries_still_answers() {
    let mut c = Coordinator::new(0);
    c.add_dependencies(&graph(&[("A", &["B"])]));
    c.enter_phase("A", Phase::PreDump, "");
    assert_eq!(c.poll("A", Phase::PreDump, 0), PollDecision::Timeout);
}
