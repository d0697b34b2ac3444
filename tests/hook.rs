use criu_coordinator::config::{decode_checkpoint_config, encode_checkpoint_config};
use criu_coordinator::hook::{hook_step, BarrierPlan, HookError, HookStep, SocketState};
use criu_coordinator::network::{
    get_default_interface_name, link_set_args, link_state_for, route_query_args, LinkState, RouteError,
};
use criu_coordinator::phase::{is_dump_action, is_restore_action, Phase};
use criu_coordinator::protocol::{ErrorReason, Response};
use criu_coordinator::text::{join_with_colons, split_fields, Separator};

fn strings(v: &[&str]) -> Vec<String> {
    v.iter().map(|s| s.to_string()).collect()
}

#[test]
fn network_lock_acts_before_barrier() {
    let step = hook_step("network-lock", SocketState::Absent);
    assert_eq!(
        step,
        HookStep::Join(BarrierPlan { phase: Phase::NetworkLock, streaming: false, link: Some(LinkState::Down) })
    );
    let step = hook_step("network-unlock", SocketState::Absent);
    assert_eq!(
        step,
        HookStep::Join(BarrierPlan { phase: Phase::NetworkUnlock, streaming: false, link: Some(LinkState::Up) })
    );
    assert_eq!(link_set_args("eth0", LinkState::Down), strings(&["link", "set", "eth0", "down"]));
    assert_eq!(link_set_args("eth0", LinkState::Up), strings(&["link", "set", "eth0", "up"]));
}

#[test]
fn pre_stream_takes_over_pre_dump() {
    assert_eq!(hook_step("pre-dump", SocketState::Socket), HookStep::Skip);
    assert_eq!(
        hook_step("pre-dump", SocketState::NotSocket),
        HookStep::Fail(HookError::CaptureNotSocket)
    );
    assert_eq!(
        hook_step("pre-dump", SocketState::Absent),
        HookStep::Join(BarrierPlan { phase: Phase::PreDump, streaming: false, link: None })
    );
    assert_eq!(
        hook_step("pre-stream", SocketState::Socket),
        HookStep::Join(BarrierPlan { phase: Phase::PreStream, streaming: true, link: None })
    );
}

#[test]
fn other_actions_are_no_ops() {
    assert_eq!(hook_step("setup-namespaces", SocketState::Absent), HookStep::Skip);
    assert_eq!(hook_step("", SocketState::Absent), HookStep::Skip);
    assert_eq!(
        hook_step("post-resume", SocketState::Absent),
        HookStep::Join(BarrierPlan { phase: Phase::PostResume, streaming: false, link: None })
    );
}

#[test]
fn phase_names_and_sides() {
    let all = [
        Phase::PreDump,
        Phase::PostDump,
        Phase::PreStream,
        Phase::NetworkLock,
        Phase::NetworkUnlock,
        Phase::PreRestore,
        Phase::PostRestore,
        Phase::PostResume,
    ];
    for p in all {
        assert_eq!(Phase::from_name(p.name()), Some(p));
        assert_eq!(is_dump_action(p.name()), p.is_dump());
        assert_eq!(is_restore_action(p.name()), !p.is_dump());
    }
    assert!(is_dump_action("network-lock"));
    assert!(is_restore_action("network-unlock"));
    assert!(!is_dump_action("add-dependencies"));
    assert!(!is_restore_action("add-dependencies"));
    assert_eq!(Phase::from_name("Pre-Dump"), None);
    assert_eq!(link_state_for(Phase::PreDump), None);
}

#[test]
fn default_interface_from_route() {
    assert_eq!(
        get_default_interface_name(true, "default via 192.168.90.1 dev eth0 \n"),
        Ok("eth0".to_string())
    );
    assert_eq!(
        get_default_interface_name(true, "default via 10.0.0.1 dev\tens3 proto dhcp metric 100\n"),
        Ok("ens3".to_string())
    );
    assert_eq!(get_default_interface_name(true, ""), Err(RouteError::NotFound));
    assert_eq!(get_default_interface_name(true, "default via 10.0.0.1 dev"), Err(RouteError::NotFound));
    assert_eq!(get_default_interface_name(true, "devices eth0"), Err(RouteError::NotFound));
    assert_eq!(
        get_default_interface_name(false, "default via 1.2.3.4 dev eth0"),
        Err(RouteError::CommandFailed)
    );
    assert_eq!(route_query_args(), strings(&["-4", "route", "show", "default"]));
}

#[test]
fn config_round_trip() {
    let deps = strings(&["web", "db-1"]);
    let text = encode_checkpoint_config("cache", &deps);
    assert_eq!(text, "id=cache\ndependencies=web:db-1\n");
    assert_eq!(decode_checkpoint_config(&text), Some(("cache".to_string(), deps)));
    let empty = encode_checkpoint_config("solo", &Vec::new());
    assert_eq!(empty, "id=solo\ndependencies=\n");
    assert_eq!(decode_checkpoint_config(&empty), Some(("solo".to_string(), Vec::new())));
}

#[test]
fn config_rejects_other_text() {
    assert_eq!(decode_checkpoint_config(""), None);
    assert_eq!(decode_checkpoint_config("id=a\n"), None);
    assert_eq!(decode_checkpoint_config("id=a\ndependencies=b"), None);
    assert_eq!(decode_checkpoint_config("id=a\ndependencies=b\nextra\n"), None);
    assert_eq!(decode_checkpoint_config("name=a\ndependencies=b\n"), None);
    assert_eq!(decode_checkpoint_config("id=a\ndeps=b\n"), None);
    assert_eq!(
        decode_checkpoint_config("id=\ndependencies=::x::\n"),
        Some((String::new(), strings(&["x"])))
    );
}

#[test]
fn response_frames() {
    assert_eq!(Response::Success.to_frame(), "{\"status\":\"ok\"}\n");
    assert_eq!(
        Response::Failure(ErrorReason::Timeout).to_frame(),
        "{\"status\":\"error\",\"reason\":\"timed out waiting for dependencies\"}\n"
    );
    for r in [
        Response::Success,
        Response::Failure(ErrorReason::UnknownAction),
        Response::Failure(ErrorReason::MalformedRequest),
        Response::Failure(ErrorReason::Timeout),
    ] {
        assert_eq!(Response::parse(&r.to_frame()), Some(r));
        assert_eq!(Response::parse(&r.to_json()), Some(r));
    }
    assert_eq!(Response::parse("{\"status\":\"maybe\"}\n"), None);
    assert_eq!(Response::Failure(ErrorReason::UnknownAction).exit_code(), 1);
}

#[test]
fn colon_lists() {
    assert_eq!(split_fields("a:b:c", Separator::Colon), strings(&["a", "b", "c"]));
    assert_eq!(split_fields("", Separator::Colon), Vec::<String>::new());
    assert_eq!(split_fields(":a::b:", Separator::Colon), strings(&["a", "b"]));
    assert_eq!(split_fields("  x \t y\n", Separator::WhiteSpace), strings(&["x", "y"]));
    assert_eq!(join_with_colons(&strings(&["a", "b"])), "a:b");
    assert_eq!(join_with_colons(&strings(&["only"])), "only");
    assert_eq!(join_with_colons(&Vec::new()), "");
}
