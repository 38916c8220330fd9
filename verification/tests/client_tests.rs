use l2portal::client::{
    next_step, pins_host_route, NextStep, StepRun,
    cleanup_steps, not_ipv4_message, parse_console_command, switch_outcome, startup_steps, switch_plan,
    switched_message, sync_route_steps, CleanupStep, ConsoleCommand, RouteStep, StartupStep, SwitchPlan,
};
use l2portal::net::{Endpoint, Ipv4, ParsedAddr};

#[test]
fn console_switch_command() {
    match parse_console_command("  switch 203.0.113.20:4789  \n") {
        ConsoleCommand::Switch { address, raw } => {
            assert_eq!(address, "203.0.113.20:4789");
            assert_eq!(raw, "203.0.113.20:4789");
        }
        _ => panic!("expected switch"),
    }
    match parse_console_command("switch   1.2.3.4:5") {
        ConsoleCommand::Switch { address, raw } => {
            assert_eq!(address, "1.2.3.4:5");
            assert_eq!(raw, "  1.2.3.4:5");
        }
        _ => panic!("expected switch"),
    }
}

#[test]
fn console_other_lines() {
    assert!(matches!(parse_console_command("hello there "), ConsoleCommand::Unknown(s) if s == "hello there"));
    assert!(matches!(parse_console_command("switch"), ConsoleCommand::Unknown(s) if s == "switch"));
    assert!(matches!(parse_console_command("SWITCH 1.2.3.4:5"), ConsoleCommand::Unknown(_)));
    assert!(matches!(parse_console_command(""), ConsoleCommand::Empty));
    assert!(matches!(parse_console_command(" \t\u{3000}"), ConsoleCommand::Empty));
}

#[test]
fn route_sync_order() {
    let a = Ipv4::new(203, 0, 113, 1);
    let b = Ipv4::new(203, 0, 113, 20);
    assert_eq!(sync_route_steps(None, a), vec![RouteStep::AddHostRoute(a), RouteStep::RecordRoute(a)]);
    assert_eq!(
        sync_route_steps(Some(a), a),
        vec![RouteStep::DeleteHostRoute(a), RouteStep::AddHostRoute(a), RouteStep::RecordRoute(a)]
    );
    assert_eq!(
        sync_route_steps(Some(a), b),
        vec![RouteStep::AddHostRoute(b), RouteStep::RecordRoute(b), RouteStep::DeleteHostRoute(a)]
    );
}

#[test]
fn cleanup_order() {
    let r = Ipv4::new(203, 0, 113, 1);
    assert_eq!(
        cleanup_steps(r),
        vec![CleanupStep::ClearTapIp, CleanupStep::DeleteHostRoute(r), CleanupStep::DeleteTap, CleanupStep::RemoveStateFile]
    );
}

#[test]
fn startup_pins_route_before_address() {
    let remote = Ipv4::new(203, 0, 113, 1);
    let tap_ip = Ipv4::new(192, 168, 10, 50);
    assert_eq!(
        startup_steps(remote, Some((tap_ip, 24))),
        vec![
            StartupStep::CleanupResidue,
            StartupStep::CreateTap,
            StartupStep::RecordTap,
            StartupStep::PinHostRoute(remote),
            StartupStep::SetTapIp(tap_ip, 24),
        ]
    );
    assert_eq!(
        startup_steps(remote, None),
        vec![StartupStep::CleanupResidue, StartupStep::CreateTap, StartupStep::RecordTap]
    );
}

#[test]
fn switch_decisions() {
    let cur = Endpoint { ip: Ipv4::new(203, 0, 113, 1), port: 4789 };
    let new = Endpoint { ip: Ipv4::new(203, 0, 113, 20), port: 4789 };
    assert_eq!(switch_plan(cur, None, true), SwitchPlan::RejectInvalid);
    assert_eq!(switch_plan(cur, Some(ParsedAddr::V6), false), SwitchPlan::RejectNotIpv4);
    assert_eq!(
        switch_plan(cur, Some(ParsedAddr::V4(new)), true),
        SwitchPlan::MoveRouteThenSwitch { old: cur.ip, new }
    );
    assert_eq!(switch_plan(cur, Some(ParsedAddr::V4(new)), false), SwitchPlan::Switch(new));
    let mv = SwitchPlan::MoveRouteThenSwitch { old: cur.ip, new };
    assert_eq!(switch_outcome(mv, true), Some(new));
    assert_eq!(switch_outcome(mv, false), None);
    assert_eq!(switch_outcome(SwitchPlan::Switch(new), false), Some(new));
    assert_eq!(switch_outcome(SwitchPlan::RejectInvalid, true), None);
    assert_eq!(switch_outcome(SwitchPlan::RejectNotIpv4, true), None);
    // Switching to the current peer still counts as a switch.
    assert_eq!(switch_outcome(SwitchPlan::Switch(cur), false), Some(cur));
    assert_eq!(switched_message(new), "[INFO] client: switched remote to 203.0.113.20:4789");
    assert_eq!(not_ipv4_message(), "[ERROR] client: remote address must be IPv4");
}

#[test]
fn step_runs_stop_or_go_on() {
    assert_eq!(next_step(StepRun::Startup, 3, 0, true), NextStep::Run(1));
    assert_eq!(next_step(StepRun::Startup, 3, 1, false), NextStep::Abort);
    assert_eq!(next_step(StepRun::RouteSync, 3, 2, true), NextStep::Done);
    assert_eq!(next_step(StepRun::RouteSync, 3, 0, false), NextStep::Abort);
    assert_eq!(next_step(StepRun::Cleanup, 4, 1, false), NextStep::Run(2));
    assert_eq!(next_step(StepRun::Cleanup, 4, 3, false), NextStep::Done);
    assert_eq!(next_step(StepRun::ResidueCleanup, 3, 0, false), NextStep::Run(1));
}

#[test]
fn route_is_pinned_only_with_static_address() {
    assert!(pins_host_route(Some((Ipv4::new(192, 168, 10, 50), 24))));
    assert!(!pins_host_route(None));
}

#[test]
fn peer_after_a_run_of_switches() {
    let start = Endpoint { ip: Ipv4::new(203, 0, 113, 1), port: 4789 };
    let a = Endpoint { ip: Ipv4::new(203, 0, 113, 20), port: 4789 };
    let b = Endpoint { ip: Ipv4::new(203, 0, 113, 30), port: 4790 };
    // With a pinned route: a succeeds, b's route move fails, then IPv6 and garbage.
    let mut peer = start;
    for (parsed, moved) in [
        (Some(ParsedAddr::V4(a)), true),
        (Some(ParsedAddr::V4(b)), false),
        (Some(ParsedAddr::V6), true),
        (None, true),
    ] {
        if let Some(p) = switch_outcome(switch_plan(peer, parsed, true), moved) {
            peer = p;
        }
    }
    assert_eq!(peer, a);
}
