use l2portal::net::Ipv4;
use l2portal::state::{residue_plan, residue_steps, state_content, ResiduePlan, ResidueStep, RouteResidue};

fn plan_of(text: &str) -> (Option<String>, Option<String>, Option<Ipv4>) {
    // (tap_name, unparsable route text, route to delete)
    match residue_plan(text) {
        ResiduePlan::MissingTapName => (None, None, None),
        ResiduePlan::Cleanup { route, tap_name } => match route {
            RouteResidue::NoRoute => (Some(tap_name), None, None),
            RouteResidue::Delete(ip) => (Some(tap_name), None, Some(ip)),
            RouteResidue::Unparsable(s) => (Some(tap_name), Some(s), None),
        },
    }
}

#[test]
fn state_content_format() {
    let guid = "{6F3A9C1E-0000-4B2D-9A51-1234567890AB}";
    assert_eq!(state_content(guid, None), format!("tap_name={guid}\n"));
    assert_eq!(
        state_content(guid, Some(Ipv4::new(203, 0, 113, 1))),
        format!("tap_name={guid}\ntap_route=203.0.113.1\n")
    );
}

#[test]
fn state_round_trip() {
    let guid = "{6F3A9C1E-0000-4B2D-9A51-1234567890AB}";
    let route = Ipv4::new(203, 0, 113, 1);
    assert_eq!(plan_of(&state_content(guid, Some(route))), (Some(guid.to_string()), None, Some(route)));
    assert_eq!(plan_of(&state_content(guid, None)), (Some(guid.to_string()), None, None));
    assert_eq!(plan_of(&state_content("a=b", None)), (Some("a=b".to_string()), None, None));
    assert_eq!(plan_of(&state_content("", None)), (Some(String::new()), None, None));
}

#[test]
fn state_without_name_is_dropped() {
    assert_eq!(plan_of(""), (None, None, None));
    assert_eq!(plan_of("tap_route=1.2.3.4\n"), (None, None, None));
    assert_eq!(plan_of("garbage\nmore"), (None, None, None));
}

#[test]
fn state_later_lines_override() {
    assert_eq!(plan_of("tap_name=a\ntap_name=b\n"), (Some("b".to_string()), None, None));
    assert_eq!(
        plan_of("tap_route=1.1.1.1\ntap_name=x\ntap_route=2.2.2.2"),
        (Some("x".to_string()), None, Some(Ipv4::new(2, 2, 2, 2)))
    );
}

#[test]
fn state_line_endings() {
    assert_eq!(plan_of("tap_name=a\r\ntap_route=9.9.9.9\r\n"), (Some("a".to_string()), None, Some(Ipv4::new(9, 9, 9, 9))));
    // A bare carriage return is part of the value.
    assert_eq!(plan_of("tap_name=a\r"), (Some("a\r".to_string()), None, None));
    assert_eq!(plan_of("\n\ntap_name=z"), (Some("z".to_string()), None, None));
}

#[test]
fn state_bad_route_is_reported() {
    assert_eq!(plan_of("tap_name=a\ntap_route=bad\n"), (Some("a".to_string()), Some("bad".to_string()), None));
    assert_eq!(plan_of("tap_name=a\ntap_route= 1.2.3.4\n"), (Some("a".to_string()), Some(" 1.2.3.4".to_string()), None));
}

#[test]
fn state_keys_are_exact() {
    assert_eq!(plan_of("TAP_NAME=a\n"), (None, None, None));
    assert_eq!(plan_of("tap_name =a\n"), (None, None, None));
}

fn steps_of(text: &str) -> Vec<String> {
    residue_steps(residue_plan(text))
        .into_iter()
        .map(|s| match s {
            ResidueStep::ReportMissingTapName => "missing".to_string(),
            ResidueStep::DeleteHostRoute(ip) => format!("route {}.{}.{}.{}", ip.a, ip.b, ip.c, ip.d),
            ResidueStep::ReportUnparsableRoute(t) => format!("bad {t}"),
            ResidueStep::DeleteTap(g) => format!("tap {g}"),
            ResidueStep::RemoveStateFile => "file".to_string(),
        })
        .collect()
}

#[test]
fn residue_cleanup_order() {
    assert_eq!(steps_of("tap_name=g\ntap_route=203.0.113.1\n"), vec!["route 203.0.113.1", "tap g", "file"]);
    assert_eq!(steps_of("tap_name=g\n"), vec!["tap g", "file"]);
    assert_eq!(steps_of("tap_name=g\ntap_route=x\n"), vec!["bad x", "tap g", "file"]);
    assert_eq!(steps_of("tap_route=1.2.3.4\n"), vec!["missing", "file"]);
}
