use l2portal::cli::{
    capture_filter, parse_local, parse_remote, parse_tap_arg, parse_tap_name, select_mode,
    tunnel_endpoints, Args, ArgsError, Endpoints, Mode, TapArgError,
};
use l2portal::client::client_params;
use l2portal::net::{Endpoint, Ipv4, ParsedAddr};

fn args(iface: Option<&str>, tap: Option<&str>, local: Option<&str>, remote: Option<&str>) -> Args {
    Args {
        list: false,
        iface: iface.map(|s| s.to_string()),
        tap: tap.map(|s| s.to_string()),
        local: local.map(|s| s.to_string()),
        remote: remote.map(|s| s.to_string()),
    }
}

fn ep(a: u8, b: u8, c: u8, d: u8, port: u16) -> Endpoint {
    Endpoint { ip: Ipv4::new(a, b, c, d), port }
}

#[test]
fn tap_name_auto_is_any_case() {
    assert_eq!(parse_tap_name("auto"), None);
    assert_eq!(parse_tap_name("AuTo"), None);
    assert_eq!(parse_tap_name("tap-ot"), Some("tap-ot".to_string()));
    assert_eq!(parse_tap_name("autox"), Some("autox".to_string()));
    assert_eq!(parse_tap_name(""), Some(String::new()));
}

#[test]
fn tap_arg_with_address() {
    let t = parse_tap_arg("tap-ot:192.168.10.50/24").ok().unwrap();
    assert_eq!(t.name, Some("tap-ot".to_string()));
    assert_eq!(t.ip_prefix, Some((Ipv4::new(192, 168, 10, 50), 24)));
    let t = parse_tap_arg("auto:192.168.10.50/24").ok().unwrap();
    assert_eq!(t.name, None);
    let t = parse_tap_arg("x:10.0.0.1/+8").ok().unwrap();
    assert_eq!(t.ip_prefix, Some((Ipv4::new(10, 0, 0, 1), 8)));
    let t = parse_tap_arg("x:10.0.0.1/32").ok().unwrap();
    assert_eq!(t.ip_prefix, Some((Ipv4::new(10, 0, 0, 1), 32)));
}

#[test]
fn tap_arg_name_only() {
    let t = parse_tap_arg("tap-ot").ok().unwrap();
    assert_eq!(t.name, Some("tap-ot".to_string()));
    assert_eq!(t.ip_prefix, None);
    let t = parse_tap_arg("AUTO").ok().unwrap();
    assert_eq!(t.name, None);
}

#[test]
fn tap_arg_errors() {
    assert!(matches!(parse_tap_arg("tap-ot:192.168.10.50"), Err(TapArgError::MissingPrefix)));
    assert!(matches!(parse_tap_arg("x:1.2.3/24"), Err(TapArgError::InvalidIp(s)) if s == "1.2.3"));
    assert!(matches!(parse_tap_arg("x:1.2.3.4/abc"), Err(TapArgError::InvalidPrefix(s)) if s == "abc"));
    assert!(matches!(parse_tap_arg("x:1.2.3.4/256"), Err(TapArgError::InvalidPrefix(s)) if s == "256"));
    assert!(matches!(parse_tap_arg("x:1.2.3.4/33"), Err(TapArgError::PrefixTooLarge(33))));
    assert!(matches!(parse_tap_arg("x:bad/99"), Err(TapArgError::InvalidIp(s)) if s == "bad"));
}

#[test]
fn tap_arg_error_messages() {
    assert_eq!(
        TapArgError::MissingPrefix.message(),
        "[ERROR] main: --tap IP/prefix format must be IP/prefix, e.g. 192.168.10.50/24"
    );
    assert_eq!(TapArgError::InvalidIp("1.2".into()).message(), "[ERROR] main: invalid TAP IP '1.2'");
    assert_eq!(TapArgError::InvalidPrefix("q".into()).message(), "[ERROR] main: invalid prefix 'q'");
    assert_eq!(TapArgError::PrefixTooLarge(40).message(), "[ERROR] main: prefix 40 exceeds 32");
}

#[test]
fn endpoints_are_read() {
    let a = args(None, None, Some("0.0.0.0:4789"), Some("203.0.113.10:4789"));
    let e = tunnel_endpoints(&a, false, false).ok().unwrap();
    assert_eq!(e, Endpoints { local: ep(0, 0, 0, 0, 4789), remote: ep(203, 0, 113, 10, 4789) });
}

#[test]
fn endpoint_errors_in_order() {
    let a = args(None, None, None, None);
    assert!(matches!(tunnel_endpoints(&a, false, false), Err(ArgsError::LocalMissing)));
    let a = args(None, None, Some("0.0.0.0:1"), None);
    assert!(matches!(tunnel_endpoints(&a, false, false), Err(ArgsError::RemoteMissing)));
    let a = args(None, None, Some("nope"), Some("also-bad"));
    assert!(matches!(tunnel_endpoints(&a, false, false), Err(ArgsError::InvalidLocal(s)) if s == "nope"));
    let a = args(None, None, Some("[::1]:1"), Some("also-bad"));
    assert!(matches!(tunnel_endpoints(&a, true, false), Err(ArgsError::InvalidRemote(s)) if s == "also-bad"));
    let a = args(None, None, Some("[::1]:1"), Some("[::2]:2"));
    assert!(matches!(tunnel_endpoints(&a, true, true), Err(ArgsError::LocalNotIpv4)));
    let a = args(None, None, Some("1.1.1.1:1"), Some("[::2]:2"));
    assert!(matches!(tunnel_endpoints(&a, false, true), Err(ArgsError::RemoteNotIpv4)));
}

#[test]
fn local_and_remote_parsing() {
    assert!(matches!(parse_local("1.2.3.4:5", false), Ok(ParsedAddr::V4(e)) if e == ep(1, 2, 3, 4, 5)));
    assert!(matches!(parse_local("x", false), Err(ArgsError::InvalidLocal(s)) if s == "x"));
    assert!(matches!(parse_remote("x", false), Err(ArgsError::InvalidRemote(s)) if s == "x"));
    assert!(matches!(parse_remote("[::1]:9", true), Ok(ParsedAddr::V6)));
}

#[test]
fn args_error_messages() {
    assert_eq!(ArgsError::LocalMissing.message(), "[ERROR] main: --local is required");
    assert_eq!(ArgsError::RemoteMissing.message(), "[ERROR] main: --remote is required");
    assert_eq!(ArgsError::InvalidLocal("q".into()).message(), "[ERROR] main: invalid --local address 'q'");
    assert_eq!(ArgsError::InvalidRemote("q".into()).message(), "[ERROR] main: invalid --remote address 'q'");
    assert_eq!(ArgsError::LocalNotIpv4.message(), "[ERROR] main: --local must be an IPv4 address");
    assert_eq!(ArgsError::RemoteNotIpv4.message(), "[ERROR] main: --remote must be an IPv4 address");
    assert_eq!(ArgsError::ModesConflict.message(), "[ERROR] main: --if and --tap are mutually exclusive");
    assert_eq!(
        ArgsError::NoMode.message(),
        "[ERROR] main: specify --if (server mode), --tap (client mode), or --list"
    );
    assert_eq!(ArgsError::Tap(TapArgError::PrefixTooLarge(99)).message(), "[ERROR] main: prefix 99 exceeds 32");
}

#[test]
fn mode_selection() {
    assert!(matches!(select_mode(&args(Some("Ethernet"), None, None, None)), Ok(Mode::Server(s)) if s == "Ethernet"));
    match select_mode(&args(None, Some("tap-ot:10.0.0.2/24"), None, None)) {
        Ok(Mode::Client(t)) => {
            assert_eq!(t.name, Some("tap-ot".to_string()));
            assert_eq!(t.ip_prefix, Some((Ipv4::new(10, 0, 0, 2), 24)));
        }
        _ => panic!("expected client mode"),
    }
    assert!(matches!(select_mode(&args(Some("a"), Some("b"), None, None)), Err(ArgsError::ModesConflict)));
    assert!(matches!(select_mode(&args(None, None, None, None)), Err(ArgsError::NoMode)));
    assert!(matches!(
        select_mode(&args(None, Some("t:1.2.3.4/40"), None, None)),
        Err(ArgsError::Tap(TapArgError::PrefixTooLarge(40)))
    ));
}

#[test]
fn capture_filter_only_for_shared_nic() {
    let remote = ep(203, 0, 113, 10, 4789);
    assert_eq!(
        capture_filter(5, 5, remote),
        Some(
            "not (udp and ((src host 203.0.113.10 and src port 4789) or (dst host 203.0.113.10 and dst port 4789)))"
                .to_string()
        )
    );
    assert_eq!(capture_filter(5, 6, remote), None);
    assert_eq!(capture_filter(0, 0, remote), None);
    assert_eq!(capture_filter(0, 5, remote), None);
    assert_eq!(capture_filter(5, 0, remote), None);
}

#[test]
fn client_params_default_name_is_auto() {
    let e = Endpoints { local: ep(10, 0, 0, 1, 1), remote: ep(10, 0, 0, 2, 2) };
    let t = parse_tap_arg("auto").ok().unwrap();
    let p = client_params(t, e);
    assert_eq!(p.tap_name, "auto");
    assert_eq!(p.tap_ip_prefix, None);
    assert_eq!(p.local_addr, e.local);
    assert_eq!(p.remote_addr, e.remote);
    let t = parse_tap_arg("tap-ot:192.168.10.50/24").ok().unwrap();
    let p = client_params(t, e);
    assert_eq!(p.tap_name, "tap-ot");
    assert_eq!(p.tap_ip_prefix, Some((Ipv4::new(192, 168, 10, 50), 24)));
}
