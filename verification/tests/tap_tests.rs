use l2portal::net::Ipv4;
use l2portal::tap::{
    adapter_name_from_output, adapter_name_script, name_lookup_step, netsh_dhcp_args, netsh_mtu_args,
    netsh_set_address_args, parse_created_adapter, tapctl_create_args, tapctl_remove_args, LookupStep, TapError,
    NAME_LOOKUP_ATTEMPTS,
};

#[test]
fn tapctl_command_lines() {
    assert_eq!(tapctl_create_args(None), vec!["create", "--hwid", "root\\tap0901"]);
    assert_eq!(
        tapctl_create_args(Some("tap-ot")),
        vec!["create", "--hwid", "root\\tap0901", "--name", "tap-ot"]
    );
    assert_eq!(tapctl_remove_args("{G}"), vec!["remove", "{G}"]);
}

#[test]
fn netsh_command_lines() {
    assert_eq!(
        netsh_mtu_args("tap-ot"),
        vec!["interface", "ipv4", "set", "subinterface", "tap-ot", "mtu=1400", "store=persistent"]
    );
    assert_eq!(
        netsh_set_address_args("tap-ot", Ipv4::new(192, 168, 10, 50), 24),
        vec!["interface", "ip", "set", "address", "tap-ot", "static", "192.168.10.50", "255.255.255.0"]
    );
    assert_eq!(
        netsh_set_address_args("t", Ipv4::new(10, 1, 2, 3), 0),
        vec!["interface", "ip", "set", "address", "t", "static", "10.1.2.3", "0.0.0.0"]
    );
    assert_eq!(netsh_dhcp_args("tap-ot"), vec!["interface", "ip", "set", "address", "tap-ot", "dhcp"]);
}

#[test]
fn created_adapter_guid_is_found() {
    let out = "\r\n  {6F3A9C1E-0000-4B2D-9A51-1234567890AB}  tap-ot\r\n";
    assert_eq!(parse_created_adapter(out).ok(), Some("{6F3A9C1E-0000-4B2D-9A51-1234567890AB}".to_string()));
    let out = "Creating adapter\nmisordered } {\nGUID: {ABC} name\n{DEF}\n";
    assert_eq!(parse_created_adapter(out).ok(), Some("{ABC}".to_string()));
    assert_eq!(parse_created_adapter("{}").ok(), Some("{}".to_string()));
}

#[test]
fn created_adapter_without_guid() {
    assert!(matches!(parse_created_adapter(""), Err(TapError::AdapterGuidMissing)));
    assert!(matches!(parse_created_adapter("no braces\n\n"), Err(TapError::AdapterGuidMissing)));
    assert!(matches!(parse_created_adapter("} {"), Err(TapError::AdapterGuidMissing)));
}

#[test]
fn tap_error_messages() {
    assert_eq!(TapError::AdapterGuidMissing.message(), "tapctl create output did not include adapter GUID");
    assert_eq!(
        TapError::NameUnresolved("{G}".into()).message(),
        "unable to resolve adapter name for GUID '{G}' after TAP creation"
    );
}

#[test]
fn adapter_name_lookup_script() {
    assert_eq!(
        adapter_name_script("{G}"),
        "$adapter = Get-NetAdapter -IncludeHidden | Where-Object { $_.InterfaceGuid -eq '{G}' } | Select-Object -First 1 -ExpandProperty Name; if ($adapter) { Write-Output $adapter }"
    );
}

#[test]
fn adapter_name_output_is_trimmed_and_decoded() {
    assert_eq!(adapter_name_from_output(b"  Ethernet 3\r\n"), Some("Ethernet 3".to_string()));
    assert_eq!(adapter_name_from_output(b"\r\n \t"), None);
    assert_eq!(adapter_name_from_output(b""), None);
    assert_eq!(adapter_name_from_output(b"tap\xff\n"), Some("tap\u{fffd}".to_string()));
}

#[test]
fn name_lookup_retries_then_gives_up() {
    assert!(matches!(name_lookup_step(1, Some("n".into())), LookupStep::Found(n) if n == "n"));
    assert!(matches!(name_lookup_step(1, None), LookupStep::PauseAndRetry));
    assert!(matches!(name_lookup_step(19, None), LookupStep::PauseAndRetry));
    assert!(matches!(name_lookup_step(NAME_LOOKUP_ATTEMPTS, None), LookupStep::PauseAndGiveUp));
    assert!(matches!(name_lookup_step(20, Some("x".into())), LookupStep::Found(n) if n == "x"));
}
