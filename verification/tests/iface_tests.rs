use l2portal::iface::{
    adapter_entry, c_bytes_to_string, extract_guid, find_iface_by_pcap_name, get_friendly_name, interface_table_header,
    interface_table_row, list_interfaces_from, resolve_iface, AdapterMap, CaptureDevice, IfaceError, IfaceInfo,
    WinAdapterMeta,
};
use l2portal::net::Ipv4;

fn info(pcap: &str, idx: u32, friendly: &str, desc: &str, ip: Option<Ipv4>) -> IfaceInfo {
    IfaceInfo {
        pcap_name: pcap.to_string(),
        if_index: idx,
        friendly_name: friendly.to_string(),
        description: desc.to_string(),
        ip,
    }
}

fn sample() -> Vec<IfaceInfo> {
    vec![
        info("\\Device\\NPF_{AAA}", 8, "Ethernet", "Intel(R) Ethernet", Some(Ipv4::new(192, 168, 1, 10))),
        info("\\Device\\NPF_{BBB}", 12, "Wi-Fi", "Wireless", None),
        info("\\Device\\NPF_{CCC}", 12, "Ethernet 2", "Second", None),
    ]
}

#[test]
fn guid_extraction() {
    assert_eq!(extract_guid("\\Device\\NPF_{6F3A-99}"), Some("6F3A-99".to_string()));
    assert_eq!(extract_guid("\\Device\\NPF_{}"), None);
    assert_eq!(extract_guid("\\Device\\NPF_Loopback"), None);
    assert_eq!(extract_guid("}x{"), None);
    assert_eq!(extract_guid("a{b}c}"), Some("b".to_string()));
}

#[test]
fn c_strings_stop_at_nul() {
    assert_eq!(c_bytes_to_string(b"abc\0def"), "abc");
    assert_eq!(c_bytes_to_string(b"abc"), "abc");
    assert_eq!(c_bytes_to_string(b"\0abc"), "");
    assert_eq!(c_bytes_to_string(b"a\xffb\0"), "a\u{fffd}b");
    assert_eq!(get_friendly_name(&[0x45, 0x74, 0x68, 0, 0x41]), "Eth");
    assert_eq!(get_friendly_name(&[0xD800, 0x41]), "\u{fffd}A");
    assert_eq!(get_friendly_name(&[]), "");
    // A surrogate pair is one character; a lone low surrogate is replaced.
    assert_eq!(get_friendly_name(&[0xD83D, 0xDE00, 0x21]), "\u{1F600}!");
    assert_eq!(get_friendly_name(&[0xDC00, 0xD800]), "\u{fffd}\u{fffd}");
    assert_eq!(get_friendly_name(&[0xD800, 0xD800, 0xDC00]), "\u{fffd}\u{10000}");
}

#[test]
fn adapter_entries() {
    let e = adapter_entry(b"{6f3a-aa}\0junk", b"Intel NIC\0", b"192.168.1.10\0", 8, Some("Ethernet".to_string()));
    assert_eq!(e.guid, "6F3A-AA");
    assert_eq!(e.meta.if_index, 8);
    assert_eq!(e.meta.description, "Intel NIC");
    assert_eq!(e.meta.friendly_name, "Ethernet");
    assert_eq!(e.meta.ip, Some(Ipv4::new(192, 168, 1, 10)));
    let e = adapter_entry(b"{{x}}", b"Desc", b"0.0.0.0", 3, None);
    assert_eq!(e.guid, "X");
    assert_eq!(e.meta.friendly_name, "Desc");
    assert_eq!(e.meta.ip, None);
    let e = adapter_entry(b"x", b"", b"not-an-ip", 3, None);
    assert_eq!(e.meta.ip, None);
}

fn meta(idx: u32, name: &str) -> WinAdapterMeta {
    WinAdapterMeta { if_index: idx, friendly_name: name.to_string(), description: format!("{name} desc"), ip: None }
}

#[test]
fn adapter_map_latest_wins() {
    let mut m = AdapterMap::new();
    assert!(m.get("A").is_none());
    m.insert("A".to_string(), meta(1, "one"));
    m.insert("B".to_string(), meta(2, "two"));
    assert_eq!(m.get("A").map(|x| x.if_index), Some(1));
    m.insert("A".to_string(), meta(3, "three"));
    assert_eq!(m.get("A").map(|x| x.if_index), Some(3));
    assert_eq!(m.get("B").map(|x| x.if_index), Some(2));
    assert!(m.get("a").is_none());
}

#[test]
fn interfaces_are_enriched() {
    let mut m = AdapterMap::new();
    m.insert("AAA-1".to_string(), WinAdapterMeta {
        if_index: 8,
        friendly_name: "Ethernet".to_string(),
        description: "Intel".to_string(),
        ip: Some(Ipv4::new(10, 0, 0, 2)),
    });
    let devices = vec![
        CaptureDevice { name: "\\Device\\NPF_{aaa-1}".to_string(), desc: Some("npcap desc".to_string()) },
        CaptureDevice { name: "\\Device\\NPF_Loopback".to_string(), desc: Some("Loopback".to_string()) },
        CaptureDevice { name: "\\Device\\NPF_{ZZZ}".to_string(), desc: None },
    ];
    let list = list_interfaces_from(&devices, &m);
    assert_eq!(list.len(), 3);
    assert_eq!(list[0].pcap_name, "\\Device\\NPF_{aaa-1}");
    assert_eq!(list[0].if_index, 8);
    assert_eq!(list[0].friendly_name, "Ethernet");
    assert_eq!(list[0].description, "Intel");
    assert_eq!(list[0].ip, Some(Ipv4::new(10, 0, 0, 2)));
    assert_eq!(list[1].if_index, 0);
    assert_eq!(list[1].friendly_name, "");
    assert_eq!(list[1].description, "Loopback");
    assert_eq!(list[1].ip, None);
    assert_eq!(list[2].description, "");
}

#[test]
fn resolve_by_npf_path() {
    let ifs = sample();
    assert_eq!(resolve_iface("\\Device\\NPF_{bbb}", &ifs).ok(), Some("\\Device\\NPF_{bbb}".to_string()));
    assert!(matches!(resolve_iface("\\Device\\NPF_{ZZZ}", &ifs), Err(IfaceError::NpfNotFound(s)) if s == "\\Device\\NPF_{ZZZ}"));
}

#[test]
fn resolve_by_index() {
    let ifs = sample();
    assert_eq!(resolve_iface("8", &ifs).ok(), Some("\\Device\\NPF_{AAA}".to_string()));
    assert_eq!(resolve_iface("12", &ifs).ok(), Some("\\Device\\NPF_{BBB}".to_string()));
    assert_eq!(resolve_iface("+8", &ifs).ok(), Some("\\Device\\NPF_{AAA}".to_string()));
    assert!(matches!(resolve_iface("99", &ifs), Err(IfaceError::NoIfIndex(99))));
}

#[test]
fn resolve_by_friendly_name() {
    let ifs = sample();
    assert_eq!(resolve_iface("ETHERNET", &ifs).ok(), Some("\\Device\\NPF_{AAA}".to_string()));
    assert_eq!(resolve_iface("ethernet 2", &ifs).ok(), Some("\\Device\\NPF_{CCC}".to_string()));
    assert_eq!(resolve_iface("WI-FI", &ifs).ok(), Some("\\Device\\NPF_{BBB}".to_string()));
    assert!(matches!(resolve_iface("nope", &ifs), Err(IfaceError::NoMatch(s)) if s == "nope"));
    assert!(matches!(resolve_iface("Intel(R) Ethernet", &ifs), Err(IfaceError::NoMatch(_))));
}

#[test]
fn iface_error_messages() {
    assert_eq!(
        IfaceError::NpfNotFound("X".into()).message(),
        "[ERROR] iface: NPF device 'X' not found in pcap device list"
    );
    assert_eq!(IfaceError::NoIfIndex(7).message(), "[ERROR] iface: no interface with ifIndex 7 found");
    assert_eq!(
        IfaceError::NoMatch("q".into()).message(),
        "[ERROR] iface: 'q' did not match any interface by name or index. Run --list to see available interfaces."
    );
}

#[test]
fn find_by_pcap_name() {
    let ifs = sample();
    assert_eq!(find_iface_by_pcap_name("\\Device\\NPF_{CCC}", &ifs), Some(2));
    assert_eq!(find_iface_by_pcap_name("\\device\\npf_{ccc}", &ifs), Some(2));
    assert_eq!(find_iface_by_pcap_name("\\Device\\NPF_{DDD}", &ifs), None);
}

#[test]
fn table_header() {
    let h = interface_table_header();
    assert_eq!(h[0], format!("  {:>6}  {:<20}  {:<40}  {}", "ifIdx", "Name", "Description", "IP"));
    assert_eq!(h[1], format!("  {:->6}  {:-<20}  {:-<40}  {:-<15}", "", "", "", ""));
}

#[test]
fn table_rows() {
    let i = info("p", 8, "Ethernet", "Intel(R) Ethernet", Some(Ipv4::new(192, 168, 1, 10)));
    assert_eq!(
        interface_table_row(&i),
        format!("  {:>6}  {:<20}  {:<40}  {}", 8, "Ethernet", "Intel(R) Ethernet", "192.168.1.10")
    );
    let long = "An adapter description that is far too long to fit";
    let i = info("p", 1234567, "", long, None);
    assert_eq!(
        interface_table_row(&i),
        format!("  {:>6}  {:<20}  {:<40}  {}", 1234567, long, format!("{}…", &long[..39]), "-")
    );
    let exact = "x".repeat(40);
    let i = info("p", 1, "Näme", &exact, None);
    assert_eq!(interface_table_row(&i), format!("  {:>6}  {:<20}  {:<40}  {}", 1, "Näme", exact, "-"));
    let wide = format!("{}é{}", "a".repeat(37), "b".repeat(10));
    let i = info("p", 1, "n", &wide, None);
    assert_eq!(interface_table_row(&i), format!("  {:>6}  {:<20}  {:<40}  {}", 1, "n", format!("{}…", &wide[..39]), "-"));
}
