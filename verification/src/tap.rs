//! TAP-Windows6 adapter lifecycle: the tapctl and netsh command lines, and
//! reading back what tapctl and PowerShell report.
use vstd::prelude::*;

use crate::net;
use crate::net::Ipv4;
use crate::text;

verus! {

/// The hardware id of the TAP-Windows6 driver.
pub open spec fn tap_hwid() -> Seq<char> {
    "root\\tap0901"@
}

/// The arguments of `tapctl.exe` that create an adapter, named when a name is requested.
pub fn tapctl_create_args(requested_name: Option<&str>) -> (r: Vec<String>)
    ensures
        r.deep_view() == seq!["create"@, "--hwid"@, tap_hwid()] + match requested_name {
            Some(n) => seq!["--name"@, n@],
            None => Seq::empty(),
        },
{
    let mut r: Vec<String> = Vec::new();
    r.push(String::from_str("create"));
    r.push(String::from_str("--hwid"));
    r.push(String::from_str("root\\tap0901"));
    if let Some(name) = requested_name {
        r.push(String::from_str("--name"));
        r.push(String::from_str(name));
    }
    assert(r.deep_view() =~= seq!["create"@, "--hwid"@, tap_hwid()] + match requested_name {
        Some(n) => seq!["--name"@, n@],
        None => Seq::empty(),
    });
    r
}

/// The arguments of `tapctl.exe` that remove the adapter with this GUID.
pub fn tapctl_remove_args(guid: &str) -> (r: Vec<String>)
    ensures
        r.deep_view() == seq!["remove"@, guid@],
{
    let mut r: Vec<String> = Vec::new();
    r.push(String::from_str("remove"));
    r.push(String::from_str(guid));
    assert(r.deep_view() =~= seq!["remove"@, guid@]);
    r
}

/// The arguments of `netsh` that set a persistent MTU of 1400 on the adapter.
pub fn netsh_mtu_args(name: &str) -> (r: Vec<String>)
    ensures
        r.deep_view() == seq![
            "interface"@,
            "ipv4"@,
            "set"@,
            "subinterface"@,
            name@,
            "mtu=1400"@,
            "store=persistent"@,
        ],
{
    let mut r: Vec<String> = Vec::new();
    r.push(String::from_str("interface"));
    r.push(String::from_str("ipv4"));
    r.push(String::from_str("set"));
    r.push(String::from_str("subinterface"));
    r.push(String::from_str(name));
    r.push(String::from_str("mtu=1400"));
    r.push(String::from_str("store=persistent"));
    assert(r.deep_view() =~= seq![
        "interface"@,
        "ipv4"@,
        "set"@,
        "subinterface"@,
        name@,
        "mtu=1400"@,
        "store=persistent"@,
    ]);
    r
}

/// The arguments of `netsh` that give the adapter the static address
/// `ip` with the mask of prefix length `prefix`.
pub fn netsh_set_address_args(name: &str, ip: Ipv4, prefix: u8) -> (r: Vec<String>)
    requires
        prefix <= 32,
    ensures
        r.deep_view() == seq![
            "interface"@,
            "ip"@,
            "set"@,
            "address"@,
            name@,
            "static"@,
            net::ipv4_text(ip),
            net::ipv4_text(net::ipv4_of_bits(net::mask_bits(prefix))),
        ],
{
    let mask = net::prefix_to_mask(prefix);
    let mut r: Vec<String> = Vec::new();
    r.push(String::from_str("interface"));
    r.push(String::from_str("ip"));
    r.push(String::from_str("set"));
    r.push(String::from_str("address"));
    r.push(String::from_str(name));
    r.push(String::from_str("static"));
    r.push(net::format_ipv4(ip));
    r.push(net::format_ipv4(mask));
    assert(r.deep_view() =~= seq![
        "interface"@,
        "ip"@,
        "set"@,
        "address"@,
        name@,
        "static"@,
        net::ipv4_text(ip),
        net::ipv4_text(mask),
    ]);
    r
}

/// The arguments of `netsh` that switch the adapter back to DHCP.
pub fn netsh_dhcp_args(name: &str) -> (r: Vec<String>)
    ensures
        r.deep_view() == seq!["interface"@, "ip"@, "set"@, "address"@, name@, "dhcp"@],
{
    let mut r: Vec<String> = Vec::new();
    r.push(String::from_str("interface"));
    r.push(String::from_str("ip"));
    r.push(String::from_str("set"));
    r.push(String::from_str("address"));
    r.push(String::from_str(name));
    r.push(String::from_str("dhcp"));
    assert(r.deep_view() =~= seq!["interface"@, "ip"@, "set"@, "address"@, name@, "dhcp"@]);
    r
}

/// The braced GUID in a line: from its first `{` to its first `}`, when the
/// latter comes later.
pub open spec fn guid_in_line(t: Seq<char>) -> Option<Seq<char>> {
    let o = text::index_of(t, '{');
    let c = text::index_of(t, '}');
    if o < t.len() && c < t.len() && c > o {
        Some(t.subrange(o, c + 1))
    } else {
        None
    }
}

/// The GUID of the first line that holds one, lines taken trimmed and empty
/// lines skipped.
pub open spec fn first_guid(ls: Seq<Seq<char>>) -> Option<Seq<char>>
    decreases ls.len(),
{
    if ls.len() == 0 {
        None
    } else {
        let t = text::trim(ls[0]);
        if t.len() > 0 && guid_in_line(t) is Some {
            guid_in_line(t)
        } else {
            first_guid(ls.drop_first())
        }
    }
}

/// Why a TAP adapter could not be set up.
pub enum TapError {
    /// `tapctl create` printed no braced GUID.
    AdapterGuidMissing,
    /// No adapter name could be found for this GUID.
    NameUnresolved(String),
}

pub enum TapErrorView {
    AdapterGuidMissing,
    NameUnresolved(Seq<char>),
}

impl View for TapError {
    type V = TapErrorView;

    open spec fn view(&self) -> TapErrorView {
        match self {
            TapError::AdapterGuidMissing => TapErrorView::AdapterGuidMissing,
            TapError::NameUnresolved(g) => TapErrorView::NameUnresolved(g@),
        }
    }
}

impl TapError {
    /// The message the program prints for this error.
    pub fn message(&self) -> (r: String)
        ensures
            r@ == match self@ {
                TapErrorView::AdapterGuidMissing => "tapctl create output did not include adapter GUID"@,
                TapErrorView::NameUnresolved(g) => "unable to resolve adapter name for GUID '"@ + g
                    + "' after TAP creation"@,
            },
    {
        match self {
            TapError::AdapterGuidMissing => String::from_str(
                "tapctl create output did not include adapter GUID",
            ),
            TapError::NameUnresolved(g) => {
                let mut r = String::from_str("unable to resolve adapter name for GUID '");
                r.append(g.as_str());
                r.append("' after TAP creation");
                r
            },
        }
    }
}

/// Reads the GUID of the created adapter from what `tapctl create` printed.
pub fn parse_created_adapter(stdout: &str) -> (r: Result<String, TapError>)
    ensures
        match first_guid(text::lines(stdout@)) {
            Some(g) => r matches Ok(s) && s@ == g,
            None => r matches Err(TapError::AdapterGuidMissing),
        },
{
    let v = text::chars_of(stdout);
    let n = v.len();
    let mut pos: usize = 0;
    assert(v@.skip(0) =~= v@);
    while pos < n
        invariant
            v@ == stdout@,
            n == v@.len(),
            pos <= n,
            first_guid(text::lines(stdout@)) == first_guid(text::lines(v@.skip(pos as int))),
        decreases n - pos,
    {
        let (end, next) = text::line_at(v.as_slice(), pos);
        let ghost line = v@.subrange(pos as int, end as int);
        let ghost ls = text::lines(v@.skip(pos as int));
        assert(ls.drop_first() =~= text::lines(v@.skip(next as int)));
        assert(ls[0] == line);
        let (a, b) = text::strip_bounds(v.as_slice(), pos, end, text::CharClass::Whitespace);
        let ghost t = v@.subrange(a as int, b as int);
        if a < b {
            let open = text::find_char(v.as_slice(), a, b, '{');
            let close = text::find_char(v.as_slice(), a, b, '}');
            if open < b && close < b && close > open {
                assert(t.subrange(open - a, close - a + 1) =~= v@.subrange(open as int, close + 1));
                return Ok(text::string_from(v.as_slice(), open, close + 1));
            }
        }
        pos = next;
    }
    assert(v@.skip(n as int) =~= Seq::<char>::empty());
    Err(TapError::AdapterGuidMissing)
}

/// The PowerShell script that prints the name of the adapter with this GUID.
pub open spec fn adapter_name_script_text(guid: Seq<char>) -> Seq<char> {
    "$adapter = Get-NetAdapter -IncludeHidden | Where-Object { $_.InterfaceGuid -eq '"@ + guid
        + "' } | Select-Object -First 1 -ExpandProperty Name; if ($adapter) { Write-Output $adapter }"@
}

/// The PowerShell script that prints the name of the adapter with this GUID.
pub fn adapter_name_script(guid: &str) -> (r: String)
    ensures
        r@ == adapter_name_script_text(guid@),
{
    let mut r = String::from_str(
        "$adapter = Get-NetAdapter -IncludeHidden | Where-Object { $_.InterfaceGuid -eq '",
    );
    r.append(guid);
    r.append(
        "' } | Select-Object -First 1 -ExpandProperty Name; if ($adapter) { Write-Output $adapter }",
    );
    r
}

/// The adapter name PowerShell printed: its output decoded lossily and
/// trimmed; `None` when nothing is left.
pub fn adapter_name_from_output(stdout: &[u8]) -> (r: Option<String>)
    ensures
        ({
            let t = text::trim(text::utf8_lossy(stdout@));
            if t.len() == 0 {
                r is None
            } else {
                r matches Some(s) && s@ == t
            }
        }),
        vstd::utf8::valid_utf8(stdout@) ==> ({
            let t = text::trim(vstd::utf8::decode_utf8(stdout@));
            if t.len() == 0 {
                r is None
            } else {
                r matches Some(s) && s@ == t
            }
        }),
{
    let out = text::decode_utf8_lossy(stdout);
    let v = text::chars_of(out.as_str());
    assert(v@.subrange(0, v@.len() as int) =~= v@);
    let (a, b) = text::strip_bounds(v.as_slice(), 0, v.len(), text::CharClass::Whitespace);
    if a == b {
        None
    } else {
        Some(text::string_from(v.as_slice(), a, b))
    }
}

/// How many times the adapter name is looked up after creation.
pub const NAME_LOOKUP_ATTEMPTS: u32 = 20;

/// The pause after each unsuccessful name lookup, in milliseconds.
pub const NAME_LOOKUP_DELAY_MS: u64 = 200;

/// What to do after a name lookup.
pub enum LookupStep {
    /// The adapter has this name.
    Found(String),
    /// Pause, then look again.
    PauseAndRetry,
    /// Pause, then give up: the name is unresolved.
    PauseAndGiveUp,
}

/// Decides what follows the `attempt`-th name lookup (counted from 1), which
/// found `found`: a name ends the search; otherwise the lookup is retried after
/// a pause until `NAME_LOOKUP_ATTEMPTS` attempts have been made.
pub fn name_lookup_step(attempt: u32, found: Option<String>) -> (r: LookupStep)
    requires
        1 <= attempt <= NAME_LOOKUP_ATTEMPTS,
    ensures
        match found {
            Some(n) => r matches LookupStep::Found(m) && m == n,
            None => if attempt < NAME_LOOKUP_ATTEMPTS {
                r matches LookupStep::PauseAndRetry
            } else {
                r matches LookupStep::PauseAndGiveUp
            },
        },
{
    match found {
        Some(n) => LookupStep::Found(n),
        None => if attempt < NAME_LOOKUP_ATTEMPTS {
            LookupStep::PauseAndRetry
        } else {
            LookupStep::PauseAndGiveUp
        },
    }
}

} // verus!
