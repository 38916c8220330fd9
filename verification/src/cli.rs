//! Command-line arguments: their validation, the choice of mode, and the
//! capture filter that keeps a shared NIC from re-forwarding the tunnel's own
//! packets.
use vstd::prelude::*;

use crate::net;
use crate::net::{Endpoint, Ipv4, ParsedAddr};
use crate::text;
use vstd::string::StrSliceExecFns;

verus! {

/// The command-line arguments.
pub struct Args {
    /// List available capture interfaces and exit.
    pub list: bool,
    /// Server mode: physical interface to capture/inject (friendly name,
    /// ifIndex or NPF device path).
    pub iface: Option<String>,
    /// Client mode: TAP adapter name, optionally with `:IP/prefix`.
    pub tap: Option<String>,
    /// Local UDP bind address `IP:PORT`.
    pub local: Option<String>,
    /// Remote UDP peer address `IP:PORT`.
    pub remote: Option<String>,
}

/// The parts of a `--tap` argument.
pub struct TapArg {
    /// The adapter name; `None` lets tapctl choose it (`auto`).
    pub name: Option<String>,
    /// The static address and prefix length to configure, if given.
    pub ip_prefix: Option<(Ipv4, u8)>,
}

pub struct TapArgView {
    pub name: Option<Seq<char>>,
    pub ip_prefix: Option<(Ipv4, u8)>,
}

impl View for TapArg {
    type V = TapArgView;

    open spec fn view(&self) -> TapArgView {
        TapArgView { name: self.name.deep_view(), ip_prefix: self.ip_prefix }
    }
}

/// Why a `--tap` argument was refused.
pub enum TapArgError {
    /// A `:` was given without `IP/prefix` after it.
    MissingPrefix,
    /// The text before `/` is not an IPv4 address.
    InvalidIp(String),
    /// The text after `/` is not a number from 0 to 255.
    InvalidPrefix(String),
    /// The prefix length is above 32.
    PrefixTooLarge(u8),
}

pub enum TapArgErrorView {
    MissingPrefix,
    InvalidIp(Seq<char>),
    InvalidPrefix(Seq<char>),
    PrefixTooLarge(u8),
}

impl View for TapArgError {
    type V = TapArgErrorView;

    open spec fn view(&self) -> TapArgErrorView {
        match self {
            TapArgError::MissingPrefix => TapArgErrorView::MissingPrefix,
            TapArgError::InvalidIp(s) => TapArgErrorView::InvalidIp(s@),
            TapArgError::InvalidPrefix(s) => TapArgErrorView::InvalidPrefix(s@),
            TapArgError::PrefixTooLarge(p) => TapArgErrorView::PrefixTooLarge(*p),
        }
    }
}

/// The adapter name a `--tap` name part stands for: `auto`, in any ASCII
/// case, leaves the choice to tapctl.
pub open spec fn tap_name_spec(s: Seq<char>) -> Option<Seq<char>> {
    if text::eq_ignore_ascii_case(s, "auto"@) {
        None
    } else {
        Some(s)
    }
}

/// What a `--tap` argument means: `NAME`, or `NAME:IP/PREFIX`.
pub open spec fn tap_arg_spec(s: Seq<char>) -> Result<TapArgView, TapArgErrorView> {
    let k = text::index_of(s, ':');
    if k < s.len() {
        let addr = s.skip(k + 1);
        let m = text::index_of(addr, '/');
        if m < addr.len() {
            let ip_text = addr.take(m);
            let prefix_text = addr.skip(m + 1);
            match net::ipv4_from_text(ip_text) {
                None => Err(TapArgErrorView::InvalidIp(ip_text)),
                Some(ip) => match text::unsigned_value(prefix_text, 255) {
                    None => Err(TapArgErrorView::InvalidPrefix(prefix_text)),
                    Some(p) => if p > 32 {
                        Err(TapArgErrorView::PrefixTooLarge(p as u8))
                    } else {
                        Ok(TapArgView { name: tap_name_spec(s.take(k)), ip_prefix: Some((ip, p as u8)) })
                    },
                },
            }
        } else {
            Err(TapArgErrorView::MissingPrefix)
        }
    } else {
        Ok(TapArgView { name: tap_name_spec(s), ip_prefix: None })
    }
}

/// The adapter name of `v[lo..hi]`; see `tap_name_spec`.
fn tap_name_chars(v: &[char], lo: usize, hi: usize) -> (r: Option<String>)
    requires
        lo <= hi <= v@.len(),
    ensures
        r.deep_view() == tap_name_spec(v@.subrange(lo as int, hi as int)),
{
    let name = text::string_from(v, lo, hi);
    let auto = text::chars_of("auto");
    let nv = text::chars_of(name.as_str());
    if text::chars_eq_ignore_ascii_case(nv.as_slice(), auto.as_slice()) {
        None
    } else {
        Some(name)
    }
}

/// The adapter name a `--tap` name part stands for (`None` for `auto`).
pub fn parse_tap_name(s: &str) -> (r: Option<String>)
    ensures
        r.deep_view() == tap_name_spec(s@),
{
    let v = text::chars_of(s);
    assert(v@.subrange(0, v@.len() as int) =~= v@);
    tap_name_chars(v.as_slice(), 0, v.len())
}

/// Parses a `--tap` argument: `NAME` or `NAME:IP/PREFIX`.
pub fn parse_tap_arg(s: &str) -> (r: Result<TapArg, TapArgError>)
    ensures
        match r {
            Ok(t) => tap_arg_spec(s@) == Ok::<TapArgView, TapArgErrorView>(t@),
            Err(e) => tap_arg_spec(s@) == Err::<TapArgView, TapArgErrorView>(e@),
        },
{
    let v = text::chars_of(s);
    let n = v.len();
    assert(v@.subrange(0, n as int) =~= s@);
    let k = text::find_char(v.as_slice(), 0, n, ':');
    if k == n {
        let name = tap_name_chars(v.as_slice(), 0, n);
        return Ok(TapArg { name, ip_prefix: None });
    }
    let ghost addr = s@.skip(k + 1);
    assert(v@.subrange(k + 1, n as int) =~= addr);
    let m = text::find_char(v.as_slice(), k + 1, n, '/');
    if m == n {
        return Err(TapArgError::MissingPrefix);
    }
    assert(v@.subrange(k + 1, m as int) =~= addr.take(m - k - 1));
    assert(v@.subrange(m + 1, n as int) =~= addr.skip(m - k));
    let ip = match net::parse_ipv4_chars(v.as_slice(), k + 1, m) {
        Some(ip) => ip,
        None => {
            proof {
                net::lemma_ipv4_from_text(addr.take(m - k - 1), None);
            }
            return Err(TapArgError::InvalidIp(text::string_from(v.as_slice(), k + 1, m)));
        },
    };
    proof {
        net::lemma_ipv4_from_text(addr.take(m - k - 1), Some(ip));
    }
    let prefix = match text::parse_unsigned(v.as_slice(), m + 1, n, 255) {
        Some(p) => p as u8,
        None => {
            return Err(TapArgError::InvalidPrefix(text::string_from(v.as_slice(), m + 1, n)));
        },
    };
    if prefix > 32 {
        return Err(TapArgError::PrefixTooLarge(prefix));
    }
    assert(v@.subrange(0, k as int) =~= s@.take(k as int));
    let name = tap_name_chars(v.as_slice(), 0, k);
    Ok(TapArg { name, ip_prefix: Some((ip, prefix)) })
}

impl TapArgError {
    /// The message the program prints for this error.
    pub fn message(&self) -> (r: String)
        ensures
            r@ == match self@ {
                TapArgErrorView::MissingPrefix =>
                    "[ERROR] main: --tap IP/prefix format must be IP/prefix, e.g. 192.168.10.50/24"@,
                TapArgErrorView::InvalidIp(t) => "[ERROR] main: invalid TAP IP '"@ + t + "'"@,
                TapArgErrorView::InvalidPrefix(t) => "[ERROR] main: invalid prefix '"@ + t + "'"@,
                TapArgErrorView::PrefixTooLarge(p) => "[ERROR] main: prefix "@ + text::dec(
                    p as nat,
                ) + " exceeds 32"@,
            },
    {
        match self {
            TapArgError::MissingPrefix => String::from_str(
                "[ERROR] main: --tap IP/prefix format must be IP/prefix, e.g. 192.168.10.50/24",
            ),
            TapArgError::InvalidIp(t) => {
                let mut r = String::from_str("[ERROR] main: invalid TAP IP '");
                r.append(t.as_str());
                r.append("'");
                r
            },
            TapArgError::InvalidPrefix(t) => {
                let mut r = String::from_str("[ERROR] main: invalid prefix '");
                r.append(t.as_str());
                r.append("'");
                r
            },
            TapArgError::PrefixTooLarge(p) => {
                let mut r = String::from_str("[ERROR] main: prefix ");
                text::push_decimal(&mut r, *p as u32);
                r.append(" exceeds 32");
                r
            },
        }
    }
}

/// Why the program's arguments were refused.
pub enum ArgsError {
    /// `--local` is missing.
    LocalMissing,
    /// `--remote` is missing.
    RemoteMissing,
    /// `--local` is not a socket address.
    InvalidLocal(String),
    /// `--remote` is not a socket address.
    InvalidRemote(String),
    /// `--local` is an IPv6 socket address.
    LocalNotIpv4,
    /// `--remote` is an IPv6 socket address.
    RemoteNotIpv4,
    /// Both `--if` and `--tap` were given.
    ModesConflict,
    /// Neither `--if` nor `--tap` was given.
    NoMode,
    /// The `--tap` argument is malformed.
    Tap(TapArgError),
}

pub enum ArgsErrorView {
    LocalMissing,
    RemoteMissing,
    InvalidLocal(Seq<char>),
    InvalidRemote(Seq<char>),
    LocalNotIpv4,
    RemoteNotIpv4,
    ModesConflict,
    NoMode,
    Tap(TapArgErrorView),
}

impl View for ArgsError {
    type V = ArgsErrorView;

    open spec fn view(&self) -> ArgsErrorView {
        match self {
            ArgsError::LocalMissing => ArgsErrorView::LocalMissing,
            ArgsError::RemoteMissing => ArgsErrorView::RemoteMissing,
            ArgsError::InvalidLocal(s) => ArgsErrorView::InvalidLocal(s@),
            ArgsError::InvalidRemote(s) => ArgsErrorView::InvalidRemote(s@),
            ArgsError::LocalNotIpv4 => ArgsErrorView::LocalNotIpv4,
            ArgsError::RemoteNotIpv4 => ArgsErrorView::RemoteNotIpv4,
            ArgsError::ModesConflict => ArgsErrorView::ModesConflict,
            ArgsError::NoMode => ArgsErrorView::NoMode,
            ArgsError::Tap(e) => ArgsErrorView::Tap(e@),
        }
    }
}

impl ArgsError {
    /// The message the program prints for this error.
    pub fn message(&self) -> (r: String)
        ensures
            r@ == match self@ {
                ArgsErrorView::LocalMissing => "[ERROR] main: --local is required"@,
                ArgsErrorView::RemoteMissing => "[ERROR] main: --remote is required"@,
                ArgsErrorView::InvalidLocal(t) => "[ERROR] main: invalid --local address '"@ + t
                    + "'"@,
                ArgsErrorView::InvalidRemote(t) => "[ERROR] main: invalid --remote address '"@
                    + t + "'"@,
                ArgsErrorView::LocalNotIpv4 => "[ERROR] main: --local must be an IPv4 address"@,
                ArgsErrorView::RemoteNotIpv4 => "[ERROR] main: --remote must be an IPv4 address"@,
                ArgsErrorView::ModesConflict => "[ERROR] main: --if and --tap are mutually exclusive"@,
                ArgsErrorView::NoMode =>
                    "[ERROR] main: specify --if (server mode), --tap (client mode), or --list"@,
                ArgsErrorView::Tap(e) => match e {
                    TapArgErrorView::MissingPrefix =>
                        "[ERROR] main: --tap IP/prefix format must be IP/prefix, e.g. 192.168.10.50/24"@,
                    TapArgErrorView::InvalidIp(t) => "[ERROR] main: invalid TAP IP '"@ + t + "'"@,
                    TapArgErrorView::InvalidPrefix(t) => "[ERROR] main: invalid prefix '"@ + t
                        + "'"@,
                    TapArgErrorView::PrefixTooLarge(p) => "[ERROR] main: prefix "@ + text::dec(
                        p as nat,
                    ) + " exceeds 32"@,
                },
            },
    {
        match self {
            ArgsError::LocalMissing => String::from_str("[ERROR] main: --local is required"),
            ArgsError::RemoteMissing => String::from_str("[ERROR] main: --remote is required"),
            ArgsError::InvalidLocal(t) => {
                let mut r = String::from_str("[ERROR] main: invalid --local address '");
                r.append(t.as_str());
                r.append("'");
                r
            },
            ArgsError::InvalidRemote(t) => {
                let mut r = String::from_str("[ERROR] main: invalid --remote address '");
                r.append(t.as_str());
                r.append("'");
                r
            },
            ArgsError::LocalNotIpv4 => String::from_str(
                "[ERROR] main: --local must be an IPv4 address",
            ),
            ArgsError::RemoteNotIpv4 => String::from_str(
                "[ERROR] main: --remote must be an IPv4 address",
            ),
            ArgsError::ModesConflict => String::from_str(
                "[ERROR] main: --if and --tap are mutually exclusive",
            ),
            ArgsError::NoMode => String::from_str(
                "[ERROR] main: specify --if (server mode), --tap (client mode), or --list",
            ),
            ArgsError::Tap(e) => e.message(),
        }
    }
}

/// The local and remote endpoints of the tunnel.
#[derive(Clone, Copy, PartialEq, Eq, Structural, Debug)]
pub struct Endpoints {
    pub local: Endpoint,
    pub remote: Endpoint,
}

/// The outcome of reading `--local` and `--remote`, given whether each parses
/// as an IPv6 socket address: both must be present, both must parse (checked
/// in that order), and then both must be IPv4.
pub open spec fn endpoints_spec(
    local: Option<Seq<char>>,
    remote: Option<Seq<char>>,
    local_is_v6: bool,
    remote_is_v6: bool,
) -> Result<Endpoints, ArgsErrorView> {
    match (local, remote) {
        (None, _) => Err(ArgsErrorView::LocalMissing),
        (Some(_), None) => Err(ArgsErrorView::RemoteMissing),
        (Some(l), Some(r)) => {
            let lv4 = net::socket_v4_from_text(l);
            let rv4 = net::socket_v4_from_text(r);
            if lv4 is None && !local_is_v6 {
                Err(ArgsErrorView::InvalidLocal(l))
            } else if rv4 is None && !remote_is_v6 {
                Err(ArgsErrorView::InvalidRemote(r))
            } else if lv4 is None {
                Err(ArgsErrorView::LocalNotIpv4)
            } else if rv4 is None {
                Err(ArgsErrorView::RemoteNotIpv4)
            } else {
                Ok(Endpoints { local: lv4.unwrap(), remote: rv4.unwrap() })
            }
        },
    }
}

/// Parses the `--local` value, a socket address; `is_v6` says whether it is a
/// valid IPv6 socket address.
pub fn parse_local(s: &str, is_v6: bool) -> (r: Result<ParsedAddr, ArgsError>)
    ensures
        match r {
            Ok(p) => net::parse_socket_addr_spec(s@, is_v6, Some(p)) && (p matches ParsedAddr::V4(
                ep,
            ) ==> net::socket_v4_from_text(s@) == Some(ep)),
            Err(e) => net::parse_socket_addr_spec(s@, is_v6, None) && e@ == ArgsErrorView::InvalidLocal(
                s@,
            ),
        },
{
    match net::parse_socket_addr(s, is_v6) {
        Some(p) => Ok(p),
        None => Err(ArgsError::InvalidLocal(String::from_str(s))),
    }
}

/// Parses the `--remote` value, a socket address; `is_v6` says whether it is a
/// valid IPv6 socket address.
pub fn parse_remote(s: &str, is_v6: bool) -> (r: Result<ParsedAddr, ArgsError>)
    ensures
        match r {
            Ok(p) => net::parse_socket_addr_spec(s@, is_v6, Some(p)) && (p matches ParsedAddr::V4(
                ep,
            ) ==> net::socket_v4_from_text(s@) == Some(ep)),
            Err(e) => net::parse_socket_addr_spec(s@, is_v6, None) && e@ == ArgsErrorView::InvalidRemote(
                s@,
            ),
        },
{
    match net::parse_socket_addr(s, is_v6) {
        Some(p) => Ok(p),
        None => Err(ArgsError::InvalidRemote(String::from_str(s))),
    }
}

/// Reads `--local` and `--remote` as IPv4 endpoints. `local_is_v6` and
/// `remote_is_v6` say whether each argument is a valid IPv6 socket address,
/// which only decides which error is reported.
pub fn tunnel_endpoints(args: &Args, local_is_v6: bool, remote_is_v6: bool) -> (r: Result<
    Endpoints,
    ArgsError,
>)
    ensures
        match r {
            Ok(eps) => endpoints_spec(
                args.local.deep_view(),
                args.remote.deep_view(),
                local_is_v6,
                remote_is_v6,
            ) == Ok::<Endpoints, ArgsErrorView>(eps),
            Err(e) => endpoints_spec(
                args.local.deep_view(),
                args.remote.deep_view(),
                local_is_v6,
                remote_is_v6,
            ) == Err::<Endpoints, ArgsErrorView>(e@),
        },
{
    let local_text = match &args.local {
        Some(t) => t,
        None => {
            return Err(ArgsError::LocalMissing);
        },
    };
    let remote_text = match &args.remote {
        Some(t) => t,
        None => {
            return Err(ArgsError::RemoteMissing);
        },
    };
    let local = parse_local(local_text.as_str(), local_is_v6)?;
    let remote = parse_remote(remote_text.as_str(), remote_is_v6)?;
    let local_ep = match local {
        ParsedAddr::V4(ep) => ep,
        ParsedAddr::V6 => {
            return Err(ArgsError::LocalNotIpv4);
        },
    };
    let remote_ep = match remote {
        ParsedAddr::V4(ep) => ep,
        ParsedAddr::V6 => {
            return Err(ArgsError::RemoteNotIpv4);
        },
    };
    Ok(Endpoints { local: local_ep, remote: remote_ep })
}

/// The mode the program runs in.
pub enum Mode {
    /// Bridge a physical NIC, named by the `--if` value.
    Server(String),
    /// Bridge a TAP adapter described by the `--tap` value.
    Client(TapArg),
}

/// Chooses the mode: exactly one of `--if` and `--tap` must be given.
pub fn select_mode(args: &Args) -> (r: Result<Mode, ArgsError>)
    ensures
        match (args.iface, args.tap) {
            (Some(i), None) => r matches Ok(Mode::Server(n)) && n@ == i@,
            (None, Some(t)) => match tap_arg_spec(t@) {
                Ok(tv) => r matches Ok(Mode::Client(ta)) && ta@ == tv,
                Err(ev) => r matches Err(ArgsError::Tap(e)) && e@ == ev,
            },
            (Some(_), Some(_)) => r matches Err(ArgsError::ModesConflict),
            (None, None) => r matches Err(ArgsError::NoMode),
        },
{
    match (&args.iface, &args.tap) {
        (Some(i), None) => Ok(Mode::Server(i.clone())),
        (None, Some(t)) => match parse_tap_arg(t.as_str()) {
            Ok(ta) => Ok(Mode::Client(ta)),
            Err(e) => Err(ArgsError::Tap(e)),
        },
        (Some(_), Some(_)) => Err(ArgsError::ModesConflict),
        (None, None) => Err(ArgsError::NoMode),
    }
}

/// The BPF expression that drops the tunnel session's own UDP packets,
/// keyed on the remote endpoint.
pub open spec fn capture_filter_text(remote: Endpoint) -> Seq<char> {
    let ip = net::ipv4_text(remote.ip);
    let port = text::dec(remote.port as nat);
    "not (udp and ((src host "@ + ip + " and src port "@ + port + ") or (dst host "@ + ip
        + " and dst port "@ + port + ")))"@
}

/// The capture filter for server mode. A filter is needed only when the
/// captured NIC (`capture_if_index`) is the one the tunnel's UDP traffic
/// leaves by (`underlay_if_index`); an index of 0 means it is unknown, and then
/// no filter is installed.
pub fn capture_filter(underlay_if_index: u32, capture_if_index: u32, remote: Endpoint) -> (r:
    Option<String>)
    ensures
        (underlay_if_index == 0 || capture_if_index == 0 || underlay_if_index != capture_if_index)
            ==> r is None,
        (underlay_if_index != 0 && underlay_if_index == capture_if_index) ==> (r matches Some(f)
            && f@ == capture_filter_text(remote)),
{
    if underlay_if_index == 0 || capture_if_index == 0 {
        return None;
    }
    if capture_if_index != underlay_if_index {
        return None;
    }
    let ip = net::format_ipv4(remote.ip);
    let port = text::decimal(remote.port as u32);
    let mut f = String::from_str("not (udp and ((src host ");
    f.append(ip.as_str());
    f.append(" and src port ");
    f.append(port.as_str());
    f.append(") or (dst host ");
    f.append(ip.as_str());
    f.append(" and dst port ");
    f.append(port.as_str());
    f.append(")))");
    Some(f)
}

} // verus!
