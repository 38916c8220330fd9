//! Network interfaces: matching capture devices with adapter metadata,
//! resolving the `--if` argument, and the `--list` table.
use vstd::prelude::*;

use crate::net;
use crate::net::Ipv4;
use crate::text;
use vstd::string::StrSliceExecFns;

verus! {

/// Metadata for a single network interface.
pub struct IfaceInfo {
    /// npcap device name, e.g. `\Device\NPF_{GUID}`.
    pub pcap_name: String,
    /// Windows-assigned interface index (0 when unknown).
    pub if_index: u32,
    /// Human-readable name shown in Network Settings.
    pub friendly_name: String,
    /// Description string of the adapter.
    pub description: String,
    /// First configured IPv4 address, if any.
    pub ip: Option<Ipv4>,
}

pub struct IfaceView {
    pub pcap_name: Seq<char>,
    pub if_index: u32,
    pub friendly_name: Seq<char>,
    pub description: Seq<char>,
    pub ip: Option<Ipv4>,
}

impl View for IfaceInfo {
    type V = IfaceView;

    open spec fn view(&self) -> IfaceView {
        IfaceView {
            pcap_name: self.pcap_name@,
            if_index: self.if_index,
            friendly_name: self.friendly_name@,
            description: self.description@,
            ip: self.ip,
        }
    }
}

/// The views of a list of interfaces.
pub open spec fn ifaces_view(ifaces: Seq<IfaceInfo>) -> Seq<IfaceView> {
    ifaces.map_values(|i: IfaceInfo| i@)
}

/// Adapter metadata reported by the operating system.
pub struct WinAdapterMeta {
    pub if_index: u32,
    pub friendly_name: String,
    pub description: String,
    pub ip: Option<Ipv4>,
}

pub struct MetaView {
    pub if_index: u32,
    pub friendly_name: Seq<char>,
    pub description: Seq<char>,
    pub ip: Option<Ipv4>,
}

impl View for WinAdapterMeta {
    type V = MetaView;

    open spec fn view(&self) -> MetaView {
        MetaView {
            if_index: self.if_index,
            friendly_name: self.friendly_name@,
            description: self.description@,
            ip: self.ip,
        }
    }
}

/// Adapter metadata keyed by upper-case adapter GUID.
pub struct AdapterEntry {
    pub guid: String,
    pub meta: WinAdapterMeta,
}

/// Adapters keyed by GUID. A later insertion under a key replaces the
/// earlier one, as in a hash map.
pub struct AdapterMap {
    entries: Vec<AdapterEntry>,
}

/// The value for `key`: that of the latest entry under it.
pub open spec fn lookup_latest(s: Seq<(Seq<char>, MetaView)>, key: Seq<char>) -> Option<MetaView>
    decreases s.len(),
{
    if s.len() == 0 {
        None
    } else if s.last().0 == key {
        Some(s.last().1)
    } else {
        lookup_latest(s.drop_last(), key)
    }
}

impl View for AdapterMap {
    type V = Seq<(Seq<char>, MetaView)>;

    closed spec fn view(&self) -> Seq<(Seq<char>, MetaView)> {
        self.entries@.map_values(|e: AdapterEntry| (e.guid@, e.meta@))
    }
}

impl AdapterMap {
    /// The value this map holds for `key`.
    pub open spec fn lookup(&self, key: Seq<char>) -> Option<MetaView> {
        lookup_latest(self@, key)
    }

    /// An empty map.
    pub fn new() -> (r: AdapterMap)
        ensures
            forall|k: Seq<char>| r.lookup(k) is None,
    {
        let r = AdapterMap { entries: Vec::new() };
        assert(r@ =~= Seq::<(Seq<char>, MetaView)>::empty());
        r
    }

    /// Records `meta` under `guid`, replacing what was recorded under it.
    pub fn insert(&mut self, guid: String, meta: WinAdapterMeta)
        ensures
            final(self).lookup(guid@) == Some(meta@),
            forall|k: Seq<char>| k != guid@ ==> final(self).lookup(k) == old(self).lookup(k),
    {
        let ghost key = guid@;
        let ghost value = meta@;
        self.entries.push(AdapterEntry { guid, meta });
        assert(self@ =~= old(self)@.push((key, value)));
        assert(self@.drop_last() =~= old(self)@);
    }

    /// The metadata recorded under `key`, if any.
    pub fn get(&self, key: &str) -> (r: Option<&WinAdapterMeta>)
        ensures
            match r {
                Some(m) => self.lookup(key@) == Some(m@),
                None => self.lookup(key@) is None,
            },
    {
        let mut i = self.entries.len();
        assert(self@.take(i as int) =~= self@);
        while i > 0
            invariant
                i <= self.entries@.len(),
                self.lookup(key@) == lookup_latest(self@.take(i as int), key@),
            decreases i,
        {
            let e = &self.entries[i - 1];
            let ghost t = self@.take(i as int);
            assert(t.last() == (e.guid@, e.meta@));
            assert(t.drop_last() =~= self@.take(i - 1));
            if text::chars_eq_exact(e.guid.as_str(), key) {
                return Some(&e.meta);
            }
            i = i - 1;
        }
        None
    }
}

/// The elements of `s` before the first `stop` (all of `s` when there is none).
pub open spec fn prefix_before<T>(s: Seq<T>, stop: T) -> Seq<T>
    decreases s.len(),
{
    if s.len() == 0 {
        s
    } else if s[0] == stop {
        Seq::empty()
    } else {
        seq![s[0]] + prefix_before(s.drop_first(), stop)
    }
}

proof fn lemma_prefix_before<T>(s: Seq<T>, stop: T, k: int)
    requires
        0 <= k <= s.len(),
        forall|j: int| 0 <= j < k ==> s[j] != stop,
        k == s.len() || s[k] == stop,
    ensures
        prefix_before(s, stop) == s.take(k),
    decreases s.len(),
{
    if s.len() > 0 && s[0] != stop {
        let t = s.drop_first();
        assert forall|j: int| 0 <= j < k - 1 implies t[j] != stop by {
            assert(t[j] == s[j + 1]);
        }
        if k < s.len() {
            assert(t[k - 1] == s[k]);
        }
        lemma_prefix_before(t, stop, k - 1);
        assert(seq![s[0]] + t.take(k - 1) =~= s.take(k));
    } else if s.len() > 0 {
        assert(s.take(0) =~= Seq::<T>::empty());
    } else {
        assert(s.take(k) =~= s);
    }
}

/// The text of a NUL-terminated byte buffer, decoded as lossy UTF-8.
pub open spec fn c_text(bytes: Seq<u8>) -> Seq<char> {
    text::utf8_lossy(prefix_before(bytes, 0u8))
}

/// Converts a NUL-terminated C byte array to a string: the bytes before the
/// first NUL (all of them when there is none), decoded as lossy UTF-8, which
/// for valid UTF-8 is plain decoding.
pub fn c_bytes_to_string(bytes: &[u8]) -> (r: String)
    ensures
        r@ == c_text(bytes@),
        vstd::utf8::valid_utf8(prefix_before(bytes@, 0u8)) ==> r@ == vstd::utf8::decode_utf8(
            prefix_before(bytes@, 0u8),
        ),
{
    let mut end: usize = 0;
    while end < bytes.len()
        invariant
            end <= bytes@.len(),
            forall|j: int| 0 <= j < end ==> bytes@[j] != 0u8,
        ensures
            end <= bytes@.len(),
            forall|j: int| 0 <= j < end ==> bytes@[j] != 0u8,
            end < bytes@.len() ==> bytes@[end as int] == 0u8,
        decreases bytes@.len() - end,
    {
        if bytes[end] == 0 {
            break;
        }
        end = end + 1;
    }
    proof {
        lemma_prefix_before(bytes@, 0u8, end as int);
    }
    let head = &bytes[0..end];
    assert(head@ =~= bytes@.take(end as int));
    text::decode_utf8_lossy(head)
}

/// The display name of an adapter from the alias buffer the system filled:
/// the UTF-16 units before the first NUL, decoded lossily.
pub fn get_friendly_name(alias: &[u16]) -> (r: String)
    ensures
        r@ == text::utf16_lossy(prefix_before(alias@, 0u16)),
{
    let mut end: usize = 0;
    while end < alias.len()
        invariant
            end <= alias@.len(),
            forall|j: int| 0 <= j < end ==> alias@[j] != 0u16,
        ensures
            end <= alias@.len(),
            forall|j: int| 0 <= j < end ==> alias@[j] != 0u16,
            end < alias@.len() ==> alias@[end as int] == 0u16,
        decreases alias@.len() - end,
    {
        if alias[end] == 0 {
            break;
        }
        end = end + 1;
    }
    proof {
        lemma_prefix_before(alias@, 0u16, end as int);
    }
    let head = &alias[0..end];
    assert(head@ =~= alias@.take(end as int));
    text::decode_utf16_lossy(head)
}

/// The GUID inside `\Device\NPF_{GUID}`: the text between the first `{` and
/// the first `}`, when the latter comes later and the text is not empty.
pub open spec fn guid_of(s: Seq<char>) -> Option<Seq<char>> {
    let o = text::index_of(s, '{');
    let c = text::index_of(s, '}');
    if o < s.len() && c < s.len() && o + 1 < c {
        Some(s.subrange(o + 1, c))
    } else {
        None
    }
}

/// Extracts the GUID portion of an NPF device name.
pub fn extract_guid(npf_name: &str) -> (r: Option<String>)
    ensures
        r.deep_view() == guid_of(npf_name@),
{
    let v = text::chars_of(npf_name);
    let n = v.len();
    assert(v@.subrange(0, n as int) =~= v@);
    let open = text::find_char(v.as_slice(), 0, n, '{');
    let close = text::find_char(v.as_slice(), 0, n, '}');
    if open < n && close < n && open + 1 < close {
        Some(text::string_from(v.as_slice(), open + 1, close))
    } else {
        None
    }
}

/// The key under which an adapter name is recorded: braces trimmed from both
/// ends, upper-cased.
pub open spec fn adapter_key(adapter_name: Seq<char>) -> Seq<char> {
    text::unicode_uppercase(text::strip(adapter_name, text::CharClass::Brace))
}

/// The first address of an adapter, from its text: none when the text is not
/// an address or is `0.0.0.0`.
pub open spec fn adapter_ip(ip_text: Seq<char>) -> Option<Ipv4> {
    match net::ipv4_from_text(ip_text) {
        Some(ip) => if ip.is_unspecified_spec() {
            None
        } else {
            Some(ip)
        },
        None => None,
    }
}

/// The map entry for one adapter reported by the system: its NUL-terminated
/// name, description and first address text, its interface index, and its
/// display name when the system gave one (the description stands in otherwise).
pub fn adapter_entry(
    adapter_name: &[u8],
    description: &[u8],
    ip_text: &[u8],
    if_index: u32,
    friendly_name: Option<String>,
) -> (r: AdapterEntry)
    ensures
        r.guid@ == adapter_key(c_text(adapter_name@)),
        r.meta.if_index == if_index,
        r.meta.description@ == c_text(description@),
        r.meta.friendly_name@ == match friendly_name {
            Some(f) => f@,
            None => c_text(description@),
        },
        r.meta.ip == adapter_ip(c_text(ip_text@)),
{
    let name = c_bytes_to_string(adapter_name);
    let nv = text::chars_of(name.as_str());
    assert(nv@.subrange(0, nv@.len() as int) =~= nv@);
    let (a, b) = text::strip_bounds(nv.as_slice(), 0, nv.len(), text::CharClass::Brace);
    let trimmed = text::string_from(nv.as_slice(), a, b);
    let guid = text::to_uppercase(trimmed.as_str());
    let description = c_bytes_to_string(description);
    let ip_string = c_bytes_to_string(ip_text);
    let ip = match net::parse_ipv4(ip_string.as_str()) {
        Some(ip) => if ip.is_unspecified() {
            None
        } else {
            Some(ip)
        },
        None => None,
    };
    let friendly_name = match friendly_name {
        Some(f) => f,
        None => description.clone(),
    };
    AdapterEntry { guid, meta: WinAdapterMeta { if_index, friendly_name, description, ip } }
}

/// A capturable device as the capture library lists it.
pub struct CaptureDevice {
    /// Device name, e.g. `\Device\NPF_{GUID}`.
    pub name: String,
    /// Description, if the library has one.
    pub desc: Option<String>,
}

/// The interface entry for a device named `name` with description `desc`,
/// enriched with the adapter recorded under its upper-cased GUID when there is
/// one.
pub open spec fn iface_of(name: Seq<char>, desc: Option<Seq<char>>, adapters: AdapterMap) -> IfaceView {
    let key = text::unicode_uppercase(
        match guid_of(name) {
            Some(g) => g,
            None => Seq::empty(),
        },
    );
    match adapters.lookup(key) {
        Some(meta) => IfaceView {
            pcap_name: name,
            if_index: meta.if_index,
            friendly_name: meta.friendly_name,
            description: meta.description,
            ip: meta.ip,
        },
        None => IfaceView {
            pcap_name: name,
            if_index: 0,
            friendly_name: Seq::empty(),
            description: match desc {
                Some(d) => d,
                None => Seq::empty(),
            },
            ip: None,
        },
    }
}

/// The interface list: one entry per capture device, in order, enriched with
/// the matching adapter metadata.
pub fn list_interfaces_from(devices: &[CaptureDevice], adapters: &AdapterMap) -> (r: Vec<IfaceInfo>)
    ensures
        r@.len() == devices@.len(),
        forall|i: int|
            0 <= i < devices@.len() ==> (#[trigger] r@[i])@ == iface_of(
                devices@[i].name@,
                devices@[i].desc.deep_view(),
                *adapters,
            ),
{
    let mut r: Vec<IfaceInfo> = Vec::new();
    let mut i: usize = 0;
    while i < devices.len()
        invariant
            i <= devices@.len(),
            r@.len() == i,
            forall|j: int|
                0 <= j < i ==> (#[trigger] r@[j])@ == iface_of(
                    devices@[j].name@,
                    devices@[j].desc.deep_view(),
                    *adapters,
                ),
        decreases devices@.len() - i,
    {
        let dev = &devices[i];
        let guid = match extract_guid(dev.name.as_str()) {
            Some(g) => g,
            None => String::new(),
        };
        let key = text::to_uppercase(guid.as_str());
        let info = match adapters.get(key.as_str()) {
            Some(meta) => IfaceInfo {
                pcap_name: dev.name.clone(),
                if_index: meta.if_index,
                friendly_name: meta.friendly_name.clone(),
                description: meta.description.clone(),
                ip: meta.ip,
            },
            None => IfaceInfo {
                pcap_name: dev.name.clone(),
                if_index: 0,
                friendly_name: String::new(),
                description: match &dev.desc {
                    Some(d) => d.clone(),
                    None => String::new(),
                },
                ip: None,
            },
        };
        r.push(info);
        i = i + 1;
    }
    r
}

/// Why a `--if` value matched no interface.
pub enum IfaceError {
    /// An NPF device path that no listed device has.
    NpfNotFound(String),
    /// A number that is no listed interface index.
    NoIfIndex(u32),
    /// A name that is no listed interface's display name.
    NoMatch(String),
}

pub enum IfaceErrorView {
    NpfNotFound(Seq<char>),
    NoIfIndex(u32),
    NoMatch(Seq<char>),
}

impl View for IfaceError {
    type V = IfaceErrorView;

    open spec fn view(&self) -> IfaceErrorView {
        match self {
            IfaceError::NpfNotFound(s) => IfaceErrorView::NpfNotFound(s@),
            IfaceError::NoIfIndex(i) => IfaceErrorView::NoIfIndex(*i),
            IfaceError::NoMatch(s) => IfaceErrorView::NoMatch(s@),
        }
    }
}

impl IfaceError {
    /// The message the program prints for this error.
    pub fn message(&self) -> (r: String)
        ensures
            r@ == match self@ {
                IfaceErrorView::NpfNotFound(t) => "[ERROR] iface: NPF device '"@ + t
                    + "' not found in pcap device list"@,
                IfaceErrorView::NoIfIndex(i) => "[ERROR] iface: no interface with ifIndex "@
                    + text::dec(i as nat) + " found"@,
                IfaceErrorView::NoMatch(t) => "[ERROR] iface: '"@ + t
                    + "' did not match any interface by name or index. Run --list to see available interfaces."@,
            },
    {
        match self {
            IfaceError::NpfNotFound(t) => {
                let mut r = String::from_str("[ERROR] iface: NPF device '");
                r.append(t.as_str());
                r.append("' not found in pcap device list");
                r
            },
            IfaceError::NoIfIndex(i) => {
                let mut r = String::from_str("[ERROR] iface: no interface with ifIndex ");
                text::push_decimal(&mut r, *i);
                r.append(" found");
                r
            },
            IfaceError::NoMatch(t) => {
                let mut r = String::from_str("[ERROR] iface: '");
                r.append(t.as_str());
                r.append(
                    "' did not match any interface by name or index. Run --list to see available interfaces.",
                );
                r
            },
        }
    }
}

/// The prefix of an NPF device path.
pub open spec fn npf_prefix() -> Seq<char> {
    "\\Device\\NPF_"@
}

/// The device name of the first interface with index `idx`.
pub open spec fn find_by_index(ifs: Seq<IfaceView>, idx: u32) -> Option<Seq<char>>
    decreases ifs.len(),
{
    if ifs.len() == 0 {
        None
    } else if ifs[0].if_index == idx {
        Some(ifs[0].pcap_name)
    } else {
        find_by_index(ifs.drop_first(), idx)
    }
}

/// The device name of the first interface whose lower-cased display name is `lower`.
pub open spec fn find_by_name(ifs: Seq<IfaceView>, lower: Seq<char>) -> Option<Seq<char>>
    decreases ifs.len(),
{
    if ifs.len() == 0 {
        None
    } else if text::unicode_lowercase(ifs[0].friendly_name) == lower {
        Some(ifs[0].pcap_name)
    } else {
        find_by_name(ifs.drop_first(), lower)
    }
}

/// The device a `--if` value names. An NPF device path is taken as given if
/// some device has it (ASCII case ignored); otherwise a number is an interface
/// index; otherwise the value is a display name, compared after Unicode
/// lower-casing. The first matching interface wins.
pub open spec fn resolve_iface_spec(input: Seq<char>, ifs: Seq<IfaceView>) -> Result<Seq<char>, IfaceErrorView> {
    if text::has_prefix(input, npf_prefix()) {
        if exists|i: int| 0 <= i < ifs.len() && text::eq_ignore_ascii_case(#[trigger] ifs[i].pcap_name, input) {
            Ok(input)
        } else {
            Err(IfaceErrorView::NpfNotFound(input))
        }
    } else {
        match text::unsigned_value(input, 0xffff_ffff) {
            Some(idx) => match find_by_index(ifs, idx as u32) {
                Some(name) => Ok(name),
                None => Err(IfaceErrorView::NoIfIndex(idx as u32)),
            },
            None => match find_by_name(ifs, text::unicode_lowercase(input)) {
                Some(name) => Ok(name),
                None => Err(IfaceErrorView::NoMatch(input)),
            },
        }
    }
}

/// `find_by_name` gives the device of the first interface whose lower-cased
/// display name is `lower`, and nothing when none has it.
proof fn lemma_find_by_name(ifs: Seq<IfaceView>, lower: Seq<char>)
    ensures
        match find_by_name(ifs, lower) {
            Some(n) => exists|i: int|
                0 <= i < ifs.len() && #[trigger] ifs[i].pcap_name == n && text::unicode_lowercase(
                    ifs[i].friendly_name,
                ) == lower && forall|j: int|
                    0 <= j < i ==> text::unicode_lowercase(#[trigger] ifs[j].friendly_name) != lower,
            None => forall|j: int|
                0 <= j < ifs.len() ==> text::unicode_lowercase(#[trigger] ifs[j].friendly_name) != lower,
        },
    decreases ifs.len(),
{
    if ifs.len() > 0 {
        let t = ifs.drop_first();
        lemma_find_by_name(t, lower);
        if text::unicode_lowercase(ifs[0].friendly_name) == lower {
            assert(ifs[0].pcap_name == ifs[0].pcap_name);
        } else {
            match find_by_name(t, lower) {
                Some(n) => {
                    let k = choose|k: int|
                        0 <= k < t.len() && #[trigger] t[k].pcap_name == n && text::unicode_lowercase(
                            t[k].friendly_name,
                        ) == lower && forall|j: int|
                            0 <= j < k ==> text::unicode_lowercase(#[trigger] t[j].friendly_name) != lower;
                    assert(ifs[k + 1] == t[k]);
                    assert forall|j: int| 0 <= j < k + 1 implies text::unicode_lowercase(
                        #[trigger] ifs[j].friendly_name,
                    ) != lower by {
                        if j > 0 {
                            assert(ifs[j] == t[j - 1]);
                        }
                    }
                    assert(ifs[k + 1].pcap_name == n);
                },
                None => {
                    assert forall|j: int| 0 <= j < ifs.len() implies text::unicode_lowercase(
                        #[trigger] ifs[j].friendly_name,
                    ) != lower by {
                        if j > 0 {
                            assert(ifs[j] == t[j - 1]);
                        }
                    }
                },
            }
        }
    }
}

/// `find_by_index` gives the device of the first interface with index `idx`,
/// and nothing when none has it.
proof fn lemma_find_by_index(ifs: Seq<IfaceView>, idx: u32)
    ensures
        match find_by_index(ifs, idx) {
            Some(n) => exists|i: int|
                0 <= i < ifs.len() && #[trigger] ifs[i].pcap_name == n && ifs[i].if_index == idx
                    && forall|j: int| 0 <= j < i ==> (#[trigger] ifs[j]).if_index != idx,
            None => forall|j: int| 0 <= j < ifs.len() ==> (#[trigger] ifs[j]).if_index != idx,
        },
    decreases ifs.len(),
{
    if ifs.len() > 0 {
        let t = ifs.drop_first();
        lemma_find_by_index(t, idx);
        if ifs[0].if_index == idx {
            assert(ifs[0].pcap_name == ifs[0].pcap_name);
        } else {
            match find_by_index(t, idx) {
                Some(n) => {
                    let k = choose|k: int|
                        0 <= k < t.len() && #[trigger] t[k].pcap_name == n && t[k].if_index == idx
                            && forall|j: int| 0 <= j < k ==> (#[trigger] t[j]).if_index != idx;
                    assert(ifs[k + 1] == t[k]);
                    assert forall|j: int| 0 <= j < k + 1 implies (#[trigger] ifs[j]).if_index != idx by {
                        if j > 0 {
                            assert(ifs[j] == t[j - 1]);
                        }
                    }
                    assert(ifs[k + 1].pcap_name == n);
                },
                None => {
                    assert forall|j: int| 0 <= j < ifs.len() implies (#[trigger] ifs[j]).if_index != idx by {
                        if j > 0 {
                            assert(ifs[j] == t[j - 1]);
                        }
                    }
                },
            }
        }
    }
}

/// What `--if` resolves to, in terms of the interfaces. An NPF device path
/// resolves to itself exactly when some interface has that device name,
/// ignoring ASCII case. A number resolves to the device of the first interface
/// with that index. Any other value resolves to the device of the first
/// interface whose lower-cased display name equals the lower-cased value,
/// the whole name and not a part of it. When nothing matches, the error names
/// the value.
pub proof fn lemma_resolve_iface(input: Seq<char>, ifs: Seq<IfaceView>)
    ensures
        text::has_prefix(input, npf_prefix()) ==> (resolve_iface_spec(input, ifs) == if exists|i: int|
            0 <= i < ifs.len() && text::eq_ignore_ascii_case(#[trigger] ifs[i].pcap_name, input) {
            Ok::<Seq<char>, IfaceErrorView>(input)
        } else {
            Err::<Seq<char>, IfaceErrorView>(IfaceErrorView::NpfNotFound(input))
        }),
        !text::has_prefix(input, npf_prefix()) ==> match text::unsigned_value(input, 0xffff_ffff) {
            Some(idx) => match resolve_iface_spec(input, ifs) {
                Ok(name) => exists|i: int|
                    0 <= i < ifs.len() && #[trigger] ifs[i].pcap_name == name && ifs[i].if_index == idx
                        && forall|j: int| 0 <= j < i ==> (#[trigger] ifs[j]).if_index != idx,
                Err(e) => e == IfaceErrorView::NoIfIndex(idx as u32) && forall|j: int|
                    0 <= j < ifs.len() ==> (#[trigger] ifs[j]).if_index != idx,
            },
            None => match resolve_iface_spec(input, ifs) {
                Ok(name) => exists|i: int|
                    0 <= i < ifs.len() && #[trigger] ifs[i].pcap_name == name
                        && text::unicode_lowercase(ifs[i].friendly_name) == text::unicode_lowercase(
                        input,
                    ) && forall|j: int|
                        0 <= j < i ==> text::unicode_lowercase(#[trigger] ifs[j].friendly_name)
                            != text::unicode_lowercase(input),
                Err(e) => e == IfaceErrorView::NoMatch(input) && forall|j: int|
                    0 <= j < ifs.len() ==> text::unicode_lowercase(#[trigger] ifs[j].friendly_name)
                        != text::unicode_lowercase(input),
            },
        },
{
    if !text::has_prefix(input, npf_prefix()) {
        match text::unsigned_value(input, 0xffff_ffff) {
            Some(idx) => {
                lemma_find_by_index(ifs, idx as u32);
            },
            None => {
                lemma_find_by_name(ifs, text::unicode_lowercase(input));
            },
        }
    }
}

/// Resolves a `--if` value to an npcap device name.
pub fn resolve_iface(user_input: &str, ifaces: &[IfaceInfo]) -> (r: Result<String, IfaceError>)
    ensures
        match r {
            Ok(name) => resolve_iface_spec(user_input@, ifaces_view(ifaces@)) == Ok::<
                Seq<char>,
                IfaceErrorView,
            >(name@),
            Err(e) => resolve_iface_spec(user_input@, ifaces_view(ifaces@)) == Err::<
                Seq<char>,
                IfaceErrorView,
            >(e@),
        },
{
    let ghost ifs = ifaces_view(ifaces@);
    let v = text::chars_of(user_input);
    let n = v.len();
    assert(v@.subrange(0, n as int) =~= v@);
    let prefix = text::chars_of("\\Device\\NPF_");
    if text::starts_with_chars(v.as_slice(), 0, n, prefix.as_slice()) {
        let mut i: usize = 0;
        while i < ifaces.len()
            invariant
                i <= ifaces@.len(),
                ifs == ifaces_view(ifaces@),
                v@ == user_input@,
                text::has_prefix(user_input@, npf_prefix()),
                forall|j: int| 0 <= j < i ==> !text::eq_ignore_ascii_case(#[trigger] ifs[j].pcap_name, v@),
            decreases ifaces@.len() - i,
        {
            let pv = text::chars_of(ifaces[i].pcap_name.as_str());
            if text::chars_eq_ignore_ascii_case(pv.as_slice(), v.as_slice()) {
                assert(ifs[i as int] == ifaces@[i as int]@);
                assert(text::eq_ignore_ascii_case(ifs[i as int].pcap_name, user_input@));
                return Ok(String::from_str(user_input));
            }
            i = i + 1;
        }
        return Err(IfaceError::NpfNotFound(String::from_str(user_input)));
    }
    match text::parse_unsigned(v.as_slice(), 0, n, 0xffff_ffff) {
        Some(idx) => {
            let mut i: usize = 0;
            assert(ifs.skip(0) =~= ifs);
            while i < ifaces.len()
                invariant
                    i <= ifaces@.len(),
                    ifs == ifaces_view(ifaces@),
                    !text::has_prefix(user_input@, npf_prefix()),
                    text::unsigned_value(user_input@, 0xffff_ffff) == Some(idx as nat),
                    find_by_index(ifs, idx) == find_by_index(ifs.skip(i as int), idx),
                decreases ifaces@.len() - i,
            {
                let ghost rest = ifs.skip(i as int);
                assert(rest[0] == ifaces@[i as int]@);
                assert(rest.drop_first() =~= ifs.skip(i + 1));
                if ifaces[i].if_index == idx {
                    assert(find_by_index(rest, idx) == Some(rest[0].pcap_name));
                    return Ok(ifaces[i].pcap_name.clone());
                }
                i = i + 1;
            }
            assert(ifs.skip(i as int) =~= Seq::<IfaceView>::empty());
            Err(IfaceError::NoIfIndex(idx))
        },
        None => {
            let lower = text::to_lowercase(user_input);
            let mut i: usize = 0;
            assert(ifs.skip(0) =~= ifs);
            while i < ifaces.len()
                invariant
                    i <= ifaces@.len(),
                    ifs == ifaces_view(ifaces@),
                    lower@ == text::unicode_lowercase(user_input@),
                    !text::has_prefix(user_input@, npf_prefix()),
                    text::unsigned_value(user_input@, 0xffff_ffff) is None,
                    find_by_name(ifs, lower@) == find_by_name(ifs.skip(i as int), lower@),
                decreases ifaces@.len() - i,
            {
                let ghost rest = ifs.skip(i as int);
                assert(rest[0] == ifaces@[i as int]@);
                assert(rest.drop_first() =~= ifs.skip(i + 1));
                let candidate = text::to_lowercase(ifaces[i].friendly_name.as_str());
                if candidate == lower {
                    assert(find_by_name(rest, lower@) == Some(rest[0].pcap_name));
                    return Ok(ifaces[i].pcap_name.clone());
                }
                i = i + 1;
            }
            assert(ifs.skip(i as int) =~= Seq::<IfaceView>::empty());
            Err(IfaceError::NoMatch(String::from_str(user_input)))
        },
    }
}

/// The position of the first interface whose device name is `pcap_name`,
/// ignoring ASCII case.
pub fn find_iface_by_pcap_name(pcap_name: &str, ifaces: &[IfaceInfo]) -> (r: Option<usize>)
    ensures
        match r {
            Some(i) => i < ifaces@.len() && text::eq_ignore_ascii_case(
                ifaces@[i as int].pcap_name@,
                pcap_name@,
            ) && forall|j: int|
                0 <= j < i ==> !text::eq_ignore_ascii_case(
                    #[trigger] ifaces@[j].pcap_name@,
                    pcap_name@,
                ),
            None => forall|j: int|
                0 <= j < ifaces@.len() ==> !text::eq_ignore_ascii_case(
                    #[trigger] ifaces@[j].pcap_name@,
                    pcap_name@,
                ),
        },
{
    let v = text::chars_of(pcap_name);
    let mut i: usize = 0;
    while i < ifaces.len()
        invariant
            i <= ifaces@.len(),
            v@ == pcap_name@,
            forall|j: int|
                0 <= j < i ==> !text::eq_ignore_ascii_case(
                    #[trigger] ifaces@[j].pcap_name@,
                    pcap_name@,
                ),
        decreases ifaces@.len() - i,
    {
        let pv = text::chars_of(ifaces[i].pcap_name.as_str());
        if text::chars_eq_ignore_ascii_case(pv.as_slice(), v.as_slice()) {
            return Some(i);
        }
        i = i + 1;
    }
    None
}

/// `n` copies of `c`.
pub open spec fn fill(c: char, n: nat) -> Seq<char> {
    Seq::new(n, |i: int| c)
}

/// `s` right-aligned in a field of `width` characters, as `{:>width}` formats it.
pub open spec fn pad_left(s: Seq<char>, width: nat) -> Seq<char> {
    if s.len() < width {
        fill(' ', (width - s.len()) as nat) + s
    } else {
        s
    }
}

/// `s` left-aligned in a field of `width` characters, as `{:<width}` formats it.
pub open spec fn pad_right(s: Seq<char>, width: nat) -> Seq<char> {
    if s.len() < width {
        s + fill(' ', (width - s.len()) as nat)
    } else {
        s
    }
}

/// Appends `n` copies of `c`.
fn push_fill(out: &mut String, c: char, n: usize)
    ensures
        final(out)@ == old(out)@ + fill(c, n as nat),
{
    let mut i: usize = 0;
    while i < n
        invariant
            i <= n,
            out@ == old(out)@ + fill(c, i as nat),
        decreases n - i,
    {
        text::push_char(out, c);
        assert(fill(c, (i + 1) as nat) =~= fill(c, i as nat).push(c));
        i = i + 1;
    }
}

/// Appends `s` right-aligned in `width` characters.
fn push_pad_left(out: &mut String, s: &str, width: usize)
    ensures
        final(out)@ == old(out)@ + pad_left(s@, width as nat),
{
    let n = s.unicode_len();
    if n < width {
        push_fill(out, ' ', width - n);
    } else {
        assert(fill(' ', 0) =~= Seq::<char>::empty());
        push_fill(out, ' ', 0);
    }
    out.append(s);
    assert(final(out)@ =~= old(out)@ + pad_left(s@, width as nat));
}

/// Appends `s` left-aligned in `width` characters.
fn push_pad_right(out: &mut String, s: &str, width: usize)
    ensures
        final(out)@ == old(out)@ + pad_right(s@, width as nat),
{
    let n = s.unicode_len();
    out.append(s);
    if n < width {
        push_fill(out, ' ', width - n);
    }
    assert(final(out)@ =~= old(out)@ + pad_right(s@, width as nat));
}

/// The first header line of the `--list` table.
pub open spec fn table_header_text() -> Seq<char> {
    "  "@ + pad_left("ifIdx"@, 6) + "  "@ + pad_right("Name"@, 20) + "  "@ + pad_right(
        "Description"@,
        40,
    ) + "  "@ + "IP"@
}

/// The rule under the header of the `--list` table.
pub open spec fn table_rule_text() -> Seq<char> {
    "  "@ + fill('-', 6) + "  "@ + fill('-', 20) + "  "@ + fill('-', 40) + "  "@ + fill('-', 15)
}

/// The two header lines of the `--list` table.
pub fn interface_table_header() -> (r: Vec<String>)
    ensures
        r.deep_view() == seq![table_header_text(), table_rule_text()],
{
    let mut h = String::from_str("  ");
    push_pad_left(&mut h, "ifIdx", 6);
    h.append("  ");
    push_pad_right(&mut h, "Name", 20);
    h.append("  ");
    push_pad_right(&mut h, "Description", 40);
    h.append("  ");
    h.append("IP");
    let mut rule = String::from_str("  ");
    push_fill(&mut rule, '-', 6);
    rule.append("  ");
    push_fill(&mut rule, '-', 20);
    rule.append("  ");
    push_fill(&mut rule, '-', 40);
    rule.append("  ");
    push_fill(&mut rule, '-', 15);
    let mut r: Vec<String> = Vec::new();
    r.push(h);
    r.push(rule);
    assert(r.deep_view() =~= seq![table_header_text(), table_rule_text()]);
    r
}

/// The number of bytes the UTF-8 encoding of `c` takes.
pub open spec fn utf8_width(c: char) -> nat {
    if (c as u32) < 0x80 {
        1
    } else if (c as u32) < 0x800 {
        2
    } else if (c as u32) < 0x10000 {
        3
    } else {
        4
    }
}

/// The number of bytes the UTF-8 encoding of `s` takes.
pub open spec fn utf8_len(s: Seq<char>) -> nat
    decreases s.len(),
{
    if s.len() == 0 {
        0
    } else {
        utf8_len(s.drop_last()) + utf8_width(s.last())
    }
}

/// Some prefix of `s` takes exactly `n` bytes: byte `n` is a character boundary.
pub open spec fn is_char_boundary(s: Seq<char>, n: nat) -> bool {
    exists|k: int| 0 <= k <= s.len() && utf8_len(#[trigger] s.take(k)) == n
}

/// The characters of `s` that fit in its first `n` bytes, when `n` is a character boundary.
pub open spec fn take_bytes(s: Seq<char>, n: nat) -> Seq<char> {
    s.take(choose|k: int| 0 <= k <= s.len() && utf8_len(#[trigger] s.take(k)) == n)
}

fn char_utf8_width(c: char) -> (r: usize)
    ensures
        r == utf8_width(c),
{
    let v = c as u32;
    if v < 0x80 {
        1
    } else if v < 0x800 {
        2
    } else if v < 0x10000 {
        3
    } else {
        4
    }
}

proof fn lemma_utf8_len_take(s: Seq<char>, i: int)
    requires
        0 <= i < s.len(),
    ensures
        utf8_len(s.take(i + 1)) == utf8_len(s.take(i)) + utf8_width(s[i]),
{
    assert(s.take(i + 1).drop_last() =~= s.take(i));
}

proof fn lemma_utf8_len_mono(s: Seq<char>, i: int, j: int)
    requires
        0 <= i <= j <= s.len(),
    ensures
        utf8_len(s.take(i)) + (j - i) <= utf8_len(s.take(j)),
    decreases j - i,
{
    if i < j {
        lemma_utf8_len_mono(s, i, j - 1);
        lemma_utf8_len_take(s, j - 1);
    }
}

/// The description column: descriptions longer than 40 bytes are cut to
/// their first 39 bytes and marked with an ellipsis.
pub open spec fn description_cell(description: Seq<char>) -> Seq<char> {
    if utf8_len(description) > 40 {
        take_bytes(description, 39) + "…"@
    } else {
        description
    }
}

/// The text of a row of the `--list` table.
pub open spec fn table_row_text(iface: IfaceView) -> Seq<char> {
    let name = if iface.friendly_name.len() == 0 {
        iface.description
    } else {
        iface.friendly_name
    };
    let ip = match iface.ip {
        Some(ip) => net::ipv4_text(ip),
        None => "-"@,
    };
    "  "@ + pad_left(text::dec(iface.if_index as nat), 6) + "  "@ + pad_right(name, 20) + "  "@
        + pad_right(description_cell(iface.description), 40) + "  "@ + ip
}

/// One row of the `--list` table. A description longer than 40 bytes must
/// have a character boundary at byte 39, where it is cut.
pub fn interface_table_row(iface: &IfaceInfo) -> (r: String)
    requires
        utf8_len(iface.description@) <= 40 || is_char_boundary(iface.description@, 39),
    ensures
        r@ == table_row_text(iface@),
{
    let d = text::chars_of(iface.description.as_str());
    let ghost ds = d@;
    let mut bytes: usize = 0;
    let mut i: usize = 0;
    assert(ds.take(0) =~= Seq::<char>::empty());
    while i < d.len() && bytes <= 40
        invariant
            d@ == ds,
            i <= ds.len(),
            bytes == utf8_len(ds.take(i as int)),
            bytes <= 44,
        decreases ds.len() - i,
    {
        proof {
            lemma_utf8_len_take(ds, i as int);
        }
        bytes = bytes + char_utf8_width(d[i]);
        i = i + 1;
    }
    proof {
        lemma_utf8_len_mono(ds, i as int, ds.len() as int);
        if i == ds.len() {
            assert(ds.take(ds.len() as int) =~= ds);
        }
    }
    assert(ds.take(ds.len() as int) =~= ds);
    let desc = if bytes > 40 {
        let mut k: usize = 0;
        let mut b: usize = 0;
        while b < 39
            invariant
                d@ == ds,
                k <= ds.len(),
                b == utf8_len(ds.take(k as int)),
                b <= 39,
                is_char_boundary(ds, 39),
                forall|m: int| 0 <= m < k ==> utf8_len(#[trigger] ds.take(m)) < 39,
            decreases 39 - b,
        {
            proof {
                let kk = choose|kk: int| 0 <= kk <= ds.len() && utf8_len(#[trigger] ds.take(kk)) == 39;
                if kk <= k {
                    if kk < k {
                        assert(utf8_len(ds.take(kk)) < 39);
                    }
                }
                assert(k < kk);
                lemma_utf8_len_take(ds, k as int);
                lemma_utf8_len_mono(ds, (k + 1) as int, kk);
            }
            b = b + char_utf8_width(d[k]);
            k = k + 1;
        }
        proof {
            let kk = choose|kk: int| 0 <= kk <= ds.len() && utf8_len(#[trigger] ds.take(kk)) == 39;
            if kk < k {
                assert(utf8_len(ds.take(kk)) < 39);
            } else if kk > k {
                lemma_utf8_len_mono(ds, k as int, kk);
            }
            assert(kk == k);
        }
        let mut s = text::string_from(d.as_slice(), 0, k);
        assert(d@.subrange(0, k as int) =~= ds.take(k as int));
        s.append("…");
        s
    } else {
        iface.description.clone()
    };
    let name: &str = if iface.friendly_name.unicode_len() == 0 {
        iface.description.as_str()
    } else {
        iface.friendly_name.as_str()
    };
    let mut r = String::from_str("  ");
    let idx = text::decimal(iface.if_index);
    push_pad_left(&mut r, idx.as_str(), 6);
    r.append("  ");
    push_pad_right(&mut r, name, 20);
    r.append("  ");
    push_pad_right(&mut r, desc.as_str(), 40);
    r.append("  ");
    match iface.ip {
        Some(ip) => net::push_ipv4(&mut r, ip),
        None => r.append("-"),
    }
    r
}

} // verus!
