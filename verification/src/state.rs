//! The state file that records the TAP adapter and host route of a running
//! client, so that a later start can remove what a crash left behind.
//!
//! Format, one `key=value` per line:
//!   tap_name=<adapter GUID>
//!   tap_route=<remote IPv4>   (present only when a static address was given,
//!                              which is when the host route is pinned)
use vstd::prelude::*;

use crate::net;
use crate::net::Ipv4;
use crate::text;

verus! {

/// The content of the state file for adapter `tap_name` and host route `tap_route`.
pub open spec fn state_text(tap_name: Seq<char>, tap_route: Option<Ipv4>) -> Seq<char> {
    "tap_name="@ + tap_name + seq!['\n'] + match tap_route {
        Some(ip) => "tap_route="@ + net::ipv4_text(ip) + seq!['\n'],
        None => Seq::empty(),
    }
}

/// The content of the state file recording `tap_name` and, if given, the
/// destination of the injected host route.
pub fn state_content(tap_name: &str, tap_route: Option<Ipv4>) -> (r: String)
    ensures
        r@ == state_text(tap_name@, tap_route),
{
    let mut r = String::from_str("tap_name=");
    r.append(tap_name);
    text::push_char(&mut r, '\n');
    if let Some(ip) = tap_route {
        r.append("tap_route=");
        net::push_ipv4(&mut r, ip);
        text::push_char(&mut r, '\n');
    }
    assert(r@ =~= state_text(tap_name@, tap_route));
    r
}

/// The key and value of a line: split at its first `=`; `None` without one.
pub open spec fn field_of(line: Seq<char>) -> Option<(Seq<char>, Seq<char>)> {
    let e = text::index_of(line, '=');
    if 0 <= e < line.len() {
        Some((line.take(e), line.skip(e + 1)))
    } else {
        None
    }
}

/// The value of `key` in `ls`: that of the last line with that key.
pub open spec fn field_value(ls: Seq<Seq<char>>, key: Seq<char>) -> Option<Seq<char>>
    decreases ls.len(),
{
    if ls.len() == 0 {
        None
    } else {
        let later = field_value(ls.drop_first(), key);
        if later is Some {
            later
        } else {
            match field_of(ls[0]) {
                Some((k, v)) => if k == key {
                    Some(v)
                } else {
                    None
                },
                None => None,
            }
        }
    }
}

/// What to do about a recorded host route.
pub enum RouteResidue {
    /// No route was recorded.
    NoRoute,
    /// Delete the host route to this address.
    Delete(Ipv4),
    /// The recorded route is not an IPv4 address; it is reported and skipped.
    Unparsable(String),
}

pub enum RouteResidueView {
    NoRoute,
    Delete(Ipv4),
    Unparsable(Seq<char>),
}

/// What to do with a state file found at startup.
pub enum ResiduePlan {
    /// The file names no adapter: remove it and do nothing else.
    MissingTapName,
    /// Handle the recorded route, delete the adapter, then remove the file.
    Cleanup { route: RouteResidue, tap_name: String },
}

pub enum ResiduePlanView {
    MissingTapName,
    Cleanup { route: RouteResidueView, tap_name: Seq<char> },
}

impl View for RouteResidue {
    type V = RouteResidueView;

    open spec fn view(&self) -> RouteResidueView {
        match self {
            RouteResidue::NoRoute => RouteResidueView::NoRoute,
            RouteResidue::Delete(ip) => RouteResidueView::Delete(*ip),
            RouteResidue::Unparsable(s) => RouteResidueView::Unparsable(s@),
        }
    }
}

impl View for ResiduePlan {
    type V = ResiduePlanView;

    open spec fn view(&self) -> ResiduePlanView {
        match self {
            ResiduePlan::MissingTapName => ResiduePlanView::MissingTapName,
            ResiduePlan::Cleanup { route, tap_name } => ResiduePlanView::Cleanup {
                route: route@,
                tap_name: tap_name@,
            },
        }
    }
}

/// The cleanup a state file with content `s` calls for.
pub open spec fn residue_plan_spec(s: Seq<char>) -> ResiduePlanView {
    let ls = text::lines(s);
    match field_value(ls, "tap_name"@) {
        None => ResiduePlanView::MissingTapName,
        Some(name) => ResiduePlanView::Cleanup {
            route: match field_value(ls, "tap_route"@) {
                None => RouteResidueView::NoRoute,
                Some(r) => match net::ipv4_from_text(r) {
                    Some(ip) => RouteResidueView::Delete(ip),
                    None => RouteResidueView::Unparsable(r),
                },
            },
            tap_name: name,
        },
    }
}

/// Later lines override earlier ones.
pub open spec fn combine(earlier: Option<Seq<char>>, later: Option<Seq<char>>) -> Option<Seq<char>> {
    if later is Some {
        later
    } else {
        earlier
    }
}

pub open spec fn range_value(v: Seq<char>, r: Option<(usize, usize)>) -> Option<Seq<char>> {
    match r {
        Some((lo, hi)) => Some(v.subrange(lo as int, hi as int)),
        None => None,
    }
}

/// Reads the state file content `s` and decides the cleanup it calls for.
pub fn residue_plan(s: &str) -> (r: ResiduePlan)
    ensures
        r@ == residue_plan_spec(s@),
{
    let v = text::chars_of(s);
    let n = v.len();
    let key_name = text::chars_of("tap_name");
    let key_route = text::chars_of("tap_route");
    let mut name: Option<(usize, usize)> = None;
    let mut route: Option<(usize, usize)> = None;
    let mut pos: usize = 0;
    assert(v@.skip(0) =~= v@);
    while pos < n
        invariant
            v@ == s@,
            n == v@.len(),
            pos <= n,
            key_name@ == "tap_name"@,
            key_route@ == "tap_route"@,
            name matches Some((a, b)) ==> a <= b <= n,
            route matches Some((a, b)) ==> a <= b <= n,
            field_value(text::lines(s@), "tap_name"@) == combine(
                range_value(v@, name),
                field_value(text::lines(v@.skip(pos as int)), "tap_name"@),
            ),
            field_value(text::lines(s@), "tap_route"@) == combine(
                range_value(v@, route),
                field_value(text::lines(v@.skip(pos as int)), "tap_route"@),
            ),
        decreases n - pos,
    {
        let (end, next) = text::line_at(v.as_slice(), pos);
        let ghost line = v@.subrange(pos as int, end as int);
        let ghost rest = text::lines(v@.skip(next as int));
        let ghost ls = text::lines(v@.skip(pos as int));
        assert(ls == seq![line] + rest);
        assert(ls.drop_first() =~= rest);
        assert(ls[0] == line);
        let e = text::find_char(v.as_slice(), pos, end, '=');
        if e < end {
            assert(line.take(e - pos) =~= v@.subrange(pos as int, e as int));
            assert(line.skip(e - pos + 1) =~= v@.subrange(e + 1, end as int));
            if text::range_equals(v.as_slice(), pos, e, key_name.as_slice()) {
                name = Some((e + 1, end));
            }
            if text::range_equals(v.as_slice(), pos, e, key_route.as_slice()) {
                route = Some((e + 1, end));
            }
        }
        pos = next;
    }
    assert(v@.skip(n as int) =~= Seq::<char>::empty());
    match name {
        None => ResiduePlan::MissingTapName,
        Some((a, b)) => {
            let tap_name = text::string_from(v.as_slice(), a, b);
            let route = match route {
                None => RouteResidue::NoRoute,
                Some((c, d)) => match net::parse_ipv4_chars(v.as_slice(), c, d) {
                    Some(ip) => {
                        proof {
                            net::lemma_ipv4_from_text(v@.subrange(c as int, d as int), Some(ip));
                        }
                        RouteResidue::Delete(ip)
                    },
                    None => {
                        proof {
                            net::lemma_ipv4_from_text(v@.subrange(c as int, d as int), None);
                        }
                        RouteResidue::Unparsable(text::string_from(v.as_slice(), c, d))
                    },
                },
            };
            ResiduePlan::Cleanup { route, tap_name }
        },
    }
}

/// One step of cleaning up after a crashed run.
pub enum ResidueStep {
    /// Warn that the state file names no adapter.
    ReportMissingTapName,
    /// Delete the host route to this address.
    DeleteHostRoute(Ipv4),
    /// Warn that the recorded route is not an IPv4 address.
    ReportUnparsableRoute(String),
    /// Delete the adapter with this GUID.
    DeleteTap(String),
    /// Remove the state file.
    RemoveStateFile,
}

pub enum ResidueStepView {
    ReportMissingTapName,
    DeleteHostRoute(Ipv4),
    ReportUnparsableRoute(Seq<char>),
    DeleteTap(Seq<char>),
    RemoveStateFile,
}

impl View for ResidueStep {
    type V = ResidueStepView;

    open spec fn view(&self) -> ResidueStepView {
        match self {
            ResidueStep::ReportMissingTapName => ResidueStepView::ReportMissingTapName,
            ResidueStep::DeleteHostRoute(ip) => ResidueStepView::DeleteHostRoute(*ip),
            ResidueStep::ReportUnparsableRoute(s) => ResidueStepView::ReportUnparsableRoute(s@),
            ResidueStep::DeleteTap(s) => ResidueStepView::DeleteTap(s@),
            ResidueStep::RemoveStateFile => ResidueStepView::RemoveStateFile,
        }
    }
}

/// The views of a list of residue steps.
pub open spec fn residue_steps_view(steps: Seq<ResidueStep>) -> Seq<ResidueStepView> {
    steps.map_values(|st: ResidueStep| st@)
}

/// The cleanup a plan calls for, in order: the recorded route first (deleted,
/// or reported when unreadable), then the adapter, then the state file, which
/// is removed whatever the earlier steps gave. A file that names no adapter is
/// reported and removed. A failed step does not stop the others.
pub open spec fn residue_steps_spec(plan: ResiduePlanView) -> Seq<ResidueStepView> {
    match plan {
        ResiduePlanView::MissingTapName => seq![
            ResidueStepView::ReportMissingTapName,
            ResidueStepView::RemoveStateFile,
        ],
        ResiduePlanView::Cleanup { route, tap_name } => (match route {
            RouteResidueView::NoRoute => Seq::<ResidueStepView>::empty(),
            RouteResidueView::Delete(ip) => seq![ResidueStepView::DeleteHostRoute(ip)],
            RouteResidueView::Unparsable(t) => seq![ResidueStepView::ReportUnparsableRoute(t)],
        }) + seq![ResidueStepView::DeleteTap(tap_name), ResidueStepView::RemoveStateFile],
    }
}

/// The steps that carry out a residue plan.
pub fn residue_steps(plan: ResiduePlan) -> (r: Vec<ResidueStep>)
    ensures
        residue_steps_view(r@) == residue_steps_spec(plan@),
{
    let ghost pv = plan@;
    let mut r: Vec<ResidueStep> = Vec::new();
    match plan {
        ResiduePlan::MissingTapName => {
            r.push(ResidueStep::ReportMissingTapName);
            r.push(ResidueStep::RemoveStateFile);
        },
        ResiduePlan::Cleanup { route, tap_name } => {
            match route {
                RouteResidue::NoRoute => {},
                RouteResidue::Delete(ip) => r.push(ResidueStep::DeleteHostRoute(ip)),
                RouteResidue::Unparsable(t) => r.push(ResidueStep::ReportUnparsableRoute(t)),
            }
            r.push(ResidueStep::DeleteTap(tap_name));
            r.push(ResidueStep::RemoveStateFile);
        },
    }
    assert(residue_steps_view(r@) =~= residue_steps_spec(pv));
    r
}

/// A residue cleanup always ends by removing the state file, and only then.
/// When the file names an adapter, deleting that adapter comes just before,
/// and the recorded route, if any, is handled first: deleted when it is an
/// address, reported otherwise.
pub proof fn lemma_residue_steps(plan: ResiduePlanView)
    ensures
        ({
            let s = residue_steps_spec(plan);
            &&& s.len() >= 2
            &&& s.last() == ResidueStepView::RemoveStateFile
            &&& forall|i: int| 0 <= i < s.len() - 1 ==> s[i] != ResidueStepView::RemoveStateFile
            &&& match plan {
                ResiduePlanView::MissingTapName => s == seq![
                    ResidueStepView::ReportMissingTapName,
                    ResidueStepView::RemoveStateFile,
                ],
                ResiduePlanView::Cleanup { route, tap_name } => {
                    &&& s[s.len() - 2] == ResidueStepView::DeleteTap(tap_name)
                    &&& match route {
                        RouteResidueView::NoRoute => s.len() == 2,
                        RouteResidueView::Delete(ip) => s.len() == 3 && s[0]
                            == ResidueStepView::DeleteHostRoute(ip),
                        RouteResidueView::Unparsable(t) => s.len() == 3 && s[0]
                            == ResidueStepView::ReportUnparsableRoute(t),
                    }
                },
            }
        }),
{
    let s = residue_steps_spec(plan);
    match plan {
        ResiduePlanView::MissingTapName => {},
        ResiduePlanView::Cleanup { route, tap_name } => {
            let tail = seq![ResidueStepView::DeleteTap(tap_name), ResidueStepView::RemoveStateFile];
            match route {
                RouteResidueView::NoRoute => {
                    assert(s =~= tail);
                },
                RouteResidueView::Delete(ip) => {
                    assert(s =~= seq![ResidueStepView::DeleteHostRoute(ip)] + tail);
                },
                RouteResidueView::Unparsable(t) => {
                    assert(s =~= seq![ResidueStepView::ReportUnparsableRoute(t)] + tail);
                },
            }
        },
    }
}

/// A line without a line break, followed by `\n`, is read back as one line.
proof fn lemma_lines_cons(a: Seq<char>, tail: Seq<char>)
    requires
        forall|i: int| 0 <= i < a.len() ==> a[i] != '\n',
        a.len() == 0 || a.last() != '\r',
    ensures
        text::lines(a + seq!['\n'] + tail) == seq![a] + text::lines(tail),
{
    let x = a + seq!['\n'] + tail;
    assert forall|j: int| 0 <= j < a.len() implies x[j] != '\n' by {
        assert(x[j] == a[j]);
    }
    assert(x[a.len() as int] == '\n');
    text::lemma_index_of(x, '\n', a.len() as int);
    assert(x.take(a.len() as int) =~= a);
    assert(x.skip(a.len() as int + 1) =~= tail);
}

/// The key and value of a `key=value` line whose key holds no `=`.
proof fn lemma_field_of(key: Seq<char>, value: Seq<char>)
    requires
        forall|i: int| 0 <= i < key.len() ==> key[i] != '=',
    ensures
        field_of(key + seq!['='] + value) == Some((key, value)),
{
    let l = key + seq!['='] + value;
    assert forall|j: int| 0 <= j < key.len() implies l[j] != '=' by {
        assert(l[j] == key[j]);
    }
    assert(l[key.len() as int] == '=');
    text::lemma_index_of(l, '=', key.len() as int);
    assert(l.take(key.len() as int) =~= key);
    assert(l.skip(key.len() as int + 1) =~= value);
}

/// What a start reads from the state file is what the running client wrote:
/// the content written for adapter `tap_name` and route `tap_route` calls for
/// deleting exactly that adapter and, when a route was recorded, the host route
/// to exactly that address. The name must hold no line feed and must not end
/// in a carriage return, since the file is read line by line.
pub proof fn lemma_state_roundtrip(tap_name: Seq<char>, tap_route: Option<Ipv4>)
    requires
        forall|i: int| 0 <= i < tap_name.len() ==> tap_name[i] != '\n',
        tap_name.len() == 0 || tap_name.last() != '\r',
    ensures
        residue_plan_spec(state_text(tap_name, tap_route)) == (ResiduePlanView::Cleanup {
            route: match tap_route {
                Some(ip) => RouteResidueView::Delete(ip),
                None => RouteResidueView::NoRoute,
            },
            tap_name,
        }),
{
    reveal_strlit("tap_name=");
    reveal_strlit("tap_route=");
    reveal_strlit("tap_name");
    reveal_strlit("tap_route");
    let kn = "tap_name"@;
    let kr = "tap_route"@;
    assert(kn.len() == 8);
    assert(kr.len() == 9);
    assert(kn != kr);
    let a = "tap_name="@ + tap_name;
    assert(a =~= kn + seq!['='] + tap_name);
    lemma_field_of(kn, tap_name);
    assert forall|i: int| 0 <= i < a.len() implies a[i] != '\n' by {
        if i >= 9 {
            assert(a[i] == tap_name[i - 9]);
        }
    }
    if tap_name.len() > 0 {
        assert(a.last() == tap_name.last());
    }
    let tail = match tap_route {
        Some(ip) => "tap_route="@ + net::ipv4_text(ip) + seq!['\n'],
        None => Seq::<char>::empty(),
    };
    assert(state_text(tap_name, tap_route) =~= a + seq!['\n'] + tail);
    lemma_lines_cons(a, tail);
    let ls = text::lines(state_text(tap_name, tap_route));
    match tap_route {
        Some(ip) => {
            let t = net::ipv4_text(ip);
            net::lemma_ipv4_text_layout(ip);
            let b = "tap_route="@ + t;
            assert(b =~= kr + seq!['='] + t);
            lemma_field_of(kr, t);
            assert forall|i: int| 0 <= i < b.len() implies b[i] != '\n' by {
                if i >= 10 {
                    assert(b[i] == t[i - 10]);
                }
            }
            assert(b.last() == t.last());
            assert(t.last() == t[t.len() - 1]);
            assert(tail =~= b + seq!['\n'] + Seq::<char>::empty());
            lemma_lines_cons(b, Seq::<char>::empty());
            assert(text::lines(Seq::<char>::empty()) =~= Seq::<Seq<char>>::empty());
            assert(ls =~= seq![a, b]);
            let l1 = seq![b];
            assert(ls.drop_first() =~= l1);
            assert(l1.drop_first() =~= Seq::<Seq<char>>::empty());
            assert(field_value(Seq::<Seq<char>>::empty(), kn) is None);
            assert(field_value(Seq::<Seq<char>>::empty(), kr) is None);
            assert(field_value(l1, kn) is None);
            assert(field_value(l1, kr) == Some(t));
            assert(field_value(ls, kn) == Some(tap_name));
            assert(field_value(ls, kr) == Some(t));
            net::lemma_ipv4_from_text(t, Some(ip));
        },
        None => {
            assert(text::lines(Seq::<char>::empty()) =~= Seq::<Seq<char>>::empty());
            assert(ls =~= seq![a]);
            assert(ls.drop_first() =~= Seq::<Seq<char>>::empty());
            assert(field_value(Seq::<Seq<char>>::empty(), kn) is None);
            assert(field_value(Seq::<Seq<char>>::empty(), kr) is None);
            assert(field_value(ls, kn) == Some(tap_name));
            assert(field_value(ls, kr) is None);
        },
    }
}

} // verus!
