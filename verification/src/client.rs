//! Client-mode decisions: the console commands, the order of route updates
//! when the peer changes, and the order of cleanup on exit.
use vstd::prelude::*;

use crate::cli::{Endpoints, TapArg};
use crate::net;
use crate::net::{Endpoint, Ipv4, ParsedAddr};
use crate::text;
use vstd::string::StrSliceExecFns;

verus! {

/// A line typed on the console.
pub enum ConsoleCommand {
    /// `switch <IP:PORT>`: `address` is the address text trimmed, `raw` the
    /// text after `switch ` as typed.
    Switch { address: String, raw: String },
    /// Any other non-empty line, trimmed.
    Unknown(String),
    /// A blank line.
    Empty,
}

pub enum ConsoleCommandView {
    Switch { address: Seq<char>, raw: Seq<char> },
    Unknown(Seq<char>),
    Empty,
}

impl View for ConsoleCommand {
    type V = ConsoleCommandView;

    open spec fn view(&self) -> ConsoleCommandView {
        match self {
            ConsoleCommand::Switch { address, raw } => ConsoleCommandView::Switch {
                address: address@,
                raw: raw@,
            },
            ConsoleCommand::Unknown(l) => ConsoleCommandView::Unknown(l@),
            ConsoleCommand::Empty => ConsoleCommandView::Empty,
        }
    }
}

/// What a console line means: the line is trimmed; `switch ` followed by an
/// address switches the peer; any other text is unknown.
pub open spec fn console_command_spec(line: Seq<char>) -> ConsoleCommandView {
    let t = text::trim(line);
    if text::has_prefix(t, "switch "@) {
        let raw = t.skip("switch "@.len() as int);
        ConsoleCommandView::Switch { address: text::trim(raw), raw }
    } else if t.len() > 0 {
        ConsoleCommandView::Unknown(t)
    } else {
        ConsoleCommandView::Empty
    }
}

/// Reads one console line.
pub fn parse_console_command(line: &str) -> (r: ConsoleCommand)
    ensures
        r@ == console_command_spec(line@),
{
    let v = text::chars_of(line);
    let n = v.len();
    assert(v@.subrange(0, n as int) =~= v@);
    let (a, b) = text::strip_bounds(v.as_slice(), 0, n, text::CharClass::Whitespace);
    let ghost t = v@.subrange(a as int, b as int);
    let prefix = text::chars_of("switch ");
    if text::starts_with_chars(v.as_slice(), a, b, prefix.as_slice()) {
        let start = a + prefix.len();
        assert(t.skip(prefix@.len() as int) =~= v@.subrange(start as int, b as int));
        let raw = text::string_from(v.as_slice(), start, b);
        let (c, d) = text::strip_bounds(v.as_slice(), start, b, text::CharClass::Whitespace);
        let address = text::string_from(v.as_slice(), c, d);
        ConsoleCommand::Switch { address, raw }
    } else if a < b {
        ConsoleCommand::Unknown(text::string_from(v.as_slice(), a, b))
    } else {
        ConsoleCommand::Empty
    }
}

/// One step of keeping the host route to the peer in place.
#[derive(Clone, Copy, PartialEq, Eq, Structural, Debug)]
pub enum RouteStep {
    /// Delete the /32 host route to this address.
    DeleteHostRoute(Ipv4),
    /// Look up the best route to this address and add a /32 host route along it.
    AddHostRoute(Ipv4),
    /// Record this address as the pinned route in the state file.
    RecordRoute(Ipv4),
}

/// The steps that move the pinned host route from `old_remote` to
/// `new_remote`: a route to the same peer is first deleted so it can be added
/// afresh; the new route is added and recorded before the old one is deleted.
pub open spec fn sync_route_steps_spec(old_remote: Option<Ipv4>, new_remote: Ipv4) -> Seq<RouteStep> {
    (if old_remote == Some(new_remote) {
        seq![RouteStep::DeleteHostRoute(new_remote)]
    } else {
        Seq::empty()
    }) + seq![RouteStep::AddHostRoute(new_remote), RouteStep::RecordRoute(new_remote)] + match old_remote {
        Some(o) => if o != new_remote {
            seq![RouteStep::DeleteHostRoute(o)]
        } else {
            Seq::empty()
        },
        None => Seq::empty(),
    }
}

/// The steps that move the pinned host route to `new_remote`; they are carried
/// out in order and the first failure ends them.
pub fn sync_route_steps(old_remote: Option<Ipv4>, new_remote: Ipv4) -> (r: Vec<RouteStep>)
    ensures
        r@ == sync_route_steps_spec(old_remote, new_remote),
{
    let mut r: Vec<RouteStep> = Vec::new();
    let same = match old_remote {
        Some(o) => o == new_remote,
        None => false,
    };
    if same {
        r.push(RouteStep::DeleteHostRoute(new_remote));
    }
    r.push(RouteStep::AddHostRoute(new_remote));
    r.push(RouteStep::RecordRoute(new_remote));
    if let Some(o) = old_remote {
        if o != new_remote {
            r.push(RouteStep::DeleteHostRoute(o));
        }
    }
    assert(r@ =~= sync_route_steps_spec(old_remote, new_remote));
    r
}

/// One step of the cleanup on exit.
#[derive(Clone, Copy, PartialEq, Eq, Structural, Debug)]
pub enum CleanupStep {
    /// Switch the adapter back to DHCP, dropping its static address.
    ClearTapIp,
    /// Delete the host route to this address.
    DeleteHostRoute(Ipv4),
    /// Delete the adapter.
    DeleteTap,
    /// Remove the state file.
    RemoveStateFile,
}

/// The cleanup on exit, in order: clear the adapter address (so routes are
/// not recalculated before the host route goes), delete the host route to the
/// current peer `remote_ip`, delete the adapter, remove the state file. A
/// failed step does not stop the others.
pub fn cleanup_steps(remote_ip: Ipv4) -> (r: Vec<CleanupStep>)
    ensures
        r@ == seq![
            CleanupStep::ClearTapIp,
            CleanupStep::DeleteHostRoute(remote_ip),
            CleanupStep::DeleteTap,
            CleanupStep::RemoveStateFile,
        ],
{
    let mut r: Vec<CleanupStep> = Vec::new();
    r.push(CleanupStep::ClearTapIp);
    r.push(CleanupStep::DeleteHostRoute(remote_ip));
    r.push(CleanupStep::DeleteTap);
    r.push(CleanupStep::RemoveStateFile);
    assert(r@ =~= seq![
        CleanupStep::ClearTapIp,
        CleanupStep::DeleteHostRoute(remote_ip),
        CleanupStep::DeleteTap,
        CleanupStep::RemoveStateFile,
    ]);
    r
}

/// One step of bringing the client up.
#[derive(Clone, Copy, PartialEq, Eq, Structural, Debug)]
pub enum StartupStep {
    /// Remove what a crashed run left behind (see the state file).
    CleanupResidue,
    /// Create the TAP adapter.
    CreateTap,
    /// Record the new adapter in the state file, with no route yet.
    RecordTap,
    /// Pin a /32 host route to the peer through the underlay and record it.
    PinHostRoute(Ipv4),
    /// Give the adapter this static address and prefix length.
    SetTapIp(Ipv4, u8),
}

/// Whether the client pins a /32 host route to its peer: only when the
/// adapter gets a static address, so that the tunnel's own traffic cannot be
/// routed into the adapter.
pub fn pins_host_route(tap_ip_prefix: Option<(Ipv4, u8)>) -> (r: bool)
    ensures
        r == tap_ip_prefix is Some,
{
    tap_ip_prefix.is_some()
}

/// The startup of client mode, in order: clean up residue, create the
/// adapter, record it; then, only when a static address was requested, pin
/// the host route to the peer and, after it, set the address, so that the
/// tunnel's own traffic cannot be routed into the adapter. The first failure
/// ends the startup.
pub fn startup_steps(remote_ip: Ipv4, tap_ip_prefix: Option<(Ipv4, u8)>) -> (r: Vec<StartupStep>)
    ensures
        r@ == seq![StartupStep::CleanupResidue, StartupStep::CreateTap, StartupStep::RecordTap]
            + match tap_ip_prefix {
            Some((ip, prefix)) => seq![
                StartupStep::PinHostRoute(remote_ip),
                StartupStep::SetTapIp(ip, prefix),
            ],
            None => Seq::<StartupStep>::empty(),
        },
{
    let mut r: Vec<StartupStep> = Vec::new();
    r.push(StartupStep::CleanupResidue);
    r.push(StartupStep::CreateTap);
    r.push(StartupStep::RecordTap);
    if let Some((ip, prefix)) = tap_ip_prefix {
        r.push(StartupStep::PinHostRoute(remote_ip));
        r.push(StartupStep::SetTapIp(ip, prefix));
    }
    assert(r@ =~= seq![StartupStep::CleanupResidue, StartupStep::CreateTap, StartupStep::RecordTap]
        + match tap_ip_prefix {
        Some((ip, prefix)) => seq![
            StartupStep::PinHostRoute(remote_ip),
            StartupStep::SetTapIp(ip, prefix),
        ],
        None => Seq::<StartupStep>::empty(),
    });
    r
}

/// What a `switch` command calls for.
#[derive(Clone, Copy, PartialEq, Eq, Structural, Debug)]
pub enum SwitchPlan {
    /// The address is not a socket address: report it; the peer stays.
    RejectInvalid,
    /// The address is IPv6: report that the peer must be IPv4; the peer stays.
    RejectNotIpv4,
    /// Move the pinned host route from `old` to `new`'s address; the peer
    /// becomes `new` only if that succeeds.
    MoveRouteThenSwitch { old: Ipv4, new: Endpoint },
    /// No route is pinned: the peer becomes this endpoint at once.
    Switch(Endpoint),
}

/// The plan for `switch` to the address parsed as `parsed` (`None` when it is
/// no socket address), while the peer is `current` and a host route to it is
/// pinned or not.
pub open spec fn switch_plan_spec(current: Endpoint, parsed: Option<ParsedAddr>, route_pinned: bool) -> SwitchPlan {
    match parsed {
        None => SwitchPlan::RejectInvalid,
        Some(ParsedAddr::V6) => SwitchPlan::RejectNotIpv4,
        Some(ParsedAddr::V4(new)) => if route_pinned {
            SwitchPlan::MoveRouteThenSwitch { old: current.ip, new }
        } else {
            SwitchPlan::Switch(new)
        },
    }
}

/// Decides what a `switch` command does.
pub fn switch_plan(current: Endpoint, parsed: Option<ParsedAddr>, route_pinned: bool) -> (r: SwitchPlan)
    ensures
        r == switch_plan_spec(current, parsed, route_pinned),
{
    match parsed {
        None => SwitchPlan::RejectInvalid,
        Some(ParsedAddr::V6) => SwitchPlan::RejectNotIpv4,
        Some(ParsedAddr::V4(new)) => if route_pinned {
            SwitchPlan::MoveRouteThenSwitch { old: current.ip, new }
        } else {
            SwitchPlan::Switch(new)
        },
    }
}

/// The peer that `plan` switches to once carried out, if it switches: a
/// rejected address switches to nothing; a route move switches only when it
/// succeeded (`moved`); a plain switch always switches.
pub open spec fn switch_outcome_spec(plan: SwitchPlan, moved: bool) -> Option<Endpoint> {
    match plan {
        SwitchPlan::RejectInvalid => None,
        SwitchPlan::RejectNotIpv4 => None,
        SwitchPlan::MoveRouteThenSwitch { old, new } => if moved {
            Some(new)
        } else {
            None
        },
        SwitchPlan::Switch(new) => Some(new),
    }
}

/// The peer that `plan` switches to, if any; `moved` says whether the route
/// move it called for, if any, succeeded.
pub fn switch_outcome(plan: SwitchPlan, moved: bool) -> (r: Option<Endpoint>)
    ensures
        r == switch_outcome_spec(plan, moved),
{
    match plan {
        SwitchPlan::RejectInvalid => None,
        SwitchPlan::RejectNotIpv4 => None,
        SwitchPlan::MoveRouteThenSwitch { old, new } => if moved {
            Some(new)
        } else {
            None
        },
        SwitchPlan::Switch(new) => Some(new),
    }
}

/// The peer after a `switch` command while the peer is `current`: the
/// address parsed from it (`None` when it is no socket address) and, when the
/// plan moves the pinned route, whether that move succeeded (`moved`).
pub open spec fn peer_after_switch(current: Endpoint, parsed: Option<ParsedAddr>, route_pinned: bool, moved: bool) -> Endpoint {
    match switch_outcome_spec(switch_plan_spec(current, parsed, route_pinned), moved) {
        Some(p) => p,
        None => current,
    }
}

/// A console line as far as the peer is concerned.
#[derive(Clone, Copy, PartialEq, Eq, Structural, Debug)]
pub enum ConsoleEvent {
    /// A `switch` command: its address as parsed, and whether the planned
    /// route move (if any) succeeded.
    Switch { parsed: Option<ParsedAddr>, moved: bool },
    /// Any other line, blank or not.
    Other,
}

/// The peer after a run of console lines, starting from `start`.
pub open spec fn peer_after_lines(start: Endpoint, route_pinned: bool, lines: Seq<ConsoleEvent>) -> Endpoint
    decreases lines.len(),
{
    if lines.len() == 0 {
        start
    } else {
        let before = peer_after_lines(start, route_pinned, lines.drop_last());
        match lines.last() {
            ConsoleEvent::Switch { parsed, moved } => peer_after_switch(before, parsed, route_pinned, moved),
            ConsoleEvent::Other => before,
        }
    }
}

/// The target of the last `switch` in `lines` that took effect: an IPv4
/// address, and, when a route is pinned, a route move that succeeded.
pub open spec fn last_effective_switch(route_pinned: bool, lines: Seq<ConsoleEvent>) -> Option<Endpoint>
    decreases lines.len(),
{
    if lines.len() == 0 {
        None
    } else {
        match lines.last() {
            ConsoleEvent::Switch { parsed: Some(ParsedAddr::V4(new)), moved } => if !route_pinned || moved {
                Some(new)
            } else {
                last_effective_switch(route_pinned, lines.drop_last())
            },
            _ => last_effective_switch(route_pinned, lines.drop_last()),
        }
    }
}

/// After any run of console lines the peer is the target of the last switch
/// that took effect, or the first peer when none did: invalid and IPv6
/// addresses, failed route moves and other lines leave the peer as it was.
pub proof fn lemma_peer_after_lines(start: Endpoint, route_pinned: bool, lines: Seq<ConsoleEvent>)
    ensures
        peer_after_lines(start, route_pinned, lines) == match last_effective_switch(route_pinned, lines) {
            Some(p) => p,
            None => start,
        },
    decreases lines.len(),
{
    if lines.len() > 0 {
        lemma_peer_after_lines(start, route_pinned, lines.drop_last());
    }
}

/// The message printed after a switch to `peer`.
pub fn switched_message(peer: Endpoint) -> (r: String)
    ensures
        r@ == "[INFO] client: switched remote to "@ + net::endpoint_text(peer),
{
    let mut r = String::from_str("[INFO] client: switched remote to ");
    net::push_endpoint(&mut r, peer);
    r
}

/// The message printed when a `switch` address is IPv6.
pub fn not_ipv4_message() -> (r: String)
    ensures
        r@ == "[ERROR] client: remote address must be IPv4"@,
{
    String::from_str("[ERROR] client: remote address must be IPv4")
}

/// Parameters for client mode.
pub struct ClientParams {
    /// The requested adapter name (`auto` lets tapctl choose).
    pub tap_name: String,
    /// The static address and prefix length to configure, if any.
    pub tap_ip_prefix: Option<(Ipv4, u8)>,
    pub local_addr: Endpoint,
    pub remote_addr: Endpoint,
}

/// The client parameters for a `--tap` argument and the tunnel endpoints; an
/// unnamed adapter is requested as `auto`.
pub fn client_params(tap: TapArg, endpoints: Endpoints) -> (r: ClientParams)
    ensures
        r.tap_name@ == match tap@.name {
            Some(n) => n,
            None => "auto"@,
        },
        r.tap_ip_prefix == tap.ip_prefix,
        r.local_addr == endpoints.local,
        r.remote_addr == endpoints.remote,
{
    let tap_name = match tap.name {
        Some(n) => n,
        None => String::from_str("auto"),
    };
    ClientParams {
        tap_name,
        tap_ip_prefix: tap.ip_prefix,
        local_addr: endpoints.local,
        remote_addr: endpoints.remote,
    }
}

/// A list of steps that app code carries out one by one.
#[derive(Clone, Copy, PartialEq, Eq, Structural, Debug)]
pub enum StepRun {
    /// `startup_steps`: a failure ends the startup with that error.
    Startup,
    /// `sync_route_steps`: a failure ends the route update with that error.
    RouteSync,
    /// `cleanup_steps`: a failure is logged and the next step still runs.
    Cleanup,
    /// `state::residue_steps`: a failure is logged and the next step still runs.
    ResidueCleanup,
}

/// What follows a step.
#[derive(Clone, Copy, PartialEq, Eq, Structural, Debug)]
pub enum NextStep {
    /// Run the step at this position.
    Run(usize),
    /// Every step has been run.
    Done,
    /// A step failed and the run ends there.
    Abort,
}

/// Whether a failed step ends `run`.
pub open spec fn stops_on_failure(run: StepRun) -> bool {
    run == StepRun::Startup || run == StepRun::RouteSync
}

/// What follows step `index` of `count` in `run`, which `succeeded` or not.
pub open spec fn next_step_spec(run: StepRun, count: nat, index: nat, succeeded: bool) -> NextStep {
    if !succeeded && stops_on_failure(run) {
        NextStep::Abort
    } else if index + 1 < count {
        NextStep::Run((index + 1) as usize)
    } else {
        NextStep::Done
    }
}

/// Decides what follows step `index` of the `count` steps of `run`.
pub fn next_step(run: StepRun, count: usize, index: usize, succeeded: bool) -> (r: NextStep)
    requires
        index < count,
    ensures
        r == next_step_spec(run, count as nat, index as nat, succeeded),
{
    let stops = match run {
        StepRun::Startup | StepRun::RouteSync => true,
        StepRun::Cleanup | StepRun::ResidueCleanup => false,
    };
    if !succeeded && stops {
        NextStep::Abort
    } else if index + 1 < count {
        NextStep::Run(index + 1)
    } else {
        NextStep::Done
    }
}

/// How a run of steps goes on. In a startup or a route update a failed step
/// ends the run wherever it stands, the last step included. In an exit or
/// residue cleanup a failed step never ends it: every step is attempted. A
/// step that succeeded is followed by the next one, or ends the run when it
/// was the last.
pub proof fn lemma_step_runs(run: StepRun, count: nat, index: nat, succeeded: bool)
    requires
        index < count <= usize::MAX,
    ensures
        (run == StepRun::Startup || run == StepRun::RouteSync) && !succeeded ==> next_step_spec(
            run,
            count,
            index,
            succeeded,
        ) == NextStep::Abort,
        (run == StepRun::Cleanup || run == StepRun::ResidueCleanup || succeeded) && index + 1
            < count ==> next_step_spec(run, count, index, succeeded) == NextStep::Run(
            (index + 1) as usize,
        ),
        (run == StepRun::Cleanup || run == StepRun::ResidueCleanup || succeeded) && index + 1
            == count ==> next_step_spec(run, count, index, succeeded) == NextStep::Done,
{
}

/// Moving the pinned route to `new_remote`: a new route is always added along
/// the best path and recorded, the record after the addition. The route to a
/// different old peer is deleted, and only after the new one is recorded; the
/// route to the new peer is deleted (before it is added afresh) exactly when
/// it is the old peer's. No other route is touched.
pub proof fn lemma_route_move(old_remote: Option<Ipv4>, new_remote: Ipv4)
    ensures
        ({
            let s = sync_route_steps_spec(old_remote, new_remote);
            &&& s.contains(RouteStep::AddHostRoute(new_remote))
            &&& s.contains(RouteStep::RecordRoute(new_remote))
            &&& (s.contains(RouteStep::DeleteHostRoute(new_remote)) <==> old_remote == Some(new_remote))
            &&& match old_remote {
                Some(o) => o != new_remote ==> s.contains(RouteStep::DeleteHostRoute(o)),
                None => true,
            }
            &&& forall|x: Ipv4| #[trigger] s.contains(RouteStep::DeleteHostRoute(x)) ==> old_remote == Some(x)
            &&& forall|x: Ipv4| #[trigger] s.contains(RouteStep::AddHostRoute(x)) ==> x == new_remote
            &&& forall|x: Ipv4| #[trigger] s.contains(RouteStep::RecordRoute(x)) ==> x == new_remote
            &&& old_remote == Some(new_remote) ==> s == seq![
                RouteStep::DeleteHostRoute(new_remote),
                RouteStep::AddHostRoute(new_remote),
                RouteStep::RecordRoute(new_remote),
            ]
            &&& old_remote is None ==> s == seq![RouteStep::AddHostRoute(new_remote), RouteStep::RecordRoute(new_remote)]
            &&& match old_remote {
                Some(o) => o != new_remote ==> s == seq![
                    RouteStep::AddHostRoute(new_remote),
                    RouteStep::RecordRoute(new_remote),
                    RouteStep::DeleteHostRoute(o),
                ],
                None => true,
            }
        }),
{
    let s = sync_route_steps_spec(old_remote, new_remote);
    let add = RouteStep::AddHostRoute(new_remote);
    let rec = RouteStep::RecordRoute(new_remote);
    match old_remote {
        None => {
            assert(s =~= seq![add, rec]);
            assert(s[0] == add && s[1] == rec);
        },
        Some(o) => {
            if o == new_remote {
                let del = RouteStep::DeleteHostRoute(new_remote);
                assert(s =~= seq![del, add, rec]);
                assert(s[0] == del && s[1] == add && s[2] == rec);
            } else {
                let del = RouteStep::DeleteHostRoute(o);
                assert(s =~= seq![add, rec, del]);
                assert(s[0] == add && s[1] == rec && s[2] == del);
            }
        },
    }
}

/// A `switch` takes effect exactly when its address is IPv4 and, when a
/// route is pinned, the route move succeeded; it then switches to that
/// address and to nothing else. The planned route move goes from the current
/// peer's address to the new one.
pub proof fn lemma_switch_takes_effect(current: Endpoint, parsed: Option<ParsedAddr>, route_pinned: bool, moved: bool)
    ensures
        ({
            let plan = switch_plan_spec(current, parsed, route_pinned);
            let out = switch_outcome_spec(plan, moved);
            &&& match parsed {
                Some(ParsedAddr::V4(new)) => (!route_pinned || moved) ==> out == Some(new),
                _ => true,
            }
            &&& out matches Some(p) ==> parsed == Some(ParsedAddr::V4(p)) && (route_pinned ==> moved)
            &&& plan matches SwitchPlan::MoveRouteThenSwitch { old, new } ==> old == current.ip
                && route_pinned && parsed == Some(ParsedAddr::V4(new))
            &&& parsed is None ==> plan == SwitchPlan::RejectInvalid
            &&& parsed == Some(ParsedAddr::V6) ==> plan == SwitchPlan::RejectNotIpv4
        }),
{
}

} // verus!
