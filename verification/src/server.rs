//! Server-mode decisions: how socket errors and received frames move the
//! "peer port unreachable" flag, and what each one calls for.
use vstd::prelude::*;

verus! {

/// The Winsock error an ICMP Port Unreachable reply surfaces as: the peer's
/// address answers but its port is not open yet.
pub const WSAECONNRESET: i32 = 10054;

/// Ethernet frame capture length: MTU 1500 + header 14 + FCS 4.
pub const FRAME_BUF: usize = 1518;

/// UDP receive buffer, slightly larger than the largest frame.
pub const UDP_BUF: usize = 1600;

/// Something that happened on the tunnel socket.
#[derive(Clone, Copy, PartialEq, Eq, Structural, Debug)]
pub enum LinkEvent {
    /// Sending a frame to the peer failed with this OS error code, if any.
    SendFailed(Option<i32>),
    /// Receiving from the socket failed with this OS error code, if any.
    ReceiveFailed(Option<i32>),
    /// A frame arrived from the peer.
    FrameReceived,
}

/// What a socket event calls for.
#[derive(Clone, Copy, PartialEq, Eq, Structural, Debug)]
pub enum LinkAction {
    /// Warn once that the peer port is closed, and go on.
    WarnPortClosed,
    /// Go on without a message.
    Continue,
    /// Report the error and stop this direction of the tunnel.
    Stop,
    /// Report that the peer is reachable again, and inject the frame.
    ReportRecoveredAndInject,
    /// Inject the frame.
    Inject,
}

/// The flag and action after `event`, given whether the peer port was known
/// to be closed: a port-unreachable error sets the flag and warns only when it
/// was clear; any other error stops; a received frame clears the flag and is
/// injected, reporting the recovery when the flag was set.
pub open spec fn link_step_spec(port_closed: bool, event: LinkEvent) -> (bool, LinkAction) {
    match event {
        LinkEvent::SendFailed(code) | LinkEvent::ReceiveFailed(code) => if code == Some(
            WSAECONNRESET,
        ) {
            (true, if port_closed {
                LinkAction::Continue
            } else {
                LinkAction::WarnPortClosed
            })
        } else {
            (port_closed, LinkAction::Stop)
        },
        LinkEvent::FrameReceived => (false, if port_closed {
            LinkAction::ReportRecoveredAndInject
        } else {
            LinkAction::Inject
        }),
    }
}

/// Decides the new flag and the action for one socket event.
pub fn link_step(port_closed: bool, event: LinkEvent) -> (r: (bool, LinkAction))
    ensures
        r == link_step_spec(port_closed, event),
{
    match event {
        LinkEvent::SendFailed(code) | LinkEvent::ReceiveFailed(code) => {
            let reset = match code {
                Some(c) => c == WSAECONNRESET,
                None => false,
            };
            if reset {
                (true, if port_closed {
                    LinkAction::Continue
                } else {
                    LinkAction::WarnPortClosed
                })
            } else {
                (port_closed, LinkAction::Stop)
            }
        },
        LinkEvent::FrameReceived => (false, if port_closed {
            LinkAction::ReportRecoveredAndInject
        } else {
            LinkAction::Inject
        }),
    }
}

/// The port-closed warning is given once per outage: after a warning, further
/// port-unreachable errors stay silent until a frame from the peer arrives,
/// and the first one after that warns again.
pub proof fn lemma_warn_once_per_outage(port_closed: bool, code_a: LinkEvent, code_b: LinkEvent)
    requires
        code_a == LinkEvent::SendFailed(Some(WSAECONNRESET)) || code_a == LinkEvent::ReceiveFailed(
            Some(WSAECONNRESET),
        ),
        code_b == LinkEvent::SendFailed(Some(WSAECONNRESET)) || code_b == LinkEvent::ReceiveFailed(
            Some(WSAECONNRESET),
        ),
    ensures
        link_step_spec(link_step_spec(port_closed, code_a).0, code_b).1 == LinkAction::Continue,
        link_step_spec(link_step_spec(port_closed, LinkEvent::FrameReceived).0, code_b).1
            == LinkAction::WarnPortClosed,
{
}

/// How socket events move the port-closed flag. Only the port-unreachable
/// error (10054) is survived: it sets the flag, warning only when it was clear.
/// Any other error, or an error without a code, on either direction stops that
/// direction and leaves the flag as it was. A frame from the peer clears the
/// flag and is injected, with a recovery report when the flag was set.
pub proof fn lemma_link_events(port_closed: bool, code: Option<i32>)
    ensures
        WSAECONNRESET == 10054,
        code != Some(10054i32) ==> link_step_spec(port_closed, LinkEvent::SendFailed(code)) == (
        port_closed, LinkAction::Stop),
        code != Some(10054i32) ==> link_step_spec(port_closed, LinkEvent::ReceiveFailed(code)) == (
        port_closed, LinkAction::Stop),
        code == Some(10054i32) ==> link_step_spec(port_closed, LinkEvent::SendFailed(code)) == (
        true, if port_closed {
            LinkAction::Continue
        } else {
            LinkAction::WarnPortClosed
        }),
        code == Some(10054i32) ==> link_step_spec(port_closed, LinkEvent::ReceiveFailed(code)) == (
        true, if port_closed {
            LinkAction::Continue
        } else {
            LinkAction::WarnPortClosed
        }),
        link_step_spec(port_closed, LinkEvent::FrameReceived) == (false, if port_closed {
            LinkAction::ReportRecoveredAndInject
        } else {
            LinkAction::Inject
        }),
{
}

} // verus!
