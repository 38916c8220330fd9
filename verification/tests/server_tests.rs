use l2portal::server::{link_step, LinkAction, LinkEvent, WSAECONNRESET};

#[test]
fn port_unreachable_warns_once() {
    let reset = LinkEvent::SendFailed(Some(WSAECONNRESET));
    let (closed, act) = link_step(false, reset);
    assert!(closed);
    assert_eq!(act, LinkAction::WarnPortClosed);
    let (closed, act) = link_step(closed, LinkEvent::ReceiveFailed(Some(WSAECONNRESET)));
    assert!(closed);
    assert_eq!(act, LinkAction::Continue);
    let (closed, act) = link_step(closed, LinkEvent::FrameReceived);
    assert!(!closed);
    assert_eq!(act, LinkAction::ReportRecoveredAndInject);
    let (_, act) = link_step(closed, reset);
    assert_eq!(act, LinkAction::WarnPortClosed);
}

#[test]
fn other_errors_stop() {
    assert_eq!(link_step(false, LinkEvent::SendFailed(None)), (false, LinkAction::Stop));
    assert_eq!(link_step(true, LinkEvent::ReceiveFailed(Some(5))), (true, LinkAction::Stop));
    assert_eq!(link_step(false, LinkEvent::FrameReceived), (false, LinkAction::Inject));
}
