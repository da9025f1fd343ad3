use mesh_proxy::relay::{
    copy_hbone, Direction, Progress, Relay, RelayAction, RelayEvent, HBONE_BUFFER_SIZE,
};
use std::io::{Error, ErrorKind};

fn running() -> Relay {
    copy_hbone().0
}

fn broken() -> Error {
    Error::new(ErrorKind::BrokenPipe, "peer went away")
}

#[test]
fn buffer_size_leaves_room_for_a_frame_header() {
    assert_eq!(HBONE_BUFFER_SIZE, 16_320);
}

#[test]
fn relay_begins_with_both_copy_loops() {
    let (relay, first, second) = copy_hbone();
    assert_eq!(
        relay,
        Relay::Running { tunnel_to_tcp: Progress::Copying, tcp_to_tunnel: Progress::Copying }
    );
    assert!(matches!(
        first,
        RelayAction::Copy { direction: Direction::TunnelToTcp, buffer: 16_320 }
    ));
    assert!(matches!(
        second,
        RelayAction::Copy { direction: Direction::TcpToTunnel, buffer: 16_320 }
    ));
    assert_eq!(relay.result(), None);
}

#[test]
fn relay_reports_counts_per_direction() {
    let relay = running();
    let (relay, action) = relay.step(RelayEvent::Copied(Direction::TunnelToTcp, Ok(7)));
    assert!(matches!(action, RelayAction::Shutdown(Direction::TunnelToTcp)));
    assert_eq!(
        relay,
        Relay::Running { tunnel_to_tcp: Progress::Closing(7), tcp_to_tunnel: Progress::Copying }
    );
    let (relay, action) = relay.step(RelayEvent::Copied(Direction::TcpToTunnel, Ok(11)));
    assert!(matches!(action, RelayAction::Shutdown(Direction::TcpToTunnel)));
    let (relay, action) = relay.step(RelayEvent::Closed(Direction::TcpToTunnel, Ok(())));
    assert!(matches!(action, RelayAction::Continue));
    assert_eq!(
        relay,
        Relay::Running { tunnel_to_tcp: Progress::Closing(7), tcp_to_tunnel: Progress::Closed(11) }
    );
    assert_eq!(relay.result(), None);
    let (relay, action) = relay.step(RelayEvent::Closed(Direction::TunnelToTcp, Ok(())));
    assert!(matches!(action, RelayAction::Complete { sent: 11, received: 7 }));
    assert_eq!(relay, Relay::Completed { sent: 11, received: 7 });
    assert_eq!(relay.result(), Some((11, 7)));
}

#[test]
fn one_direction_may_finish_before_the_other_starts_to_close() {
    let relay = running();
    let (relay, _) = relay.step(RelayEvent::Copied(Direction::TcpToTunnel, Ok(0)));
    let (relay, action) = relay.step(RelayEvent::Closed(Direction::TcpToTunnel, Ok(())));
    assert!(matches!(action, RelayAction::Continue));
    let (relay, action) = relay.step(RelayEvent::Copied(Direction::TunnelToTcp, Ok(u64::MAX)));
    assert!(matches!(action, RelayAction::Shutdown(Direction::TunnelToTcp)));
    let (relay, action) = relay.step(RelayEvent::Closed(Direction::TunnelToTcp, Ok(())));
    assert!(matches!(action, RelayAction::Complete { sent: 0, received: u64::MAX }));
    assert_eq!(relay.result(), Some((0, u64::MAX)));
}

#[test]
fn failed_copy_ends_the_relay_at_once() {
    let relay = running();
    let (relay, _) = relay.step(RelayEvent::Copied(Direction::TunnelToTcp, Ok(7)));
    let (relay, action) = relay.step(RelayEvent::Copied(Direction::TcpToTunnel, Err(broken())));
    match action {
        RelayAction::Abort(failure) => assert_eq!(failure.kind(), ErrorKind::BrokenPipe),
        other => panic!("{:?}", other),
    }
    assert_eq!(relay, Relay::Failed);
    assert_eq!(relay.result(), None);
}

#[test]
fn failed_shutdown_ends_the_relay_at_once() {
    let relay = running();
    let (relay, _) = relay.step(RelayEvent::Copied(Direction::TunnelToTcp, Ok(7)));
    let (relay, _) = relay.step(RelayEvent::Copied(Direction::TcpToTunnel, Ok(9)));
    let (relay, _) = relay.step(RelayEvent::Closed(Direction::TcpToTunnel, Ok(())));
    let failure = Error::new(ErrorKind::ConnectionReset, "reset");
    let (relay, action) = relay.step(RelayEvent::Closed(Direction::TunnelToTcp, Err(failure)));
    match action {
        RelayAction::Abort(failure) => assert_eq!(failure.kind(), ErrorKind::ConnectionReset),
        other => panic!("{:?}", other),
    }
    assert_eq!(relay, Relay::Failed);
    assert_eq!(relay.result(), None);
}

#[test]
fn failed_relay_ignores_what_is_reported_later() {
    let (relay, _) = running().step(RelayEvent::Copied(Direction::TunnelToTcp, Err(broken())));
    for event in [
        RelayEvent::Copied(Direction::TcpToTunnel, Ok(3)),
        RelayEvent::Closed(Direction::TcpToTunnel, Ok(())),
        RelayEvent::Copied(Direction::TunnelToTcp, Ok(3)),
        RelayEvent::Closed(Direction::TunnelToTcp, Err(broken())),
    ] {
        let (next, action) = relay.step(event);
        assert!(matches!(action, RelayAction::Ignored));
        assert_eq!(next, Relay::Failed);
    }
}

#[test]
fn reports_that_nothing_waits_for_are_ignored() {
    let relay = running();
    let (same, action) = relay.step(RelayEvent::Closed(Direction::TunnelToTcp, Ok(())));
    assert!(matches!(action, RelayAction::Ignored));
    assert_eq!(same, relay);
    let (same, action) = relay.step(RelayEvent::Closed(Direction::TcpToTunnel, Err(broken())));
    assert!(matches!(action, RelayAction::Ignored));
    assert_eq!(same, relay);
    let (closing, _) = relay.step(RelayEvent::Copied(Direction::TunnelToTcp, Ok(5)));
    let (same, action) = closing.step(RelayEvent::Copied(Direction::TunnelToTcp, Ok(6)));
    assert!(matches!(action, RelayAction::Ignored));
    assert_eq!(same, closing);
    let done = Relay::Completed { sent: 1, received: 2 };
    let (same, action) = done.step(RelayEvent::Copied(Direction::TunnelToTcp, Err(broken())));
    assert!(matches!(action, RelayAction::Ignored));
    assert_eq!(same, done);
}
