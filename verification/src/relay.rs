//! The bidirectional relay between an upgraded tunnel stream and a TCP
//! socket, as a state machine.
//!
//! The caller owns the two streams and performs the I/O. It starts what
//! [`copy_hbone`] and [`Relay::step`] tell it to start and reports every
//! completion back as a [`RelayEvent`]. The machine decides what happens
//! next: a direction whose source reached end-of-stream is half-closed, the
//! first failure ends the relay at once, and the byte counts are handed out
//! only when both directions have been closed cleanly.

use vstd::prelude::*;

verus! {

/// Capacity of each buffer of the relay. A TLS record holds at most 16 KiB;
/// the allowance leaves room for the frame header of the tunnel transport.
pub const HBONE_BUFFER_SIZE: usize = 16_384 - 64;

/// One of the two directions in which bytes flow.
#[derive(Clone, Copy, Debug, PartialEq, Eq, Structural)]
pub enum Direction {
    /// Read from the tunnel, written to the TCP socket.
    TunnelToTcp,
    /// Read from the TCP socket, written to the tunnel.
    TcpToTunnel,
}

/// How far one direction has come.
#[derive(Clone, Copy, Debug, PartialEq, Eq, Structural)]
pub enum Progress {
    /// The copy loop is running.
    Copying,
    /// The source reached end-of-stream after this many bytes; the
    /// half-close of the write side is under way.
    Closing(u64),
    /// This many bytes were copied and the write side is closed.
    Closed(u64),
}

/// State of a relay.
#[derive(Clone, Copy, Debug, PartialEq, Eq, Structural)]
pub enum Relay {
    Running { tunnel_to_tcp: Progress, tcp_to_tunnel: Progress },
    /// Both directions were closed cleanly.
    Completed { sent: u64, received: u64 },
    /// One direction failed; the relay is torn down.
    Failed,
}

/// A completion reported by the caller.
#[derive(Debug)]
pub enum RelayEvent {
    /// The copy loop of a direction ended: with the number of bytes moved
    /// when its source reached end-of-stream, or with a failure.
    Copied(Direction, Result<u64, std::io::Error>),
    /// The half-close of a direction's write side ended.
    Closed(Direction, Result<(), std::io::Error>),
}

/// What the caller has to do next.
#[derive(Debug)]
pub enum RelayAction {
    /// Start the copy loop of a direction, reading and writing through
    /// buffers of the given capacity.
    Copy { direction: Direction, buffer: usize },
    /// Half-close the write side of a direction.
    Shutdown(Direction),
    /// Nothing to start; go on with what is in flight.
    Continue,
    /// The relay succeeded. `sent` counts the bytes moved from the TCP
    /// socket into the tunnel, `received` those moved from the tunnel to
    /// the TCP socket.
    Complete { sent: u64, received: u64 },
    /// The relay failed with this failure: drop whatever is still in flight.
    Abort(std::io::Error),
    /// The event does not belong to the state the relay is in; nothing
    /// changed.
    Ignored,
}

impl Relay {
    /// The state in which both copy loops run.
    pub open spec fn initial() -> Relay {
        Relay::Running { tunnel_to_tcp: Progress::Copying, tcp_to_tunnel: Progress::Copying }
    }

    /// Progress of a direction while the relay runs.
    pub open spec fn progress(self, direction: Direction) -> Progress
        recommends
            self is Running,
    {
        match direction {
            Direction::TunnelToTcp => self->tunnel_to_tcp,
            Direction::TcpToTunnel => self->tcp_to_tunnel,
        }
    }

    /// The running state in which `direction` has come to `progress` and
    /// the other direction is where it was.
    pub open spec fn with_progress(self, direction: Direction, progress: Progress) -> Relay
        recommends
            self is Running,
    {
        match direction {
            Direction::TunnelToTcp => Relay::Running {
                tunnel_to_tcp: progress,
                tcp_to_tunnel: self->tcp_to_tunnel,
            },
            Direction::TcpToTunnel => Relay::Running {
                tunnel_to_tcp: self->tunnel_to_tcp,
                tcp_to_tunnel: progress,
            },
        }
    }

    /// Whether the relay waits for this event: the end of the copy loop of
    /// a direction that is copying, or the end of the half-close of a
    /// direction that is closing.
    pub open spec fn expects(self, event: RelayEvent) -> bool {
        self is Running && match event {
            RelayEvent::Copied(direction, _) => self.progress(direction) is Copying,
            RelayEvent::Closed(direction, _) => self.progress(direction) is Closing,
        }
    }

    /// The state after an event.
    pub open spec fn next(self, event: RelayEvent) -> Relay {
        if !self.expects(event) {
            self
        } else {
            match event {
                RelayEvent::Copied(direction, Ok(count)) => self.with_progress(
                    direction,
                    Progress::Closing(count),
                ),
                RelayEvent::Closed(direction, Ok(_)) => {
                    let closed = self.with_progress(
                        direction,
                        Progress::Closed(self.progress(direction)->Closing_0),
                    );
                    if closed->tunnel_to_tcp is Closed && closed->tcp_to_tunnel is Closed {
                        Relay::Completed {
                            sent: closed->tcp_to_tunnel->Closed_0,
                            received: closed->tunnel_to_tcp->Closed_0,
                        }
                    } else {
                        closed
                    }
                },
                RelayEvent::Copied(_, Err(_)) | RelayEvent::Closed(_, Err(_)) => Relay::Failed,
            }
        }
    }

    /// What the caller is told to do after an event.
    pub open spec fn action(self, event: RelayEvent) -> RelayAction {
        if !self.expects(event) {
            RelayAction::Ignored
        } else {
            match event {
                RelayEvent::Copied(direction, Ok(_)) => RelayAction::Shutdown(direction),
                RelayEvent::Closed(_, Ok(_)) => match self.next(event) {
                    Relay::Completed { sent, received } => RelayAction::Complete { sent, received },
                    _ => RelayAction::Continue,
                },
                RelayEvent::Copied(_, Err(failure)) | RelayEvent::Closed(_, Err(failure)) =>
                    RelayAction::Abort(failure),
            }
        }
    }

    /// The result of the relay, once it has one: the pair `(sent, received)`
    /// of a relay that completed. A failed relay has no counts.
    pub open spec fn counts(self) -> Option<(u64, u64)> {
        match self {
            Relay::Completed { sent, received } => Some((sent, received)),
            _ => None,
        }
    }

    /// Takes one event and says what to do next.
    pub fn step(self, event: RelayEvent) -> (r: (Relay, RelayAction))
        ensures
            r.0 == self.next(event),
            r.1 == self.action(event),
    {
        match self {
            Relay::Running { tunnel_to_tcp, tcp_to_tunnel } => match event {
                RelayEvent::Copied(direction, outcome) => {
                    let current = match direction {
                        Direction::TunnelToTcp => tunnel_to_tcp,
                        Direction::TcpToTunnel => tcp_to_tunnel,
                    };
                    match current {
                        Progress::Copying => match outcome {
                            Ok(count) => (
                                Self::place(
                                    tunnel_to_tcp,
                                    tcp_to_tunnel,
                                    direction,
                                    Progress::Closing(count),
                                ),
                                RelayAction::Shutdown(direction),
                            ),
                            Err(failure) => (Relay::Failed, RelayAction::Abort(failure)),
                        },
                        _ => (self, RelayAction::Ignored),
                    }
                },
                RelayEvent::Closed(direction, outcome) => {
                    let current = match direction {
                        Direction::TunnelToTcp => tunnel_to_tcp,
                        Direction::TcpToTunnel => tcp_to_tunnel,
                    };
                    match current {
                        Progress::Closing(count) => match outcome {
                            Ok(_) => {
                                let closed = Self::place(
                                    tunnel_to_tcp,
                                    tcp_to_tunnel,
                                    direction,
                                    Progress::Closed(count),
                                );
                                match closed {
                                    Relay::Running {
                                        tunnel_to_tcp: Progress::Closed(received),
                                        tcp_to_tunnel: Progress::Closed(sent),
                                    } => (
                                        Relay::Completed { sent, received },
                                        RelayAction::Complete { sent, received },
                                    ),
                                    _ => (closed, RelayAction::Continue),
                                }
                            },
                            Err(failure) => (Relay::Failed, RelayAction::Abort(failure)),
                        },
                        _ => (self, RelayAction::Ignored),
                    }
                },
            },
            _ => (self, RelayAction::Ignored),
        }
    }

    fn place(
        tunnel_to_tcp: Progress,
        tcp_to_tunnel: Progress,
        direction: Direction,
        progress: Progress,
    ) -> (r: Relay)
        ensures
            r == (Relay::Running { tunnel_to_tcp, tcp_to_tunnel }).with_progress(
                direction,
                progress,
            ),
    {
        match direction {
            Direction::TunnelToTcp => Relay::Running { tunnel_to_tcp: progress, tcp_to_tunnel },
            Direction::TcpToTunnel => Relay::Running { tunnel_to_tcp, tcp_to_tunnel: progress },
        }
    }

    /// The counts of a relay that completed.
    pub fn result(&self) -> (r: Option<(u64, u64)>)
        ensures
            r == self.counts(),
    {
        match self {
            Relay::Completed { sent, received } => Some((*sent, *received)),
            _ => None,
        }
    }
}

/// Whether an event reports a failure.
pub open spec fn is_failure(event: RelayEvent) -> bool {
    match event {
        RelayEvent::Copied(_, outcome) => outcome is Err,
        RelayEvent::Closed(_, outcome) => outcome is Err,
    }
}

/// The state that a relay reaches from its start over a run of events.
pub open spec fn state_after(events: Seq<RelayEvent>) -> Relay
    decreases events.len(),
{
    if events.len() == 0 {
        Relay::initial()
    } else {
        state_after(events.drop_last()).next(events.last())
    }
}

/// Event `at` of the run is the end of the copy loop of `direction` at
/// end-of-stream after `count` bytes, and the relay was waiting for it.
pub open spec fn copy_ended(
    events: Seq<RelayEvent>,
    at: int,
    direction: Direction,
    count: u64,
) -> bool {
    &&& 0 <= at < events.len()
    &&& state_after(events.take(at)).expects(events[at])
    &&& events[at] == RelayEvent::Copied(direction, Ok::<u64, std::io::Error>(count))
}

/// Event `at` of the run is the clean end of the half-close of `direction`,
/// and the relay was waiting for it.
pub open spec fn close_ended(events: Seq<RelayEvent>, at: int, direction: Direction) -> bool {
    &&& 0 <= at < events.len()
    &&& state_after(events.take(at)).expects(events[at])
    &&& events[at] matches RelayEvent::Closed(d, Ok(_))
    &&& d == direction
}

/// In the run, the copy loop of `direction` ended at end-of-stream after
/// `count` bytes.
pub open spec fn reached_end(events: Seq<RelayEvent>, direction: Direction, count: u64) -> bool {
    exists|i: int| #[trigger] copy_ended(events, i, direction, count)
}

/// In the run, the copy loop of `direction` ended at end-of-stream after
/// `count` bytes, and later its write side was closed cleanly.
pub open spec fn closed_cleanly(events: Seq<RelayEvent>, direction: Direction, count: u64) -> bool {
    exists|i: int, j: int|
        i < j && #[trigger] copy_ended(events, i, direction, count) && #[trigger] close_ended(
            events,
            j,
            direction,
        )
}

/// One more event extends a run by one step.
pub proof fn lemma_state_after_step(events: Seq<RelayEvent>, at: int)
    requires
        0 <= at < events.len(),
    ensures
        state_after(events.take(at + 1)) == state_after(events.take(at)).next(events[at]),
{
    let longer = events.take(at + 1);
    assert(longer.drop_last() =~= events.take(at));
}

/// A relay that has completed or failed stays as it is.
pub proof fn lemma_ended_stays(events: Seq<RelayEvent>, from: int, to: int)
    requires
        0 <= from <= to <= events.len(),
        !(state_after(events.take(from)) is Running),
    ensures
        state_after(events.take(to)) == state_after(events.take(from)),
    decreases to - from,
{
    if from < to {
        lemma_ended_stays(events, from, to - 1);
        lemma_state_after_step(events, to - 1);
    }
}

proof fn lemma_prefix_keeps_copy_ended(
    events: Seq<RelayEvent>,
    at: int,
    direction: Direction,
    count: u64,
)
    requires
        events.len() > 0,
        copy_ended(events.drop_last(), at, direction, count),
    ensures
        copy_ended(events, at, direction, count),
{
    assert(events.drop_last().take(at) =~= events.take(at));
}

proof fn lemma_prefix_keeps_close_ended(events: Seq<RelayEvent>, at: int, direction: Direction)
    requires
        events.len() > 0,
        close_ended(events.drop_last(), at, direction),
    ensures
        close_ended(events, at, direction),
{
    assert(events.drop_last().take(at) =~= events.take(at));
}

proof fn lemma_prefix_keeps_closed_cleanly(
    events: Seq<RelayEvent>,
    direction: Direction,
    count: u64,
)
    requires
        events.len() > 0,
        closed_cleanly(events.drop_last(), direction, count),
    ensures
        closed_cleanly(events, direction, count),
{
    let shorter = events.drop_last();
    let (i, j) = choose|i: int, j: int|
        i < j && #[trigger] copy_ended(shorter, i, direction, count) && #[trigger] close_ended(
            shorter,
            j,
            direction,
        );
    lemma_prefix_keeps_copy_ended(events, i, direction, count);
    lemma_prefix_keeps_close_ended(events, j, direction);
}

/// What the progress of a direction says of the run that led to it.
spec fn progress_explained(events: Seq<RelayEvent>, direction: Direction, progress: Progress) -> bool {
    &&& progress matches Progress::Closing(count) ==> reached_end(events, direction, count)
    &&& progress matches Progress::Closed(count) ==> closed_cleanly(events, direction, count)
}

spec fn state_explained(events: Seq<RelayEvent>) -> bool {
    match state_after(events) {
        Relay::Running { tunnel_to_tcp, tcp_to_tunnel } => {
            &&& progress_explained(events, Direction::TunnelToTcp, tunnel_to_tcp)
            &&& progress_explained(events, Direction::TcpToTunnel, tcp_to_tunnel)
        },
        Relay::Completed { sent, received } => {
            &&& closed_cleanly(events, Direction::TcpToTunnel, sent)
            &&& closed_cleanly(events, Direction::TunnelToTcp, received)
        },
        Relay::Failed => true,
    }
}

proof fn lemma_prefix_keeps_progress_explained(
    events: Seq<RelayEvent>,
    direction: Direction,
    progress: Progress,
)
    requires
        events.len() > 0,
        progress_explained(events.drop_last(), direction, progress),
    ensures
        progress_explained(events, direction, progress),
{
    match progress {
        Progress::Copying => {},
        Progress::Closing(count) => {
            let i = choose|i: int| #[trigger] copy_ended(events.drop_last(), i, direction, count);
            lemma_prefix_keeps_copy_ended(events, i, direction, count);
        },
        Progress::Closed(count) => {
            lemma_prefix_keeps_closed_cleanly(events, direction, count);
        },
    }
}

proof fn lemma_state_explained(events: Seq<RelayEvent>)
    ensures
        state_explained(events),
    decreases events.len(),
{
    if events.len() > 0 {
        let shorter = events.drop_last();
        let event = events.last();
        let before = state_after(shorter);
        let last = events.len() - 1;
        lemma_state_explained(shorter);
        match before {
            Relay::Running { tunnel_to_tcp, tcp_to_tunnel } => {
                lemma_prefix_keeps_progress_explained(events, Direction::TunnelToTcp, tunnel_to_tcp);
                lemma_prefix_keeps_progress_explained(events, Direction::TcpToTunnel, tcp_to_tunnel);
                if before.expects(event) {
                    match event {
                        RelayEvent::Copied(direction, Ok(count)) => {
                            assert(copy_ended(events, last, direction, count));
                        },
                        RelayEvent::Closed(direction, Ok(_)) => {
                            let count = before.progress(direction)->Closing_0;
                            let i = choose|i: int| #[trigger] copy_ended(shorter, i, direction, count);
                            lemma_prefix_keeps_copy_ended(events, i, direction, count);
                            assert(close_ended(events, last, direction));
                        },
                        _ => {},
                    }
                }
            },
            Relay::Completed { sent, received } => {
                lemma_prefix_keeps_closed_cleanly(events, Direction::TcpToTunnel, sent);
                lemma_prefix_keeps_closed_cleanly(events, Direction::TunnelToTcp, received);
            },
            Relay::Failed => {},
        }
    }
}

/// The counts of a relay that completed are those with which the two copy
/// loops ended: `sent` is the count of the copy from the TCP socket into the
/// tunnel, `received` that of the copy from the tunnel to the TCP socket.
/// Each direction's copy ended at end-of-stream, and its write side was
/// closed cleanly afterwards.
pub proof fn lemma_completed_counts(events: Seq<RelayEvent>, sent: u64, received: u64)
    requires
        state_after(events).counts() == Some((sent, received)),
    ensures
        closed_cleanly(events, Direction::TcpToTunnel, sent),
        closed_cleanly(events, Direction::TunnelToTcp, received),
{
    lemma_state_explained(events);
}

/// When the copy loop of a direction ends at end-of-stream, the relay
/// answers by asking for the half-close of that direction's write side.
pub proof fn lemma_copy_end_asks_for_shutdown(
    events: Seq<RelayEvent>,
    at: int,
    direction: Direction,
    count: u64,
)
    requires
        copy_ended(events, at, direction, count),
    ensures
        state_after(events.take(at)).action(events[at]) == RelayAction::Shutdown(direction),
{
}

/// A run of four reports, each of which the relay was waiting for and none
/// of which is a failure, completes the relay.
pub proof fn lemma_clean_run_completes(events: Seq<RelayEvent>)
    requires
        events.len() == 4,
        forall|at: int|
            0 <= at < 4 ==> #[trigger] state_after(events.take(at)).expects(events[at])
                && !is_failure(events[at]),
    ensures
        state_after(events) is Completed,
{
    lemma_state_after_step(events, 0);
    lemma_state_after_step(events, 1);
    lemma_state_after_step(events, 2);
    lemma_state_after_step(events, 3);
    assert(events.take(0) =~= Seq::empty());
    assert(events.take(4) =~= events);
    assert(state_after(events.take(0)).expects(events[0]));
    assert(state_after(events.take(1)).expects(events[1]));
    assert(state_after(events.take(2)).expects(events[2]));
    assert(state_after(events.take(3)).expects(events[3]));
}

/// Fail-fast: a failure that the relay was waiting for ends it. The step
/// answers with that failure; before it the relay had no counts, and
/// whatever is reported after it, the relay stays failed, ignores the
/// report and never has counts.
pub proof fn lemma_fail_fast(events: Seq<RelayEvent>, at: int, upto: int)
    requires
        0 <= at < events.len(),
        0 <= upto <= events.len(),
        state_after(events.take(at)).expects(events[at]),
        is_failure(events[at]),
    ensures
        state_after(events.take(at)).action(events[at]) is Abort,
        events[at] matches RelayEvent::Copied(_, Err(failure)) ==> state_after(
            events.take(at),
        ).action(events[at]) == RelayAction::Abort(failure),
        events[at] matches RelayEvent::Closed(_, Err(failure)) ==> state_after(
            events.take(at),
        ).action(events[at]) == RelayAction::Abort(failure),
        state_after(events.take(upto)).counts() is None,
        at < upto ==> state_after(events.take(upto)) is Failed,
        at < upto < events.len() ==> state_after(events.take(upto)).action(events[upto])
            is Ignored,
        state_after(events) is Failed,
{
    lemma_state_after_step(events, at);
    if upto <= at {
        if !(state_after(events.take(upto)) is Running) {
            lemma_ended_stays(events, upto, at);
        }
    } else {
        lemma_ended_stays(events, at + 1, upto);
    }
    lemma_ended_stays(events, at + 1, events.len() as int);
    assert(events.take(events.len() as int) =~= events);
}

/// Begins a relay: both copy loops are to be started, each with buffers of
/// [`HBONE_BUFFER_SIZE`] bytes.
pub fn copy_hbone() -> (r: (Relay, RelayAction, RelayAction))
    ensures
        r.0 == Relay::initial(),
        r.1 == (RelayAction::Copy {
            direction: Direction::TunnelToTcp,
            buffer: HBONE_BUFFER_SIZE,
        }),
        r.2 == (RelayAction::Copy {
            direction: Direction::TcpToTunnel,
            buffer: HBONE_BUFFER_SIZE,
        }),
{
    (
        Relay::Running { tunnel_to_tcp: Progress::Copying, tcp_to_tunnel: Progress::Copying },
        RelayAction::Copy { direction: Direction::TunnelToTcp, buffer: HBONE_BUFFER_SIZE },
        RelayAction::Copy { direction: Direction::TcpToTunnel, buffer: HBONE_BUFFER_SIZE },
    )
}

} // verus!
