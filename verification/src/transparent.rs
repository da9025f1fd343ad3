//! Transparent and freebind sockets: whether a listener is made
//! transparent, and how an outbound connection is bound to the address of
//! the original client.
//!
//! Creating sockets, setting their options, binding and connecting are the
//! caller's work. The functions here decide which of these steps are taken
//! and what a failed step means.

use crate::error::Error;
use crate::net::{canonical_ip, IpAddress, SocketAddress};
use crate::proxy::ProxyInputs;
use vstd::prelude::*;

verus! {

/// How much depends on making a listener transparent.
#[derive(Clone, Copy, Debug, PartialEq, Eq, Structural)]
pub enum TransparentAttempt {
    /// The operator asked for it: a failure is an error.
    Required,
    /// Nobody asked: a failure only means that the listener is not
    /// transparent.
    BestEffort,
}

/// What is to be done about the transparent option of a listener.
#[derive(Clone, Copy, Debug, PartialEq, Eq, Structural)]
pub enum Transparency {
    /// The option is not touched; the listener is transparent or not as
    /// said here.
    Settled(bool),
    /// The option is to be set, and the outcome handed to
    /// [`TransparentAttempt::conclude`].
    Attempt(TransparentAttempt),
}

/// What the configuration asks for.
pub open spec fn transparency_for(enable_original_source: Option<bool>) -> Transparency {
    match enable_original_source {
        Some(true) => Transparency::Attempt(TransparentAttempt::Required),
        Some(false) => Transparency::Settled(false),
        None => Transparency::Attempt(TransparentAttempt::BestEffort),
    }
}

/// Whether the listener sees original destination addresses, given how the
/// attempt to set the option went.
pub open spec fn concluded(
    attempt: TransparentAttempt,
    outcome: Result<(), std::io::Error>,
) -> Result<bool, Error> {
    match (attempt, outcome) {
        (_, Ok(_)) => Ok(true),
        (TransparentAttempt::Required, Err(failure)) => Err(Error::Io(failure)),
        (TransparentAttempt::BestEffort, Err(_)) => Ok(false),
    }
}

/// Decides from the configuration whether the transparent option of a
/// listener is set: always when it is enabled, never when it is disabled,
/// and as far as the system lets us when nothing is configured.
pub fn maybe_set_transparent(pi: &ProxyInputs) -> (r: Transparency)
    ensures
        r == transparency_for(pi.cfg.enable_original_source),
{
    match pi.cfg.enable_original_source {
        Some(true) => Transparency::Attempt(TransparentAttempt::Required),
        Some(false) => Transparency::Settled(false),
        None => Transparency::Attempt(TransparentAttempt::BestEffort),
    }
}

impl TransparentAttempt {
    /// Says whether the listener is transparent after the attempt to set
    /// the option, or hands on the failure where the option was required.
    pub fn conclude(self, outcome: Result<(), std::io::Error>) -> (r: Result<bool, Error>)
        ensures
            r == concluded(self, outcome),
    {
        match outcome {
            Ok(_) => Ok(true),
            Err(failure) => match self {
                TransparentAttempt::Required => Err(Error::Io(failure)),
                TransparentAttempt::BestEffort => Ok(false),
            },
        }
    }
}

/// The three ways in which the configuration decides over a listener. With
/// the option enabled, a failure to set it is the error of the whole. With
/// the option disabled, the listener is not transparent and nothing is
/// attempted. With nothing configured, the attempt is made and the answer
/// is whether it succeeded, never an error.
pub proof fn lemma_transparent_policy(
    enable_original_source: Option<bool>,
    outcome: Result<(), std::io::Error>,
)
    ensures
        enable_original_source == Some(true) ==> {
            &&& transparency_for(enable_original_source) matches Transparency::Attempt(attempt)
            &&& outcome matches Err(failure) ==> concluded(attempt, outcome) == Err::<bool, Error>(
                Error::Io(failure),
            )
            &&& outcome is Ok ==> concluded(attempt, outcome) == Ok::<bool, Error>(true)
        },
        enable_original_source == Some(false) ==> transparency_for(enable_original_source)
            == Transparency::Settled(false),
        enable_original_source is None ==> {
            &&& transparency_for(enable_original_source) matches Transparency::Attempt(attempt)
            &&& concluded(attempt, outcome) == Ok::<bool, Error>(outcome is Ok)
        },
{
}

/// The address family of a socket.
#[derive(Clone, Copy, Debug, PartialEq, Eq, Structural)]
pub enum Family {
    V4,
    V6,
}

/// The family of an address.
pub open spec fn family_of(ip: IpAddress) -> Family {
    match ip {
        IpAddress::V4(_) => Family::V4,
        IpAddress::V6(_) => Family::V6,
    }
}

/// Whether a connection to `destination` is made from a socket bound to the
/// requested source: only where a source is requested and it is not the
/// canonical address of the destination itself.
pub open spec fn binds_source(local: Option<IpAddress>, destination: SocketAddress) -> bool {
    match local {
        None => false,
        Some(source) => source != canonical_ip(destination.ip),
    }
}

/// An outbound connection in the making.
#[derive(Clone, Copy, Debug, PartialEq, Eq, Structural)]
pub enum Connector {
    /// A socket of the source's family is being created.
    OpeningSocket { source: IpAddress, destination: SocketAddress },
    /// The socket is being marked freebind and transparent.
    SettingOptions { source: IpAddress, destination: SocketAddress },
    /// The socket is being bound to the source address.
    Binding { destination: SocketAddress },
    /// The last step was handed to the caller; nothing is left to decide.
    Done,
}

/// A completion reported by the caller.
#[derive(Debug)]
pub enum ConnectEvent {
    /// The socket was created, or could not be.
    SocketOpened(Result<(), std::io::Error>),
    /// The socket was marked freebind and transparent, or could not be.
    OptionsSet(Result<(), std::io::Error>),
    /// The socket was bound to the source address, or could not be.
    Bound(Result<(), std::io::Error>),
}

/// Why a connection goes out without the requested source address.
#[derive(Debug)]
pub enum Forgone {
    /// The socket could not be marked freebind and transparent; the bind
    /// was not attempted.
    Options(std::io::Error),
    /// The socket could not be bound to the source address.
    Bind(std::io::Error),
}

/// What the caller has to do next.
#[derive(Debug)]
pub enum ConnectAction {
    /// Connect to the address in the ordinary way, with no socket prepared
    /// and no option set. The outcome is the outcome of the whole.
    PlainConnect(SocketAddress),
    /// Create a socket of this family.
    OpenSocket(Family),
    /// Mark the socket freebind and transparent.
    SetFreebindAndTransparent,
    /// Bind the socket to this address.
    Bind(SocketAddress),
    /// Connect the socket to the destination. The outcome is the outcome
    /// of the whole. Where `forgone` says so, the source address was given
    /// up on the way, which is worth a warning and nothing more.
    Connect { destination: SocketAddress, forgone: Option<Forgone> },
    /// The whole failed with this failure.
    Fail(std::io::Error),
    /// The event does not belong to the state; nothing changed.
    Ignored,
}

impl Connector {
    /// Whether the connector waits for this event.
    pub open spec fn expects(self, event: ConnectEvent) -> bool {
        match (self, event) {
            (Connector::OpeningSocket { .. }, ConnectEvent::SocketOpened(_)) => true,
            (Connector::SettingOptions { .. }, ConnectEvent::OptionsSet(_)) => true,
            (Connector::Binding { .. }, ConnectEvent::Bound(_)) => true,
            _ => false,
        }
    }

    /// The state after an event.
    pub open spec fn next(self, event: ConnectEvent) -> Connector {
        match (self, event) {
            (
                Connector::OpeningSocket { source, destination },
                ConnectEvent::SocketOpened(Ok(_)),
            ) => Connector::SettingOptions { source, destination },
            (
                Connector::SettingOptions { source, destination },
                ConnectEvent::OptionsSet(Ok(_)),
            ) => Connector::Binding { destination },
            _ => if self.expects(event) {
                Connector::Done
            } else {
                self
            },
        }
    }

    /// What the caller is told to do after an event.
    pub open spec fn action(self, event: ConnectEvent) -> ConnectAction {
        match (self, event) {
            (Connector::OpeningSocket { .. }, ConnectEvent::SocketOpened(Ok(_))) =>
                ConnectAction::SetFreebindAndTransparent,
            (Connector::OpeningSocket { .. }, ConnectEvent::SocketOpened(Err(failure))) =>
                ConnectAction::Fail(failure),
            (Connector::SettingOptions { source, .. }, ConnectEvent::OptionsSet(Ok(_))) =>
                ConnectAction::Bind(SocketAddress { ip: source, port: 0 }),
            (
                Connector::SettingOptions { destination, .. },
                ConnectEvent::OptionsSet(Err(failure)),
            ) => ConnectAction::Connect { destination, forgone: Some(Forgone::Options(failure)) },
            (Connector::Binding { destination }, ConnectEvent::Bound(Ok(_))) =>
                ConnectAction::Connect { destination, forgone: None },
            (Connector::Binding { destination }, ConnectEvent::Bound(Err(failure))) =>
                ConnectAction::Connect { destination, forgone: Some(Forgone::Bind(failure)) },
            _ => ConnectAction::Ignored,
        }
    }

    /// Takes one event and says what to do next. Only a socket that cannot
    /// be created fails the connection; a socket that cannot be marked or
    /// bound is connected as it is.
    pub fn step(self, event: ConnectEvent) -> (r: (Connector, ConnectAction))
        ensures
            r.0 == self.next(event),
            r.1 == self.action(event),
    {
        match self {
            Connector::OpeningSocket { source, destination } => match event {
                ConnectEvent::SocketOpened(Ok(_)) => (
                    Connector::SettingOptions { source, destination },
                    ConnectAction::SetFreebindAndTransparent,
                ),
                ConnectEvent::SocketOpened(Err(failure)) => (
                    Connector::Done,
                    ConnectAction::Fail(failure),
                ),
                _ => (self, ConnectAction::Ignored),
            },
            Connector::SettingOptions { source, destination } => match event {
                ConnectEvent::OptionsSet(Ok(_)) => (
                    Connector::Binding { destination },
                    ConnectAction::Bind(SocketAddress { ip: source, port: 0 }),
                ),
                ConnectEvent::OptionsSet(Err(failure)) => (
                    Connector::Done,
                    ConnectAction::Connect {
                        destination,
                        forgone: Some(Forgone::Options(failure)),
                    },
                ),
                _ => (self, ConnectAction::Ignored),
            },
            Connector::Binding { destination } => match event {
                ConnectEvent::Bound(Ok(_)) => (
                    Connector::Done,
                    ConnectAction::Connect { destination, forgone: None },
                ),
                ConnectEvent::Bound(Err(failure)) => (
                    Connector::Done,
                    ConnectAction::Connect { destination, forgone: Some(Forgone::Bind(failure)) },
                ),
                _ => (self, ConnectAction::Ignored),
            },
            Connector::Done => (self, ConnectAction::Ignored),
        }
    }
}

/// The state in which a connection begins, and the first thing to do.
pub open spec fn first_step(local: Option<IpAddress>, addr: SocketAddress) -> (
    Connector,
    ConnectAction,
) {
    if binds_source(local, addr) {
        (
            Connector::OpeningSocket { source: local->Some_0, destination: addr },
            ConnectAction::OpenSocket(family_of(local->Some_0)),
        )
    } else {
        (Connector::Done, ConnectAction::PlainConnect(addr))
    }
}

/// Begins an outbound connection to `addr`. Without a requested source, or
/// with one that is the canonical address of the destination itself, the
/// connection is made in the ordinary way. Otherwise a socket of the
/// source's family is prepared first.
pub fn freebind_connect(local: Option<IpAddress>, addr: SocketAddress) -> (r: (
    Connector,
    ConnectAction,
))
    ensures
        r == first_step(local, addr),
{
    match local {
        None => (Connector::Done, ConnectAction::PlainConnect(addr)),
        Some(source) => {
            if source == addr.ip.to_canonical() {
                (Connector::Done, ConnectAction::PlainConnect(addr))
            } else {
                let family = if source.is_ipv4() {
                    Family::V4
                } else {
                    Family::V6
                };
                (
                    Connector::OpeningSocket { source, destination: addr },
                    ConnectAction::OpenSocket(family),
                )
            }
        },
    }
}

/// The state that a connector reaches from `start` over a run of events.
pub open spec fn connector_after(start: Connector, events: Seq<ConnectEvent>) -> Connector
    decreases events.len(),
{
    if events.len() == 0 {
        start
    } else {
        connector_after(start, events.drop_last()).next(events.last())
    }
}

/// A connector with nothing left to decide ignores every event.
pub proof fn lemma_done_stays(events: Seq<ConnectEvent>, upto: int)
    requires
        0 <= upto <= events.len(),
    ensures
        connector_after(Connector::Done, events.take(upto)) == Connector::Done,
        upto < events.len() ==> connector_after(Connector::Done, events.take(upto)).action(
            events[upto],
        ) == ConnectAction::Ignored,
    decreases upto,
{
    if upto > 0 {
        lemma_done_stays(events, upto - 1);
        let longer = events.take(upto);
        assert(longer.drop_last() =~= events.take(upto - 1));
    }
}

/// Only a socket that cannot be created fails a connection. A socket that
/// cannot be marked or bound is connected all the same, to the destination
/// that was asked for.
pub proof fn lemma_only_socket_creation_fails(connector: Connector, event: ConnectEvent)
    ensures
        connector.action(event) is Fail ==> connector is OpeningSocket && event
            matches ConnectEvent::SocketOpened(Err(_)),
        connector is SettingOptions && event is OptionsSet ==> connector.action(event) is Bind
            || (connector.action(event) is Connect && connector.action(event)->destination
            == connector->SettingOptions_destination),
        connector is Binding && event is Bound ==> connector.action(event) is Connect
            && connector.action(event)->destination == connector->Binding_destination,
{
}

/// Where no source address is bound — none was requested, or the requested
/// one is the canonical address of the destination — the connection is one
/// ordinary connect: no socket is created, no option is set and nothing is
/// bound, whatever is reported afterwards.
pub proof fn lemma_plain_connect_sets_no_option(
    local: Option<IpAddress>,
    addr: SocketAddress,
    events: Seq<ConnectEvent>,
    at: int,
)
    requires
        local is None || local == Some(canonical_ip(addr.ip)),
        0 <= at < events.len(),
    ensures
        first_step(local, addr).1 == ConnectAction::PlainConnect(addr),
        connector_after(first_step(local, addr).0, events.take(at)).action(events[at])
            == ConnectAction::Ignored,
{
    lemma_done_stays(events, at);
}

} // verus!
