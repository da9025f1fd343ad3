//! The orchestrator: the four listener roles of a proxy, the order in which
//! they are bound at startup, and the bookkeeping of their tasks.
//!
//! Binding a listener and running a role are the caller's work. The caller
//! asks [`Proxy::new`] and [`Startup::step`] what to bind next and reports
//! how each bind went; it asks [`Proxy::run`] which tasks to start and
//! reports to [`Supervisor::task_ended`] each task that ended.

use crate::error::Error;
use crate::net::SocketAddress;
use vstd::prelude::*;

verus! {

/// The part of the process configuration that this library reads.
#[derive(Clone, Copy, Debug, PartialEq, Eq, Structural)]
pub struct Config {
    /// Whether listeners must (`Some(true)`), must not (`Some(false)`) or
    /// should if they can (`None`) see the original destination addresses.
    pub enable_original_source: Option<bool>,
}

/// What every listener role is constructed from.
#[derive(Clone, Copy, Debug, PartialEq, Eq, Structural)]
pub struct ProxyInputs {
    pub cfg: Config,
    /// The port on which this proxy receives tunnel traffic; zero until the
    /// inbound listener is bound.
    pub hbone_port: u16,
}

/// A listener role.
#[derive(Clone, Copy, Debug, PartialEq, Eq, Structural)]
pub enum Role {
    /// Receives tunnel traffic from other proxies.
    Inbound,
    /// Receives traffic addressed to the workload that came without tunnel.
    InboundPassthrough,
    /// Takes the workload's outgoing traffic.
    Outbound,
    /// Takes outgoing traffic through a SOCKS5 handshake.
    Socks5,
}

/// A set of roles.
#[derive(Clone, Copy, Debug, PartialEq, Eq, Structural)]
pub struct RoleSet {
    pub inbound: bool,
    pub inbound_passthrough: bool,
    pub outbound: bool,
    pub socks5: bool,
}

impl RoleSet {
    pub open spec fn empty() -> RoleSet {
        RoleSet { inbound: false, inbound_passthrough: false, outbound: false, socks5: false }
    }

    pub open spec fn all() -> RoleSet {
        RoleSet { inbound: true, inbound_passthrough: true, outbound: true, socks5: true }
    }

    pub open spec fn spec_contains(&self, role: Role) -> bool {
        match role {
            Role::Inbound => self.inbound,
            Role::InboundPassthrough => self.inbound_passthrough,
            Role::Outbound => self.outbound,
            Role::Socks5 => self.socks5,
        }
    }

    pub open spec fn spec_is_empty(&self) -> bool {
        *self == RoleSet::empty()
    }

    /// The set without `role`.
    pub open spec fn without(self, role: Role) -> RoleSet {
        match role {
            Role::Inbound => RoleSet { inbound: false, ..self },
            Role::InboundPassthrough => RoleSet { inbound_passthrough: false, ..self },
            Role::Outbound => RoleSet { outbound: false, ..self },
            Role::Socks5 => RoleSet { socks5: false, ..self },
        }
    }

    #[verifier::when_used_as_spec(spec_contains)]
    pub fn contains(&self, role: Role) -> (r: bool)
        ensures
            r == self.spec_contains(role),
    {
        match role {
            Role::Inbound => self.inbound,
            Role::InboundPassthrough => self.inbound_passthrough,
            Role::Outbound => self.outbound,
            Role::Socks5 => self.socks5,
        }
    }

    #[verifier::when_used_as_spec(spec_is_empty)]
    pub fn is_empty(&self) -> (r: bool)
        ensures
            r == self.spec_is_empty(),
    {
        !self.inbound && !self.inbound_passthrough && !self.outbound && !self.socks5
    }
}

/// The addresses on which a proxy listens, for callers that bound to port
/// zero and need the port they were given.
#[derive(Clone, Copy, Debug, PartialEq, Eq, Structural)]
pub struct Addresses {
    pub outbound: SocketAddress,
    pub inbound: SocketAddress,
    pub socks5: SocketAddress,
}

/// A proxy whose four listeners are bound.
#[derive(Clone, Copy, Debug, PartialEq, Eq, Structural)]
pub struct Proxy {
    pub inbound: SocketAddress,
    pub inbound_passthrough: SocketAddress,
    pub outbound: SocketAddress,
    pub socks5: SocketAddress,
}

/// A proxy under construction: which listener is being bound, and where
/// the listeners bound so far listen.
#[derive(Clone, Copy, Debug, PartialEq, Eq, Structural)]
pub enum Startup {
    BindingInbound { cfg: Config },
    BindingInboundPassthrough { cfg: Config, inbound: SocketAddress },
    BindingOutbound { cfg: Config, inbound: SocketAddress, inbound_passthrough: SocketAddress },
    BindingSocks5 {
        cfg: Config,
        inbound: SocketAddress,
        inbound_passthrough: SocketAddress,
        outbound: SocketAddress,
    },
    /// All four listeners are bound and the proxy was handed out.
    Ready,
    /// A bind failed and startup was given up.
    Failed,
}

/// What the caller has to do next during startup.
#[derive(Debug)]
pub enum StartupAction {
    /// Construct the role from these inputs, which binds its listener, and
    /// report how that went.
    Bind { role: Role, inputs: ProxyInputs },
    /// Startup is done: this is the proxy.
    Ready(Proxy),
    /// Startup failed with this error. The listeners of the roles in
    /// `release` were bound before and have to be closed: no proxy exists.
    Abort { error: Error, release: RoleSet },
    /// The report does not belong to a startup that has ended; nothing
    /// changed.
    Ignored,
}

/// How the task of a role ended.
#[derive(Clone, Copy, Debug, PartialEq, Eq, Structural)]
pub enum TaskEnd {
    /// The role's loop returned.
    Returned,
    /// The task panicked or was cancelled.
    Died,
}

/// The tasks of a running proxy that have not ended yet.
#[derive(Clone, Copy, Debug, PartialEq, Eq, Structural)]
pub struct Supervisor {
    pub running: RoleSet,
}

impl Startup {
    /// The role whose bind the startup waits for.
    pub open spec fn binding(self) -> Option<Role> {
        match self {
            Startup::BindingInbound { .. } => Some(Role::Inbound),
            Startup::BindingInboundPassthrough { .. } => Some(Role::InboundPassthrough),
            Startup::BindingOutbound { .. } => Some(Role::Outbound),
            Startup::BindingSocks5 { .. } => Some(Role::Socks5),
            Startup::Ready | Startup::Failed => None,
        }
    }

    /// The roles whose listeners are bound and held by the startup.
    pub open spec fn bound(self) -> RoleSet {
        match self {
            Startup::BindingInboundPassthrough { .. } => RoleSet {
                inbound: true,
                ..RoleSet::empty()
            },
            Startup::BindingOutbound { .. } => RoleSet {
                inbound: true,
                inbound_passthrough: true,
                ..RoleSet::empty()
            },
            Startup::BindingSocks5 { .. } => RoleSet { socks5: false, ..RoleSet::all() },
            Startup::BindingInbound { .. } | Startup::Ready | Startup::Failed => RoleSet::empty(),
        }
    }

    /// The inputs from which the roles after the inbound one are
    /// constructed: the configuration, and the port of the inbound listener
    /// as the tunnel port.
    pub open spec fn inputs_after_inbound(cfg: Config, inbound: SocketAddress) -> ProxyInputs {
        ProxyInputs { cfg, hbone_port: inbound.port }
    }

    /// The state after the report of a bind.
    pub open spec fn next(self, outcome: Result<SocketAddress, Error>) -> Startup {
        match (self, outcome) {
            (Startup::Ready, _) | (Startup::Failed, _) => self,
            (_, Err(_)) => Startup::Failed,
            (Startup::BindingInbound { cfg }, Ok(inbound)) => Startup::BindingInboundPassthrough {
                cfg,
                inbound,
            },
            (
                Startup::BindingInboundPassthrough { cfg, inbound },
                Ok(inbound_passthrough),
            ) => Startup::BindingOutbound { cfg, inbound, inbound_passthrough },
            (
                Startup::BindingOutbound { cfg, inbound, inbound_passthrough },
                Ok(outbound),
            ) => Startup::BindingSocks5 { cfg, inbound, inbound_passthrough, outbound },
            (Startup::BindingSocks5 { .. }, Ok(_)) => Startup::Ready,
        }
    }

    /// What the caller is told to do after the report of a bind.
    pub open spec fn action(self, outcome: Result<SocketAddress, Error>) -> StartupAction {
        match (self, outcome) {
            (Startup::Ready, _) | (Startup::Failed, _) => StartupAction::Ignored,
            (_, Err(error)) => StartupAction::Abort { error, release: self.bound() },
            (Startup::BindingInbound { cfg }, Ok(inbound)) => StartupAction::Bind {
                role: Role::InboundPassthrough,
                inputs: Self::inputs_after_inbound(cfg, inbound),
            },
            (Startup::BindingInboundPassthrough { cfg, inbound }, Ok(_)) => StartupAction::Bind {
                role: Role::Outbound,
                inputs: Self::inputs_after_inbound(cfg, inbound),
            },
            (Startup::BindingOutbound { cfg, inbound, .. }, Ok(_)) => StartupAction::Bind {
                role: Role::Socks5,
                inputs: Self::inputs_after_inbound(cfg, inbound),
            },
            (
                Startup::BindingSocks5 { inbound, inbound_passthrough, outbound, .. },
                Ok(socks5),
            ) => StartupAction::Ready(Proxy { inbound, inbound_passthrough, outbound, socks5 }),
        }
    }

    /// Takes the report of the bind that the startup waits for and says
    /// what to do next. A failure ends the startup at once.
    pub fn step(self, outcome: Result<SocketAddress, Error>) -> (r: (Startup, StartupAction))
        ensures
            r.0 == self.next(outcome),
            r.1 == self.action(outcome),
    {
        match self {
            Startup::Ready | Startup::Failed => (self, StartupAction::Ignored),
            Startup::BindingInbound { cfg } => match outcome {
                Ok(inbound) => (
                    Startup::BindingInboundPassthrough { cfg, inbound },
                    StartupAction::Bind {
                        role: Role::InboundPassthrough,
                        inputs: ProxyInputs { cfg, hbone_port: inbound.port },
                    },
                ),
                Err(error) => (
                    Startup::Failed,
                    StartupAction::Abort {
                        error,
                        release: RoleSet {
                            inbound: false,
                            inbound_passthrough: false,
                            outbound: false,
                            socks5: false,
                        },
                    },
                ),
            },
            Startup::BindingInboundPassthrough { cfg, inbound } => match outcome {
                Ok(inbound_passthrough) => (
                    Startup::BindingOutbound { cfg, inbound, inbound_passthrough },
                    StartupAction::Bind {
                        role: Role::Outbound,
                        inputs: ProxyInputs { cfg, hbone_port: inbound.port },
                    },
                ),
                Err(error) => (
                    Startup::Failed,
                    StartupAction::Abort {
                        error,
                        release: RoleSet {
                            inbound: true,
                            inbound_passthrough: false,
                            outbound: false,
                            socks5: false,
                        },
                    },
                ),
            },
            Startup::BindingOutbound { cfg, inbound, inbound_passthrough } => match outcome {
                Ok(outbound) => (
                    Startup::BindingSocks5 { cfg, inbound, inbound_passthrough, outbound },
                    StartupAction::Bind {
                        role: Role::Socks5,
                        inputs: ProxyInputs { cfg, hbone_port: inbound.port },
                    },
                ),
                Err(error) => (
                    Startup::Failed,
                    StartupAction::Abort {
                        error,
                        release: RoleSet {
                            inbound: true,
                            inbound_passthrough: true,
                            outbound: false,
                            socks5: false,
                        },
                    },
                ),
            },
            Startup::BindingSocks5 { cfg, inbound, inbound_passthrough, outbound } => match outcome {
                Ok(socks5) => (
                    Startup::Ready,
                    StartupAction::Ready(Proxy { inbound, inbound_passthrough, outbound, socks5 }),
                ),
                Err(error) => (
                    Startup::Failed,
                    StartupAction::Abort {
                        error,
                        release: RoleSet {
                            inbound: true,
                            inbound_passthrough: true,
                            outbound: true,
                            socks5: false,
                        },
                    },
                ),
            },
        }
    }
}

impl Proxy {
    /// Begins the construction of a proxy. The inbound listener is bound
    /// first, from inputs whose tunnel port is still zero: the other roles
    /// need to know the port that it was given.
    pub fn new(cfg: Config) -> (r: (Startup, StartupAction))
        ensures
            r.0 == (Startup::BindingInbound { cfg }),
            r.1 == (StartupAction::Bind {
                role: Role::Inbound,
                inputs: ProxyInputs { cfg, hbone_port: 0 },
            }),
    {
        (
            Startup::BindingInbound { cfg },
            StartupAction::Bind { role: Role::Inbound, inputs: ProxyInputs { cfg, hbone_port: 0 } },
        )
    }

    /// Begins the run of the proxy: one task per role is to be started, in
    /// the order given, and the run lasts until all four have ended.
    pub fn run(self) -> (r: (Supervisor, [Role; 4]))
        ensures
            r.0.running == RoleSet::all(),
            r.1@ == seq![Role::InboundPassthrough, Role::Inbound, Role::Outbound, Role::Socks5],
    {
        let order = [Role::InboundPassthrough, Role::Inbound, Role::Outbound, Role::Socks5];
        (
            Supervisor {
                running: RoleSet {
                    inbound: true,
                    inbound_passthrough: true,
                    outbound: true,
                    socks5: true,
                },
            },
            order,
        )
    }

    /// Where the proxy listens.
    pub fn addresses(&self) -> (r: Addresses)
        ensures
            r == (Addresses { outbound: self.outbound, inbound: self.inbound, socks5: self.socks5 }),
    {
        Addresses { outbound: self.outbound, inbound: self.inbound, socks5: self.socks5 }
    }
}

impl Supervisor {
    /// Whether the run is over: no task is left.
    pub open spec fn spec_is_done(&self) -> bool {
        self.running.is_empty()
    }

    #[verifier::when_used_as_spec(spec_is_done)]
    pub fn is_done(&self) -> (r: bool)
        ensures
            r == self.spec_is_done(),
    {
        self.running.is_empty()
    }

    /// Records that the task of a role has ended and says whether the run
    /// is over. How the task ended makes no difference: a task that died
    /// neither ends the run nor fails it.
    pub fn task_ended(self, role: Role, end: TaskEnd) -> (r: (Supervisor, bool))
        ensures
            r.0.running == self.running.without(role),
            r.1 == r.0.is_done(),
    {
        let running = match role {
            Role::Inbound => RoleSet { inbound: false, ..self.running },
            Role::InboundPassthrough => RoleSet { inbound_passthrough: false, ..self.running },
            Role::Outbound => RoleSet { outbound: false, ..self.running },
            Role::Socks5 => RoleSet { socks5: false, ..self.running },
        };
        let next = Supervisor { running };
        let done = next.is_done();
        (next, done)
    }
}

/// The state that a startup reaches over a run of bind reports.
pub open spec fn startup_after(cfg: Config, outcomes: Seq<Result<SocketAddress, Error>>) -> Startup
    decreases outcomes.len(),
{
    if outcomes.len() == 0 {
        Startup::BindingInbound { cfg }
    } else {
        startup_after(cfg, outcomes.drop_last()).next(outcomes.last())
    }
}

/// One more report extends a run by one step.
pub proof fn lemma_startup_after_step(
    cfg: Config,
    outcomes: Seq<Result<SocketAddress, Error>>,
    at: int,
)
    requires
        0 <= at < outcomes.len(),
    ensures
        startup_after(cfg, outcomes.take(at + 1)) == startup_after(cfg, outcomes.take(at)).next(
            outcomes[at],
        ),
{
    let longer = outcomes.take(at + 1);
    assert(longer.drop_last() =~= outcomes.take(at));
}

/// A startup that has ended stays as it is.
pub proof fn lemma_ended_startup_stays(
    cfg: Config,
    outcomes: Seq<Result<SocketAddress, Error>>,
    from: int,
    to: int,
)
    requires
        0 <= from <= to <= outcomes.len(),
        startup_after(cfg, outcomes.take(from)).binding() is None,
    ensures
        startup_after(cfg, outcomes.take(to)) == startup_after(cfg, outcomes.take(from)),
    decreases to - from,
{
    if from < to {
        lemma_ended_startup_stays(cfg, outcomes, from, to - 1);
        lemma_startup_after_step(cfg, outcomes, to - 1);
    }
}

/// If a bind fails while the proxy is under construction, construction ends
/// with that error and every listener bound before it is named for release.
/// Whatever is reported before or after, no proxy is ever handed out, and
/// after the failure the startup holds no listener.
pub proof fn lemma_bind_failure_aborts(
    cfg: Config,
    outcomes: Seq<Result<SocketAddress, Error>>,
    at: int,
    other: int,
)
    requires
        0 <= at < outcomes.len(),
        0 <= other < outcomes.len(),
        startup_after(cfg, outcomes.take(at)).binding() is Some,
        outcomes[at] is Err,
    ensures
        startup_after(cfg, outcomes.take(at)).action(outcomes[at]) == (StartupAction::Abort {
            error: outcomes[at]->Err_0,
            release: startup_after(cfg, outcomes.take(at)).bound(),
        }),
        !(startup_after(cfg, outcomes.take(other)).action(outcomes[other]) is Ready),
        at < other ==> startup_after(cfg, outcomes.take(other)).action(outcomes[other])
            is Ignored,
        startup_after(cfg, outcomes) is Failed,
        startup_after(cfg, outcomes).bound() == RoleSet::empty(),
{
    lemma_startup_after_step(cfg, outcomes, at);
    if other < at {
        lemma_startup_after_step(cfg, outcomes, other);
        if startup_after(cfg, outcomes.take(other + 1)).binding() is None {
            lemma_ended_startup_stays(cfg, outcomes, other + 1, at);
        }
    } else if at < other {
        lemma_ended_startup_stays(cfg, outcomes, at + 1, other);
    }
    lemma_ended_startup_stays(cfg, outcomes, at + 1, outcomes.len() as int);
    assert(outcomes.take(outcomes.len() as int) =~= outcomes);
}

/// When all four binds succeed, the listeners were bound in the order
/// inbound, inbound passthrough, outbound, SOCKS5; the three roles after
/// the inbound one were constructed with the inbound listener's port as
/// the tunnel port; and the proxy holds the four addresses.
pub proof fn lemma_startup_order(
    cfg: Config,
    inbound: SocketAddress,
    inbound_passthrough: SocketAddress,
    outbound: SocketAddress,
    socks5: SocketAddress,
)
    ensures
        ({
            let shared = ProxyInputs { cfg, hbone_port: inbound.port };
            let s0 = Startup::BindingInbound { cfg };
            let s1 = s0.next(Ok(inbound));
            let s2 = s1.next(Ok(inbound_passthrough));
            let s3 = s2.next(Ok(outbound));
            &&& s0.action(Ok(inbound)) == (StartupAction::Bind {
                role: Role::InboundPassthrough,
                inputs: shared,
            })
            &&& s1.action(Ok(inbound_passthrough)) == (StartupAction::Bind {
                role: Role::Outbound,
                inputs: shared,
            })
            &&& s2.action(Ok(outbound)) == (StartupAction::Bind {
                role: Role::Socks5,
                inputs: shared,
            })
            &&& s3.action(Ok(socks5)) == StartupAction::Ready(
                Proxy { inbound, inbound_passthrough, outbound, socks5 },
            )
            &&& s3.next(Ok(socks5)) is Ready
        }),
{
}

} // verus!
