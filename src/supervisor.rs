use vstd::prelude::*;

verus! {

/// A task that a bus supervises.
#[derive(Clone, Copy, Debug, PartialEq, Eq, Structural)]
pub enum Subsystem {
    Broker,
    InternalClient,
    InternalConnection,
}

/// What ended a bus's mainloop.
#[derive(Clone, Copy, Debug, PartialEq, Eq, Structural)]
pub enum ExitCause {
    /// The owner asked for the shutdown.
    Requested,
    /// A supervised task ended before any shutdown was asked for.
    Died(Subsystem),
}

/// What the mainloop does next. The teardown runs in this order.
#[derive(Clone, Copy, Debug, PartialEq, Eq, Structural)]
pub enum Step {
    /// Wait for a shutdown request or the end of a supervised task.
    Select,
    /// Stop the broker: it takes no more connections and drains its sessions.
    ShutDownBroker,
    ShutDownClient,
    JoinBroker,
    JoinClient,
    JoinConnection,
    Finished,
}

/// How a bus ended badly.
#[derive(Clone, Copy, Debug, PartialEq, Eq, Structural)]
pub enum BusFailure {
    /// A task ended before shutdown was asked for.
    Died(Subsystem),
    /// A task failed or could not be joined.
    JoinFailed(Subsystem),
}

pub struct SupervisorView {
    pub step: Step,
    pub cause: Option<ExitCause>,
    pub failure: Option<Subsystem>,
}

pub open spec fn next_step(s: Step) -> Step {
    match s {
        Step::Select => Step::Select,
        Step::ShutDownBroker => Step::ShutDownClient,
        Step::ShutDownClient => Step::JoinBroker,
        Step::JoinBroker => Step::JoinClient,
        Step::JoinClient => Step::JoinConnection,
        Step::JoinConnection => Step::Finished,
        Step::Finished => Step::Finished,
    }
}

/// The task that a step joins.
pub open spec fn joined_by(s: Step) -> Option<Subsystem> {
    match s {
        Step::JoinBroker => Some(Subsystem::Broker),
        Step::JoinClient => Some(Subsystem::InternalClient),
        Step::JoinConnection => Some(Subsystem::InternalConnection),
        _ => None,
    }
}

/// The state after the mainloop's selection ended with `cause`; once the
/// teardown has begun, a further cause changes nothing.
pub open spec fn spec_stop(v: SupervisorView, cause: ExitCause) -> SupervisorView {
    if v.step == Step::Select {
        SupervisorView { step: Step::ShutDownBroker, cause: Some(cause), failure: v.failure }
    } else {
        v
    }
}

/// The state after the current teardown step completed, `failed` telling
/// whether the task it joined failed. The first failure is kept.
pub open spec fn spec_advance(v: SupervisorView, failed: bool) -> SupervisorView {
    SupervisorView {
        step: next_step(v.step),
        cause: v.cause,
        failure: if v.failure is None && failed && joined_by(v.step) is Some {
            joined_by(v.step)
        } else {
            v.failure
        },
    }
}

/// How the bus ended: the early death of a task first, else the first task
/// that failed to join.
pub open spec fn spec_outcome(v: SupervisorView) -> Result<(), BusFailure> {
    match v.cause {
        Some(ExitCause::Died(s)) => Err(BusFailure::Died(s)),
        _ => match v.failure {
            Some(s) => Err(BusFailure::JoinFailed(s)),
            None => Ok(()),
        },
    }
}

/// The ordered teardown of a bus: a broker, an internal client and the
/// client's connection, stopped outward to inward and all joined.
pub struct Supervisor {
    step: Step,
    cause: Option<ExitCause>,
    failure: Option<Subsystem>,
}

impl View for Supervisor {
    type V = SupervisorView;

    closed spec fn view(&self) -> SupervisorView {
        SupervisorView { step: self.step, cause: self.cause, failure: self.failure }
    }
}

impl Supervisor {
    pub fn new() -> (r: Supervisor)
        ensures
            r@ == (SupervisorView { step: Step::Select, cause: None, failure: None }),
    {
        Supervisor { step: Step::Select, cause: None, failure: None }
    }

    pub fn step(&self) -> (r: Step)
        ensures
            r == self@.step,
    {
        self.step
    }

    /// Ends the selection with `cause`. Returns whether this is an error to
    /// report: a task that died while no shutdown was asked for.
    pub fn stop(&mut self, cause: ExitCause) -> (r: bool)
        ensures
            final(self)@ == spec_stop(old(self)@, cause),
            r == (old(self)@.step == Step::Select && cause is Died),
    {
        if let Step::Select = self.step {
            self.step = Step::ShutDownBroker;
            self.cause = Some(cause);
            match cause {
                ExitCause::Died(_) => true,
                ExitCause::Requested => false,
            }
        } else {
            false
        }
    }

    /// Records that the current teardown step is done.
    pub fn advance(&mut self, failed: bool)
        requires
            old(self)@.step != Step::Select,
            old(self)@.step != Step::Finished,
        ensures
            final(self)@ == spec_advance(old(self)@, failed),
    {
        let joined = match self.step {
            Step::JoinBroker => Some(Subsystem::Broker),
            Step::JoinClient => Some(Subsystem::InternalClient),
            Step::JoinConnection => Some(Subsystem::InternalConnection),
            _ => None,
        };
        if self.failure.is_none() && failed && joined.is_some() {
            self.failure = joined;
        }
        self.step = match self.step {
            Step::ShutDownBroker => Step::ShutDownClient,
            Step::ShutDownClient => Step::JoinBroker,
            Step::JoinBroker => Step::JoinClient,
            Step::JoinClient => Step::JoinConnection,
            _ => Step::Finished,
        };
    }

    /// How the bus ended.
    pub fn outcome(&self) -> (r: Result<(), BusFailure>)
        ensures
            r == spec_outcome(self@),
    {
        match self.cause {
            Some(ExitCause::Died(s)) => Err(BusFailure::Died(s)),
            _ => match self.failure {
                Some(s) => Err(BusFailure::JoinFailed(s)),
                None => Ok(()),
            },
        }
    }
}

/// Asking a bus to stop twice is the same as asking once.
pub proof fn lemma_stop_idempotent(v: SupervisorView, first: ExitCause, second: ExitCause)
    ensures
        spec_stop(spec_stop(v, first), second) == spec_stop(v, first),
{
}

} // verus!
