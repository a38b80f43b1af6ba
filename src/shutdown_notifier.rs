use vstd::prelude::*;

verus! {

/// Which end of a linked pair a notifier is.
#[derive(Clone, Copy, Debug, PartialEq, Eq, Structural)]
pub enum NotifierSide {
    /// The end held by the owner of a mainloop.
    Owner,
    /// The end held by the mainloop itself.
    Dependent,
}

/// The state of one end of a linked shutdown signal.
#[derive(Clone, Copy, Debug, PartialEq, Eq, Structural)]
pub struct NotifierView {
    pub side: NotifierSide,
    /// Neither end has fired or gone away yet, as far as this end knows.
    pub armed: bool,
}

impl NotifierView {
    /// The state once this end has fired, or has seen the other end fire or
    /// go away.
    pub open spec fn spent(self) -> NotifierView {
        NotifierView { armed: false, ..self }
    }
}

/// One end of a single-use shutdown signal shared by a mainloop and its
/// owner. Firing either end is final; waiting on a spent end returns at
/// once.
#[derive(Debug)]
pub struct ShutdownNotifier {
    side: NotifierSide,
    armed: bool,
}

impl View for ShutdownNotifier {
    type V = NotifierView;

    closed spec fn view(&self) -> NotifierView {
        NotifierView { side: self.side, armed: self.armed }
    }
}

impl ShutdownNotifier {
    /// Two linked, armed ends: the owner's first, the mainloop's second.
    pub fn new_pair() -> (r: (ShutdownNotifier, ShutdownNotifier))
        ensures
            r.0@ == (NotifierView { side: NotifierSide::Owner, armed: true }),
            r.1@ == (NotifierView { side: NotifierSide::Dependent, armed: true }),
    {
        (
            ShutdownNotifier { side: NotifierSide::Owner, armed: true },
            ShutdownNotifier { side: NotifierSide::Dependent, armed: true },
        )
    }

    pub fn side(&self) -> (r: NotifierSide)
        ensures
            r == self@.side,
    {
        self.side
    }

    /// Fires this end. Firing a spent end changes nothing.
    pub fn shutdown(&mut self)
        ensures
            final(self)@ == old(self)@.spent(),
    {
        self.armed = false;
    }

    /// Whether a wait on this end has to suspend; on a spent end it returns
    /// at once.
    pub fn is_armed(&self) -> (r: bool)
        ensures
            r == self@.armed,
    {
        self.armed
    }

    /// Records that a wait on this end completed: the other end fired or
    /// went away.
    pub fn observed(&mut self)
        ensures
            final(self)@ == old(self)@.spent(),
    {
        self.armed = false;
    }
}

/// Shutting down twice is the same as shutting down once, and a wait after
/// a shutdown returns at once.
pub proof fn lemma_shutdown_idempotent(n: NotifierView)
    ensures
        n.spent().spent() == n.spent(),
        !n.spent().armed,
        n.spent().side == n.side,
{
}

} // verus!
