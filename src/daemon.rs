use crate::registry::{
    disable_outcome, enable_outcome, share_outcome, unshare_outcome, ShareRegistry,
};
use crate::resolve::{join_path, spec_resolve, Resolved, ResolvedEntry, ResolveError};
use crate::schemas::{
    DaemonDisableArgs, DaemonDisableError, DaemonEnableArgs, DaemonEnableError, DaemonShareArgs,
    DaemonShareError, DaemonUnshareArgs, DaemonUnshareError, DaemonUnsharedEvent, Share,
    ShareView, UnshareReason, WilyQueryError,
};
use vstd::prelude::*;

verus! {

/// A call on the daemon's private control object.
#[derive(Clone, Debug)]
pub enum DaemonFunction {
    ShutDown,
    Share(DaemonShareArgs),
    Unshare(DaemonUnshareArgs),
    List,
    Enable(DaemonEnableArgs),
    Disable(DaemonDisableArgs),
}

/// The answer to a call on the daemon's private control object.
#[derive(Debug)]
pub enum DaemonReply {
    ShutDown,
    Share(Result<Share, DaemonShareError>),
    Unshare(Result<Share, DaemonUnshareError>),
    List(Vec<Share>),
    Enable(Result<Share, DaemonEnableError>),
    Disable(Result<Share, DaemonDisableError>),
}

/// An event of the daemon's private control object.
#[derive(Clone, Debug)]
pub enum DaemonEvent {
    Shared(Share),
    Unshared(DaemonUnsharedEvent),
}

/// A successful answer to a query on the public object.
#[derive(Clone, Debug, PartialEq, Eq)]
pub enum WilyQueryOk {
    /// The path names no share: the list of shares.
    Root,
    /// A file or directory inside a share.
    Entry(ResolvedEntry),
}

pub open spec fn shares_view(v: Seq<Share>) -> Seq<ShareView> {
    v.map_values(|s: Share| s@)
}

/// The reply and the event that a call leads to, given the shares before
/// (`old`) and after (`new`) it.
pub open spec fn call_outcome(
    old: Seq<ShareView>,
    call: DaemonFunction,
    new: Seq<ShareView>,
    reply: DaemonReply,
    event: Option<DaemonEvent>,
) -> bool {
    match call {
        DaemonFunction::ShutDown => reply is ShutDown && event is None && new == old,
        DaemonFunction::Share(args) => match reply {
            DaemonReply::Share(r) => share_outcome(old, args, new, r) && match r {
                Ok(s) => event is Some && event->Some_0 is Shared && event->Some_0->Shared_0@ == s@,
                Err(_) => event is None,
            },
            _ => false,
        },
        DaemonFunction::Unshare(args) => match reply {
            DaemonReply::Unshare(r) => unshare_outcome(old, args.name@, new, r) && match r {
                Ok(s) => event is Some && event->Some_0 is Unshared
                    && event->Some_0->Unshared_0.share@ == s@ && event->Some_0->Unshared_0.reason
                    == UnshareReason::UserRequest,
                Err(_) => event is None,
            },
            _ => false,
        },
        DaemonFunction::List => match reply {
            DaemonReply::List(v) => shares_view(v@) == old && new == old && event is None,
            _ => false,
        },
        DaemonFunction::Enable(args) => match reply {
            DaemonReply::Enable(r) => enable_outcome(old, args.name@, new, r) && event is None,
            _ => false,
        },
        DaemonFunction::Disable(args) => match reply {
            DaemonReply::Disable(r) => disable_outcome(old, args.name@, new, r) && event is None,
            _ => false,
        },
    }
}

/// What a query on the public object answers for the shares `shares`.
pub open spec fn query_outcome(
    shares: Seq<ShareView>,
    path: Seq<char>,
    r: Result<WilyQueryOk, WilyQueryError>,
) -> bool {
    match r {
        Ok(WilyQueryOk::Root) => spec_resolve(shares, path) == Ok::<
            Option<(ShareView, Seq<Seq<char>>)>,
            ResolveError,
        >(None),
        Ok(WilyQueryOk::Entry(e)) => spec_resolve(shares, path) is Ok && spec_resolve(
            shares,
            path,
        )->Ok_0 is Some && e.share@ == spec_resolve(shares, path)->Ok_0->Some_0.0.name && e.path@
            == join_path(
            spec_resolve(shares, path)->Ok_0->Some_0.0.path,
            spec_resolve(shares, path)->Ok_0->Some_0.1,
        ),
        Err(WilyQueryError::FileNotFound) => spec_resolve(shares, path) is Err,
    }
}

/// The daemon's state between calls: its shares and whether a call asked it
/// to stop.
pub struct Daemon {
    shares: ShareRegistry,
    shutdown: bool,
}

impl Daemon {
    pub closed spec fn wf(&self) -> bool {
        self.shares.wf()
    }

    pub closed spec fn spec_shares(&self) -> Seq<ShareView> {
        self.shares@
    }

    pub closed spec fn spec_should_stop(&self) -> bool {
        self.shutdown
    }

    /// A daemon over `shares` that has not been asked to stop.
    pub fn new(shares: ShareRegistry) -> (r: Daemon)
        requires
            shares.wf(),
        ensures
            r.wf(),
            r.spec_shares() == shares@,
            !r.spec_should_stop(),
    {
        Daemon { shares, shutdown: false }
    }

    /// Whether a call asked the daemon to stop.
    pub fn should_stop(&self) -> (r: bool)
        ensures
            r == self.spec_should_stop(),
    {
        self.shutdown
    }

    /// The daemon's shares.
    pub fn shares(&self) -> (r: &ShareRegistry)
        ensures
            r@ == self.spec_shares(),
            r.wf() == self.wf(),
    {
        &self.shares
    }

    /// Carries out one call: the reply to send, and the event to emit once
    /// the shares have changed.
    pub fn daemon_call(&mut self, call: DaemonFunction) -> (r: (DaemonReply, Option<DaemonEvent>))
        requires
            old(self).wf(),
        ensures
            final(self).wf(),
            call_outcome(old(self).spec_shares(), call, final(self).spec_shares(), r.0, r.1),
            final(self).spec_should_stop() == (old(self).spec_should_stop() || call is ShutDown),
    {
        match call {
            DaemonFunction::ShutDown => {
                self.shutdown = true;
                (DaemonReply::ShutDown, None)
            },
            DaemonFunction::Share(args) => {
                let r = self.shares.share(args);
                match r {
                    Ok(s) => {
                        let ev = s.snapshot();
                        (DaemonReply::Share(Ok(s)), Some(DaemonEvent::Shared(ev)))
                    },
                    Err(e) => (DaemonReply::Share(Err(e)), None),
                }
            },
            DaemonFunction::Unshare(args) => {
                let r = self.shares.unshare(args.name.as_str());
                match r {
                    Ok(s) => {
                        let ev = DaemonUnsharedEvent {
                            share: s.snapshot(),
                            reason: UnshareReason::UserRequest,
                        };
                        (DaemonReply::Unshare(Ok(s)), Some(DaemonEvent::Unshared(ev)))
                    },
                    Err(e) => (DaemonReply::Unshare(Err(e)), None),
                }
            },
            DaemonFunction::List => (DaemonReply::List(self.shares.list()), None),
            DaemonFunction::Enable(args) => (
                DaemonReply::Enable(self.shares.enable(args.name.as_str())),
                None,
            ),
            DaemonFunction::Disable(args) => (
                DaemonReply::Disable(self.shares.disable(args.name.as_str())),
                None,
            ),
        }
    }

    /// Answers a query on the public object: what the virtual path leads
    /// to, with every failure of resolution reported as a missing file.
    pub fn wily_query(&self, path: &str) -> (r: Result<WilyQueryOk, WilyQueryError>)
        requires
            self.wf(),
        ensures
            query_outcome(self.spec_shares(), path@, r),
    {
        query(&self.shares, path)
    }
}

/// Answers a query on the public object against `shares`.
pub fn query(shares: &ShareRegistry, path: &str) -> (r: Result<WilyQueryOk, WilyQueryError>)
    requires
        shares.wf(),
    ensures
        query_outcome(shares@, path@, r),
{
    match shares.resolve_path(path) {
        Ok(Resolved::Root) => Ok(WilyQueryOk::Root),
        Ok(Resolved::Entry(e)) => Ok(WilyQueryOk::Entry(e)),
        Err(_) => Err(WilyQueryError::FileNotFound),
    }
}

} // verus!
