use vstd::prelude::*;

verus! {

/// Why a share is disabled.
#[derive(Clone, Copy, Debug, PartialEq, Eq, Structural)]
pub struct ShareDisabled {
    pub user: bool,
}

impl ShareDisabled {
    /// A share is effectively disabled when any reason is set.
    pub open spec fn spec_any(self) -> bool {
        self.user
    }

    pub fn any(self) -> (r: bool)
        ensures
            r == self.spec_any(),
    {
        self.user
    }
}

#[derive(Clone, Copy, Debug, PartialEq, Eq, Structural)]
pub struct PersistedShare {
    pub expires_unix_ms: Option<i64>,
}

#[derive(Clone, Copy, Debug, PartialEq, Eq, Structural)]
pub struct TransientShare {
    pub expires_unix_ms: Option<i64>,
}

/// How long a share lives and whether it can be removed.
#[derive(Clone, Copy, Debug, PartialEq, Eq, Structural)]
pub enum ShareType {
    /// Built in, created at startup, never removable.
    Static,
    /// Durable across restarts of the daemon.
    Persisted(PersistedShare),
    /// Kept in memory only.
    Transient(TransientShare),
}

/// A named filesystem mount point.
#[derive(Clone, Debug)]
pub struct Share {
    pub name: String,
    pub path: String,
    pub share_type: ShareType,
    pub disabled: ShareDisabled,
}

/// The mathematical value of a share.
pub struct ShareView {
    pub name: Seq<char>,
    pub path: Seq<char>,
    pub share_type: ShareType,
    pub disabled: ShareDisabled,
}

impl View for Share {
    type V = ShareView;

    open spec fn view(&self) -> ShareView {
        ShareView {
            name: self.name@,
            path: self.path@,
            share_type: self.share_type,
            disabled: self.disabled,
        }
    }
}

impl Share {
    /// A copy of the share, field by field.
    pub fn snapshot(&self) -> (r: Share)
        ensures
            r@ == self@,
    {
        Share {
            name: self.name.clone(),
            path: self.path.clone(),
            share_type: self.share_type,
            disabled: self.disabled,
        }
    }
}

/// The arguments of a request to add a share.
#[derive(Clone, Debug)]
pub struct DaemonShareArgs {
    pub path: String,
    pub name: Option<String>,
    pub persist: Option<bool>,
    pub expires_unix_ms: Option<i64>,
    pub disabled: Option<bool>,
}

#[derive(Clone, Debug, PartialEq, Eq)]
pub enum DaemonShareError {
    /// No valid name could be had; holds the reason.
    InvalidName(String),
    /// A share of that name exists already.
    DuplicateName(String),
    /// The path is not absolute.
    RelativePath,
}

#[derive(Clone, Copy, Debug, PartialEq, Eq, Structural)]
pub enum DaemonUnshareError {
    UnknownShare,
    StaticShare,
}

#[derive(Clone, Copy, Debug, PartialEq, Eq, Structural)]
pub enum DaemonEnableError {
    UnknownShare,
}

#[derive(Clone, Copy, Debug, PartialEq, Eq, Structural)]
pub enum DaemonDisableError {
    UnknownShare,
}

/// Why a share went away.
#[derive(Clone, Copy, Debug, PartialEq, Eq, Structural)]
pub enum UnshareReason {
    UserRequest,
}

/// The event sent when a share is removed.
#[derive(Clone, Debug)]
pub struct DaemonUnsharedEvent {
    pub share: Share,
    pub reason: UnshareReason,
}

#[derive(Clone, Debug)]
pub struct DaemonUnshareArgs {
    pub name: String,
}

#[derive(Clone, Debug)]
pub struct DaemonEnableArgs {
    pub name: String,
}

#[derive(Clone, Debug)]
pub struct DaemonDisableArgs {
    pub name: String,
}

#[derive(Clone, Debug)]
pub struct WilyQueryArgs {
    pub path: String,
}

#[derive(Clone, Copy, Debug, PartialEq, Eq, Structural)]
pub enum WilyQueryError {
    FileNotFound,
}

} // verus!
