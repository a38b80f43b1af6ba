use crate::names::{opt_view, share_name, spec_message, spec_share_name};
use crate::schemas::{
    DaemonDisableError, DaemonEnableError, DaemonShareArgs, DaemonShareError,
    DaemonUnshareError, PersistedShare, Share, ShareDisabled, ShareType, ShareView,
    TransientShare,
};
use vstd::pervasive::VecAdditionalExecFns;
use vstd::prelude::*;
use vstd::string::StrSliceExecFns;
use vstd::string::StringExecFns;

verus! {

/// Whether some share in `s` is called `n`.
pub open spec fn has_name(s: Seq<ShareView>, n: Seq<char>) -> bool {
    exists|i: int| 0 <= i < s.len() && #[trigger] s[i].name == n
}

/// No two shares in `s` carry the same name.
pub open spec fn names_unique(s: Seq<ShareView>) -> bool {
    forall|i: int, j: int|
        0 <= i < s.len() && 0 <= j < s.len() && #[trigger] s[i].name == #[trigger] s[j].name
            ==> i == j
}

/// The position of the share called `n` in `s`.
pub open spec fn index_of(s: Seq<ShareView>, n: Seq<char>) -> int {
    choose|i: int| 0 <= i < s.len() && #[trigger] s[i].name == n
}

/// The share called `n` in `s`.
pub open spec fn share_of(s: Seq<ShareView>, n: Seq<char>) -> ShareView {
    s[index_of(s, n)]
}

pub proof fn lemma_index_of(s: Seq<ShareView>, n: Seq<char>, i: int)
    requires
        names_unique(s),
        0 <= i < s.len(),
        s[i].name == n,
    ensures
        index_of(s, n) == i,
        has_name(s, n),
{
    let k = index_of(s, n);
    assert(0 <= k < s.len() && s[k].name == n);
}

/// On Unix a path is absolute when it starts at the root.
pub open spec fn spec_is_absolute(p: Seq<char>) -> bool {
    p.len() > 0 && p[0] == '/'
}

pub fn is_absolute(p: &str) -> (r: bool)
    ensures
        r == spec_is_absolute(p@),
{
    p.unicode_len() > 0 && p.get_char(0) == '/'
}

/// Whether two strings hold the same characters.
pub fn str_eq(a: &str, b: &str) -> (r: bool)
    ensures
        r == (a@ == b@),
{
    let n = a.unicode_len();
    if n != b.unicode_len() {
        return false;
    }
    let mut i: usize = 0;
    while i < n
        invariant
            n == a@.len(),
            n == b@.len(),
            i <= n,
            forall|j: int| 0 <= j < i ==> a@[j] == b@[j],
        decreases n - i,
    {
        if a.get_char(i) != b.get_char(i) {
            return false;
        }
        i += 1;
    }
    assert(a@ =~= b@);
    true
}

pub open spec fn unwrap_flag(f: Option<bool>) -> bool {
    match f {
        Some(b) => b,
        None => false,
    }
}

/// The share that a successful request creates under the name `name`.
pub open spec fn spec_new_share(name: Seq<char>, args: DaemonShareArgs) -> ShareView {
    ShareView {
        name,
        path: args.path@,
        share_type: if unwrap_flag(args.persist) {
            ShareType::Persisted(PersistedShare { expires_unix_ms: args.expires_unix_ms })
        } else {
            ShareType::Transient(TransientShare { expires_unix_ms: args.expires_unix_ms })
        },
        disabled: ShareDisabled { user: unwrap_flag(args.disabled) },
    }
}

/// The name that a request to add a share asks for.
pub open spec fn requested_name(args: DaemonShareArgs) -> Result<Seq<char>, crate::names::ShareNameError> {
    spec_share_name(
        match args.name {
            Some(n) => Some(n@),
            None => None,
        },
        args.path@,
    )
}

/// `s` with the share at `i` enabled or disabled by the user.
pub open spec fn with_user_flag(s: Seq<ShareView>, i: int, user: bool) -> Seq<ShareView> {
    s.update(i, ShareView { disabled: ShareDisabled { user }, ..s[i] })
}

/// What a request to add a share does to the shares `old`, leaving `new`.
pub open spec fn share_outcome(
    old: Seq<ShareView>,
    args: DaemonShareArgs,
    new: Seq<ShareView>,
    r: Result<Share, DaemonShareError>,
) -> bool {
    match r {
        Ok(s) => requested_name(args) is Ok && !has_name(old, requested_name(args)->Ok_0)
            && spec_is_absolute(args.path@) && s@ == spec_new_share(requested_name(args)->Ok_0, args)
            && new == old.push(s@),
        Err(DaemonShareError::InvalidName(m)) => requested_name(args) is Err && m@ == spec_message(
            requested_name(args)->Err_0,
            args.path@,
        ) && new == old,
        Err(DaemonShareError::DuplicateName(n)) => requested_name(args) is Ok && has_name(
            old,
            requested_name(args)->Ok_0,
        ) && n@ == requested_name(args)->Ok_0 && new == old,
        Err(DaemonShareError::RelativePath) => requested_name(args) is Ok && !has_name(
            old,
            requested_name(args)->Ok_0,
        ) && !spec_is_absolute(args.path@) && new == old,
    }
}

/// What a request to remove the share called `name` does to `old`.
pub open spec fn unshare_outcome(
    old: Seq<ShareView>,
    name: Seq<char>,
    new: Seq<ShareView>,
    r: Result<Share, DaemonUnshareError>,
) -> bool {
    match r {
        Ok(s) => has_name(old, name) && !(share_of(old, name).share_type is Static) && s@
            == share_of(old, name) && new == old.remove(index_of(old, name)),
        Err(DaemonUnshareError::UnknownShare) => !has_name(old, name) && new == old,
        Err(DaemonUnshareError::StaticShare) => has_name(old, name) && share_of(
            old,
            name,
        ).share_type is Static && new == old,
    }
}

/// What a request to enable the share called `name` does to `old`.
pub open spec fn enable_outcome(
    old: Seq<ShareView>,
    name: Seq<char>,
    new: Seq<ShareView>,
    r: Result<Share, DaemonEnableError>,
) -> bool {
    match r {
        Ok(s) => has_name(old, name) && new == with_user_flag(old, index_of(old, name), false) && s@
            == share_of(new, name),
        Err(DaemonEnableError::UnknownShare) => !has_name(old, name) && new == old,
    }
}

/// What a request to disable the share called `name` does to `old`.
pub open spec fn disable_outcome(
    old: Seq<ShareView>,
    name: Seq<char>,
    new: Seq<ShareView>,
    r: Result<Share, DaemonDisableError>,
) -> bool {
    match r {
        Ok(s) => has_name(old, name) && new == with_user_flag(old, index_of(old, name), true) && s@
            == share_of(new, name),
        Err(DaemonDisableError::UnknownShare) => !has_name(old, name) && new == old,
    }
}

/// The shares of the daemon, keyed by name.
pub struct ShareRegistry {
    shares: Vec<Share>,
}

impl View for ShareRegistry {
    type V = Seq<ShareView>;

    closed spec fn view(&self) -> Seq<ShareView> {
        self.shares@.map_values(|s: Share| s@)
    }
}

impl ShareRegistry {
    /// Names are unique.
    pub open spec fn wf(&self) -> bool {
        names_unique(self@)
    }

    pub fn new() -> (r: ShareRegistry)
        ensures
            r.wf(),
            r@ == Seq::<ShareView>::empty(),
    {
        let r = ShareRegistry { shares: Vec::new() };
        assert(r@ =~= Seq::<ShareView>::empty());
        r
    }

    /// The number of shares.
    pub fn len(&self) -> (r: usize)
        ensures
            r == self@.len(),
    {
        self.shares.len()
    }

    /// The position of the share called `name`.
    pub(crate) fn position_of(&self, name: &str) -> (r: Option<usize>)
        requires
            self.wf(),
        ensures
            match r {
                Some(i) => i < self@.len() && self@[i as int].name == name@ && index_of(self@, name@)
                    == i,
                None => !has_name(self@, name@),
            },
    {
        let mut i: usize = 0;
        while i < self.shares.len()
            invariant
                self.wf(),
                i <= self.shares@.len(),
                forall|j: int| 0 <= j < i ==> self@[j].name != name@,
            decreases self.shares@.len() - i,
        {
            if str_eq(self.shares[i].name.as_str(), name) {
                proof {
                    lemma_index_of(self@, name@, i as int);
                }
                return Some(i);
            }
            i += 1;
        }
        None
    }

    pub(crate) fn user_disabled(&self, i: usize) -> (r: bool)
        requires
            i < self@.len(),
        ensures
            r == self@[i as int].disabled.spec_any(),
    {
        self.shares[i].disabled.any()
    }

    pub(crate) fn share_path(&self, i: usize) -> (r: &str)
        requires
            i < self@.len(),
        ensures
            r@ == self@[i as int].path,
    {
        self.shares[i].path.as_str()
    }

    pub(crate) fn share_name_at(&self, i: usize) -> (r: String)
        requires
            i < self@.len(),
        ensures
            r@ == self@[i as int].name,
    {
        self.shares[i].name.clone()
    }

    /// The share called `name`, if there is one.
    pub fn get(&self, name: &str) -> (r: Option<Share>)
        requires
            self.wf(),
        ensures
            match r {
                Some(s) => has_name(self@, name@) && s@ == share_of(self@, name@),
                None => !has_name(self@, name@),
            },
    {
        match self.position_of(name) {
            Some(i) => Some(self.shares[i].snapshot()),
            None => None,
        }
    }

    /// A snapshot of all shares, in the order in which they were added.
    pub fn list(&self) -> (r: Vec<Share>)
        ensures
            r@.map_values(|s: Share| s@) == self@,
    {
        let mut out: Vec<Share> = Vec::new();
        let mut i: usize = 0;
        while i < self.shares.len()
            invariant
                i <= self.shares@.len(),
                out@.map_values(|s: Share| s@) == self@.subrange(0, i as int),
            decreases self.shares@.len() - i,
        {
            let s = self.shares[i].snapshot();
            let ghost prev = out@;
            out.push(s);
            assert(out@.map_values(|s: Share| s@) =~= prev.map_values(|s: Share| s@).push(
                self@[i as int],
            ));
            assert(self@.subrange(0, i + 1) =~= self@.subrange(0, i as int).push(self@[i as int]));
            i += 1;
        }
        assert(self@.subrange(0, i as int) =~= self@);
        out
    }

    /// Adds `share` under a name that no share carries yet.
    fn insert(&mut self, share: Share)
        requires
            old(self).wf(),
            !has_name(old(self)@, share@.name),
        ensures
            final(self).wf(),
            final(self)@ == old(self)@.push(share@),
    {
        self.shares.push(share);
        assert(self@ =~= old(self)@.push(share@));
    }

    /// Adds a built-in share. Built-in shares are never removed.
    pub fn add_static(&mut self, name: &str, path: &str) -> (r: Result<Share, DaemonShareError>)
        requires
            old(self).wf(),
        ensures
            final(self).wf(),
            match r {
                Ok(s) => spec_share_name(Some(name@), path@) == Ok::<Seq<char>, crate::names::ShareNameError>(name@)
                    && !has_name(old(self)@, name@) && spec_is_absolute(path@)
                    && s@ == (ShareView {
                    name: name@,
                    path: path@,
                    share_type: ShareType::Static,
                    disabled: ShareDisabled { user: false },
                }) && final(self)@ == old(self)@.push(s@),
                Err(DaemonShareError::InvalidName(m)) => spec_share_name(Some(name@), path@) is Err
                    && m@ == spec_message(spec_share_name(Some(name@), path@)->Err_0, path@)
                    && final(self)@ == old(self)@,
                Err(DaemonShareError::DuplicateName(n)) => spec_share_name(Some(name@), path@) is Ok
                    && has_name(old(self)@, name@) && n@ == name@ && final(self)@ == old(self)@,
                Err(DaemonShareError::RelativePath) => spec_share_name(Some(name@), path@) is Ok
                    && !has_name(old(self)@, name@) && !spec_is_absolute(path@) && final(self)@
                    == old(self)@,
            },
    {
        let name = match share_name(Some(name), path) {
            Ok(n) => n,
            Err(e) => {
                return Err(DaemonShareError::InvalidName(e.message(path)));
            },
        };
        if self.position_of(name.as_str()).is_some() {
            return Err(DaemonShareError::DuplicateName(name));
        }
        if !is_absolute(path) {
            return Err(DaemonShareError::RelativePath);
        }
        let share = Share {
            name,
            path: String::from_str(path),
            share_type: ShareType::Static,
            disabled: ShareDisabled { user: false },
        };
        let out = share.snapshot();
        self.insert(share);
        Ok(out)
    }

    /// Adds a persisted or transient share as `args` asks.
    pub fn share(&mut self, args: DaemonShareArgs) -> (r: Result<Share, DaemonShareError>)
        requires
            old(self).wf(),
        ensures
            final(self).wf(),
            share_outcome(old(self)@, args, final(self)@, r),
    {
        let explicit: Option<&str> = match &args.name {
            Some(n) => Some(n.as_str()),
            None => None,
        };
        assert(opt_view(explicit) == match args.name {
            Some(n) => Some(n@),
            None => None::<Seq<char>>,
        });
        let name = match share_name(explicit, args.path.as_str()) {
            Ok(n) => n,
            Err(e) => {
                return Err(DaemonShareError::InvalidName(e.message(args.path.as_str())));
            },
        };
        if self.position_of(name.as_str()).is_some() {
            return Err(DaemonShareError::DuplicateName(name));
        }
        if !is_absolute(args.path.as_str()) {
            return Err(DaemonShareError::RelativePath);
        }
        let persist = match args.persist {
            Some(b) => b,
            None => false,
        };
        let disabled = match args.disabled {
            Some(b) => b,
            None => false,
        };
        let share_type = if persist {
            ShareType::Persisted(PersistedShare { expires_unix_ms: args.expires_unix_ms })
        } else {
            ShareType::Transient(TransientShare { expires_unix_ms: args.expires_unix_ms })
        };
        let share = Share {
            name,
            path: args.path,
            share_type,
            disabled: ShareDisabled { user: disabled },
        };
        let out = share.snapshot();
        self.insert(share);
        Ok(out)
    }

    /// Removes the share called `name`, unless it is unknown or built in.
    pub fn unshare(&mut self, name: &str) -> (r: Result<Share, DaemonUnshareError>)
        requires
            old(self).wf(),
        ensures
            final(self).wf(),
            unshare_outcome(old(self)@, name@, final(self)@, r),
    {
        let i = match self.position_of(name) {
            Some(i) => i,
            None => {
                return Err(DaemonUnshareError::UnknownShare);
            },
        };
        if let ShareType::Static = self.shares[i].share_type {
            return Err(DaemonUnshareError::StaticShare);
        }
        let ghost before = self@;
        let s = self.shares.remove(i);
        assert(self@ =~= before.remove(i as int));
        assert forall|a: int, b: int|
            0 <= a < self@.len() && 0 <= b < self@.len() && #[trigger] self@[a].name
                == #[trigger] self@[b].name implies a == b by {
            let a0 = if a < i { a } else { a + 1 };
            let b0 = if b < i { b } else { b + 1 };
            assert(before[a0].name == before[b0].name);
        }
        Ok(s)
    }

    /// Sets whether the user disabled the share at `i`.
    fn set_user_flag(&mut self, i: usize, user: bool) -> (r: Share)
        requires
            old(self).wf(),
            i < old(self)@.len(),
        ensures
            final(self).wf(),
            final(self)@ == with_user_flag(old(self)@, i as int, user),
            r@ == final(self)@[i as int],
    {
        let mut s = self.shares[i].snapshot();
        s.disabled = ShareDisabled { user };
        let out = s.snapshot();
        let ghost before = self@;
        self.shares.set(i, s);
        assert(self@ =~= with_user_flag(before, i as int, user));
        assert forall|a: int, b: int|
            0 <= a < self@.len() && 0 <= b < self@.len() && #[trigger] self@[a].name
                == #[trigger] self@[b].name implies a == b by {
            assert(before[a].name == before[b].name);
        }
        out
    }

    /// Clears the user's disablement of the share called `name`.
    pub fn enable(&mut self, name: &str) -> (r: Result<Share, DaemonEnableError>)
        requires
            old(self).wf(),
        ensures
            final(self).wf(),
            enable_outcome(old(self)@, name@, final(self)@, r),
    {
        match self.position_of(name) {
            Some(i) => {
                let s = self.set_user_flag(i, false);
                proof {
                    lemma_index_of(self@, name@, i as int);
                }
                Ok(s)
            },
            None => Err(DaemonEnableError::UnknownShare),
        }
    }

    /// Marks the share called `name` as disabled by the user.
    pub fn disable(&mut self, name: &str) -> (r: Result<Share, DaemonDisableError>)
        requires
            old(self).wf(),
        ensures
            final(self).wf(),
            disable_outcome(old(self)@, name@, final(self)@, r),
    {
        match self.position_of(name) {
            Some(i) => {
                let s = self.set_user_flag(i, true);
                proof {
                    lemma_index_of(self@, name@, i as int);
                }
                Ok(s)
            },
            None => Err(DaemonDisableError::UnknownShare),
        }
    }
}

} // verus!
