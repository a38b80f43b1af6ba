use wily::daemon::{Daemon, DaemonEvent, DaemonFunction, DaemonReply, WilyQueryOk};
use wily::names::{share_name, ShareNameError};
use wily::registry::ShareRegistry;
use wily::resolve::{Resolved, ResolvedEntry, ResolveError};
use wily::schemas::{
    DaemonDisableError, DaemonEnableError, DaemonShareArgs, DaemonShareError, DaemonUnshareArgs,
    DaemonUnshareError, DaemonEnableArgs, DaemonDisableArgs, ShareDisabled, ShareType,
    TransientShare, PersistedShare, UnshareReason, WilyQueryError,
};

fn args(path: &str, name: Option<&str>) -> DaemonShareArgs {
    DaemonShareArgs {
        path: path.to_string(),
        name: name.map(|n| n.to_string()),
        persist: None,
        expires_unix_ms: None,
        disabled: None,
    }
}

#[test]
fn share_list_unshare_round_trip() {
    let mut reg = ShareRegistry::new();
    let added = reg.share(args("/tmp/x", Some("a"))).unwrap();
    assert_eq!(added.name, "a");
    assert_eq!(added.path, "/tmp/x");
    assert_eq!(added.share_type, ShareType::Transient(TransientShare { expires_unix_ms: None }));
    assert_eq!(added.disabled, ShareDisabled { user: false });
    let listed = reg.list();
    assert_eq!(listed.len(), 1);
    assert_eq!(listed[0].name, "a");
    assert_eq!(listed[0].path, "/tmp/x");
    let removed = reg.unshare("a").unwrap();
    assert_eq!(removed.name, added.name);
    assert_eq!(removed.path, added.path);
    assert_eq!(removed.share_type, added.share_type);
    assert_eq!(removed.disabled, added.disabled);
    assert!(reg.list().is_empty());
}

#[test]
fn duplicate_explicit_name_is_rejected() {
    let mut reg = ShareRegistry::new();
    reg.share(args("/tmp/x", Some("a"))).unwrap();
    let err = reg.share(args("/srv/y", Some("a"))).unwrap_err();
    assert_eq!(err, DaemonShareError::DuplicateName("a".to_string()));
    let listed = reg.list();
    assert_eq!(listed.len(), 1);
    assert_eq!(listed[0].path, "/tmp/x");
}

#[test]
fn duplicate_derived_name_is_rejected() {
    let mut reg = ShareRegistry::new();
    let first = reg.share(args("/tmp/music", None)).unwrap();
    assert_eq!(first.name, "music");
    let err = reg.share(args("/home/me/music/", None)).unwrap_err();
    assert_eq!(err, DaemonShareError::DuplicateName("music".to_string()));
    assert_eq!(reg.len(), 1);
    assert_eq!(reg.get("music").unwrap().path, "/tmp/music");
}

#[test]
fn invalid_names_are_rejected() {
    let mut reg = ShareRegistry::new();
    assert_eq!(
        reg.share(args("/tmp/x", Some(""))).unwrap_err(),
        DaemonShareError::InvalidName("share name is empty".to_string())
    );
    assert_eq!(
        reg.share(args("/tmp/x", Some("a\0b"))).unwrap_err(),
        DaemonShareError::InvalidName("share name contains a NUL character".to_string())
    );
    assert_eq!(
        reg.share(args("/tmp/x", Some("a/b"))).unwrap_err(),
        DaemonShareError::InvalidName("share name contains a `/` separator".to_string())
    );
    assert_eq!(
        reg.share(args("/", None)).unwrap_err(),
        DaemonShareError::InvalidName("failed to derive share name for path `/`".to_string())
    );
    assert_eq!(reg.len(), 0);
}

#[test]
fn relative_path_is_rejected() {
    let mut reg = ShareRegistry::new();
    assert_eq!(
        reg.share(args("tmp/x", Some("a"))).unwrap_err(),
        DaemonShareError::RelativePath
    );
    assert_eq!(reg.len(), 0);
}

#[test]
fn share_name_derivation() {
    assert_eq!(share_name(Some("docs"), "/srv/x"), Ok("docs".to_string()));
    assert_eq!(share_name(None, "/srv/photos"), Ok("photos".to_string()));
    assert_eq!(share_name(None, "/srv/photos/."), Ok("photos".to_string()));
    assert_eq!(share_name(None, "/srv/.."), Err(ShareNameError::NoFileName));
    assert_eq!(share_name(None, ""), Err(ShareNameError::NoFileName));
    assert_eq!(share_name(Some(""), "/srv/x"), Err(ShareNameError::Empty));
    assert_eq!(share_name(Some("a/b"), "/srv/x"), Err(ShareNameError::ContainsSeparator));
    assert_eq!(share_name(Some("a\0"), "/srv/x"), Err(ShareNameError::ContainsNul));
}

#[test]
fn persisted_and_disabled_flags() {
    let mut reg = ShareRegistry::new();
    let mut a = args("/data", Some("d"));
    a.persist = Some(true);
    a.expires_unix_ms = Some(1_700_000_000_000);
    a.disabled = Some(true);
    let s = reg.share(a).unwrap();
    assert_eq!(
        s.share_type,
        ShareType::Persisted(PersistedShare { expires_unix_ms: Some(1_700_000_000_000) })
    );
    assert!(s.disabled.user);
    assert!(s.disabled.any());
}

#[test]
fn static_share_cannot_be_removed() {
    let mut reg = ShareRegistry::new();
    let s = reg.add_static("builtin", "/usr/share/doc").unwrap();
    assert_eq!(s.share_type, ShareType::Static);
    assert_eq!(reg.unshare("builtin").unwrap_err(), DaemonUnshareError::StaticShare);
    assert_eq!(reg.len(), 1);
    assert_eq!(reg.unshare("missing").unwrap_err(), DaemonUnshareError::UnknownShare);
}

#[test]
fn enable_and_disable() {
    let mut reg = ShareRegistry::new();
    reg.share(args("/tmp/x", Some("a"))).unwrap();
    let d = reg.disable("a").unwrap();
    assert!(d.disabled.user);
    assert!(reg.get("a").unwrap().disabled.user);
    let e = reg.enable("a").unwrap();
    assert!(!e.disabled.user);
    assert!(!reg.get("a").unwrap().disabled.user);
    assert_eq!(reg.enable("b").unwrap_err(), DaemonEnableError::UnknownShare);
    assert_eq!(reg.disable("b").unwrap_err(), DaemonDisableError::UnknownShare);
}

#[test]
fn many_distinct_names_all_succeed() {
    let mut reg = ShareRegistry::new();
    for k in 0..16 {
        let name = format!("s{k}");
        reg.share(args(&format!("/tmp/{name}"), Some(&name))).unwrap();
    }
    let listed = reg.list();
    assert_eq!(listed.len(), 16);
    for k in 0..16 {
        assert!(listed.iter().any(|s| s.name == format!("s{k}")));
    }
}

#[test]
fn many_requests_for_one_name_one_success() {
    let mut reg = ShareRegistry::new();
    let mut ok = 0;
    let mut dup = 0;
    for k in 0..8 {
        match reg.share(args(&format!("/tmp/{k}"), Some("same"))) {
            Ok(_) => ok += 1,
            Err(DaemonShareError::DuplicateName(n)) => {
                assert_eq!(n, "same");
                dup += 1;
            }
            Err(e) => panic!("unexpected error {e:?}"),
        }
    }
    assert_eq!(ok, 1);
    assert_eq!(dup, 7);
    assert_eq!(reg.get("same").unwrap().path, "/tmp/0");
}

fn sample() -> ShareRegistry {
    let mut reg = ShareRegistry::new();
    reg.share(args("/srv/music", Some("music"))).unwrap();
    let mut off = args("/srv/secret", Some("hidden"));
    off.disabled = Some(true);
    reg.share(off).unwrap();
    reg
}

#[test]
fn resolve_root() {
    let reg = sample();
    assert_eq!(reg.resolve_path(""), Ok(Resolved::Root));
    assert_eq!(reg.resolve_path("/"), Ok(Resolved::Root));
    assert_eq!(reg.resolve_path("."), Ok(Resolved::Root));
    assert_eq!(reg.resolve_path("//./"), Ok(Resolved::Root));
}

#[test]
fn resolve_share_root_and_children() {
    let reg = sample();
    let entry = |p: &str| {
        Ok(Resolved::Entry(ResolvedEntry { share: "music".to_string(), path: p.to_string() }))
    };
    assert_eq!(reg.resolve_path("music"), entry("/srv/music"));
    assert_eq!(reg.resolve_path("/music/"), entry("/srv/music"));
    assert_eq!(reg.resolve_path("music/a/b.mp3"), entry("/srv/music/a/b.mp3"));
    assert_eq!(reg.resolve_path("music/a/../c"), entry("/srv/music/c"));
    assert_eq!(reg.resolve_path("./music/./a//b"), entry("/srv/music/a/b"));
}

#[test]
fn resolve_errors() {
    let reg = sample();
    assert_eq!(reg.resolve_path("unknown/x"), Err(ResolveError::UnknownShare));
    assert_eq!(reg.resolve_path("hidden/x"), Err(ResolveError::DisabledShare));
    assert_eq!(reg.resolve_path("music/.."), Err(ResolveError::EscapesShare));
    assert_eq!(reg.resolve_path("music/a/../../etc"), Err(ResolveError::EscapesShare));
}

#[test]
fn daemon_dispatch() {
    let mut daemon = Daemon::new(ShareRegistry::new());
    let (reply, event) = daemon.daemon_call(DaemonFunction::Share(args("/tmp/x", Some("a"))));
    match (reply, event) {
        (DaemonReply::Share(Ok(s)), Some(DaemonEvent::Shared(e))) => {
            assert_eq!(s.name, "a");
            assert_eq!(e.name, "a");
        }
        other => panic!("unexpected {other:?}"),
    }
    let (reply, event) = daemon.daemon_call(DaemonFunction::Share(args("/tmp/x", Some("a"))));
    assert!(matches!(reply, DaemonReply::Share(Err(DaemonShareError::DuplicateName(_)))));
    assert!(event.is_none());
    let (reply, _) = daemon.daemon_call(DaemonFunction::List);
    match reply {
        DaemonReply::List(v) => assert_eq!(v.len(), 1),
        other => panic!("unexpected {other:?}"),
    }
    let (reply, _) = daemon.daemon_call(DaemonFunction::Disable(DaemonDisableArgs { name: "a".to_string() }));
    assert!(matches!(reply, DaemonReply::Disable(Ok(_))));
    let (reply, _) = daemon.daemon_call(DaemonFunction::Enable(DaemonEnableArgs { name: "a".to_string() }));
    assert!(matches!(reply, DaemonReply::Enable(Ok(_))));
    let (reply, event) =
        daemon.daemon_call(DaemonFunction::Unshare(DaemonUnshareArgs { name: "a".to_string() }));
    match (reply, event) {
        (DaemonReply::Unshare(Ok(s)), Some(DaemonEvent::Unshared(e))) => {
            assert_eq!(s.name, "a");
            assert_eq!(e.share.name, "a");
            assert_eq!(e.reason, UnshareReason::UserRequest);
        }
        other => panic!("unexpected {other:?}"),
    }
    assert!(!daemon.should_stop());
    let (reply, event) = daemon.daemon_call(DaemonFunction::ShutDown);
    assert!(matches!(reply, DaemonReply::ShutDown));
    assert!(event.is_none());
    assert!(daemon.should_stop());
}

#[test]
fn daemon_query() {
    let mut reg = ShareRegistry::new();
    reg.share(args("/srv/music", Some("music"))).unwrap();
    let daemon = Daemon::new(reg);
    assert_eq!(daemon.wily_query("/"), Ok(WilyQueryOk::Root));
    assert_eq!(
        daemon.wily_query("/music/x"),
        Ok(WilyQueryOk::Entry(ResolvedEntry {
            share: "music".to_string(),
            path: "/srv/music/x".to_string()
        }))
    );
    assert_eq!(daemon.wily_query("/nothing"), Err(WilyQueryError::FileNotFound));
    assert_eq!(daemon.wily_query("/music/.."), Err(WilyQueryError::FileNotFound));
}
