use wily::logging::{Color, Logging, Verbosity};
use wily::shutdown_notifier::{NotifierSide, ShutdownNotifier};
use wily::utils::{daemon_socket, verify_url, UrlError, WilyUrl, WILY_PORT};

fn url(scheme: &str, host: Option<&str>, port: Option<u16>) -> WilyUrl {
    WilyUrl {
        scheme: scheme.to_string(),
        host: host.map(|h| h.to_string()),
        port,
        path: "/".to_string(),
    }
}

#[test]
fn url_default_port() {
    assert_eq!(WILY_PORT, 9999);
    assert_eq!(verify_url(&url("wily", Some("example.org"), None)), Ok(("example.org".to_string(), 9999)));
    assert_eq!(verify_url(&url("wily", Some("h"), Some(1234))), Ok(("h".to_string(), 1234)));
}

#[test]
fn url_errors() {
    assert_eq!(
        verify_url(&url("http", Some("h"), None)),
        Err(UrlError::InvalidScheme("http".to_string()))
    );
    assert_eq!(verify_url(&url("wily", None, None)), Err(UrlError::NoHost));
}

#[test]
fn socket_path() {
    assert_eq!(
        daemon_socket(Some("/run/user/1000".to_string()), Some("/home/u/.local/share".to_string())),
        Some("/run/user/1000/wily.sock".to_string())
    );
    assert_eq!(
        daemon_socket(None, Some("/home/u/.local/share/".to_string())),
        Some("/home/u/.local/share/wily.sock".to_string())
    );
    assert_eq!(daemon_socket(None, None), None);
}

#[test]
fn shutdown_twice_is_shutdown_once() {
    let (mut owner, mut dependent) = ShutdownNotifier::new_pair();
    assert_eq!(owner.side(), NotifierSide::Owner);
    assert_eq!(dependent.side(), NotifierSide::Dependent);
    assert!(owner.is_armed());
    owner.shutdown();
    assert!(!owner.is_armed());
    owner.shutdown();
    assert!(!owner.is_armed());
    assert_eq!(owner.side(), NotifierSide::Owner);
    dependent.observed();
    assert!(!dependent.is_armed());
    dependent.observed();
    assert!(!dependent.is_armed());
}

#[test]
fn color_choice() {
    let mut l = Logging::new();
    assert_eq!(l.verbosity, Verbosity::Info);
    assert!(l.use_color(true));
    assert!(!l.use_color(false));
    l.color = Color::Always;
    assert!(l.use_color(false));
    l.color = Color::Never;
    assert!(!l.use_color(true));
}

use wily::supervisor::{BusFailure, ExitCause, Step, Subsystem, Supervisor};

fn finish(sup: &mut Supervisor, failures: [bool; 5]) {
    for failed in failures {
        sup.advance(failed);
    }
}

#[test]
fn requested_shutdown_tears_down_in_order() {
    let mut sup = Supervisor::new();
    assert_eq!(sup.step(), Step::Select);
    assert!(!sup.stop(ExitCause::Requested));
    assert_eq!(sup.step(), Step::ShutDownBroker);
    assert!(!sup.stop(ExitCause::Died(Subsystem::Broker)));
    assert_eq!(sup.step(), Step::ShutDownBroker);
    let mut seen = vec![];
    while sup.step() != Step::Finished {
        seen.push(sup.step());
        sup.advance(false);
    }
    assert_eq!(
        seen,
        vec![
            Step::ShutDownBroker,
            Step::ShutDownClient,
            Step::JoinBroker,
            Step::JoinClient,
            Step::JoinConnection
        ]
    );
    assert_eq!(sup.outcome(), Ok(()));
}

#[test]
fn early_death_is_an_error() {
    let mut sup = Supervisor::new();
    assert!(sup.stop(ExitCause::Died(Subsystem::InternalClient)));
    finish(&mut sup, [false; 5]);
    assert_eq!(sup.outcome(), Err(BusFailure::Died(Subsystem::InternalClient)));
}

#[test]
fn first_join_failure_is_kept() {
    let mut sup = Supervisor::new();
    sup.stop(ExitCause::Requested);
    finish(&mut sup, [true, true, false, true, true]);
    assert_eq!(sup.outcome(), Err(BusFailure::JoinFailed(Subsystem::InternalClient)));
}
