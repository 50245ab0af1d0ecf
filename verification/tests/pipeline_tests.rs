use repo_monitor::errors::{ErrorKind, FailCause, PullError, Stage};
use repo_monitor::pipeline::{differs, start, step, Action, Event, Outcome, Step};

fn tip_a() -> Vec<u8> {
    b"449022de3b3ebcfbbbb010f2ca91f724df03b33e".to_vec()
}

fn tip_b() -> Vec<u8> {
    b"93b3b2a59711ff33d1b24e1a7e1a5c5a3a2b1c0d".to_vec()
}

#[test]
fn start_requests_a_fetch() {
    let t = start();
    assert!(matches!(t.state, Step::Fetching));
    assert_eq!(t.action, Action::DoFetch);
}

#[test]
fn differs_is_false_on_equal_tips() {
    assert!(!differs(&tip_a(), &tip_a()));
}

#[test]
fn differs_is_true_on_unequal_tips() {
    assert!(differs(&tip_a(), &tip_b()));
    assert!(differs(&tip_a(), &b"449022de3b3ebcfbbbb010f2ca91f724df03b33".to_vec()));
}

#[test]
fn equal_tips_end_up_to_date_without_merge() {
    let t = start();
    let t = step(t.state, Event::FetchSucceeded { remote_tip: tip_a() });
    assert_eq!(t.action, Action::DoReadLocalTip);
    let t = step(t.state, Event::LocalTipRead { local_tip: tip_a() });
    assert_eq!(t.action, Action::Halt);
    match t.state {
        Step::Finished { outcome } => assert_eq!(outcome, Outcome::UpToDate),
        _ => panic!("pipeline did not finish"),
    }
}

#[test]
fn differing_tips_merge_and_end_merged() {
    let t = start();
    let t = step(t.state, Event::FetchSucceeded { remote_tip: tip_a() });
    let t = step(t.state, Event::LocalTipRead { local_tip: tip_b() });
    assert_eq!(t.action, Action::DoMerge);
    let t = step(t.state, Event::MergeSucceeded);
    assert_eq!(t.action, Action::Halt);
    match t.state {
        Step::Finished { outcome } => assert_eq!(outcome, Outcome::Merged),
        _ => panic!("pipeline did not finish"),
    }
}

#[test]
fn merge_conflict_fails_with_conflict_error() {
    let t = start();
    let t = step(t.state, Event::FetchSucceeded { remote_tip: tip_a() });
    let t = step(t.state, Event::LocalTipRead { local_tip: tip_b() });
    let t = step(t.state, Event::MergeFailed { cause: FailCause::Conflict });
    assert_eq!(t.action, Action::Halt);
    match t.state {
        Step::Finished { outcome } => assert_eq!(
            outcome,
            Outcome::Failed {
                error: PullError { stage: Stage::Merge, kind: ErrorKind::ConflictError }
            }
        ),
        _ => panic!("pipeline did not finish"),
    }
}

#[test]
fn missing_remote_fails_with_config_error_and_halts() {
    let t = start();
    let t = step(t.state, Event::FetchFailed { cause: FailCause::RemoteMissing });
    assert_eq!(t.action, Action::Halt);
    match t.state {
        Step::Finished { outcome } => assert_eq!(
            outcome,
            Outcome::Failed {
                error: PullError { stage: Stage::Fetch, kind: ErrorKind::ConfigError }
            }
        ),
        _ => panic!("pipeline did not finish"),
    }
}

#[test]
fn rejected_credential_fails_with_auth_error() {
    let t = start();
    let t = step(t.state, Event::FetchFailed { cause: FailCause::AuthRejected });
    assert_eq!(t.action, Action::Halt);
    match t.state {
        Step::Finished { outcome } => assert_eq!(
            outcome,
            Outcome::Failed {
                error: PullError { stage: Stage::Fetch, kind: ErrorKind::AuthError }
            }
        ),
        _ => panic!("pipeline did not finish"),
    }
}

#[test]
fn unreadable_head_fails_in_compare_stage() {
    let t = start();
    let t = step(t.state, Event::FetchSucceeded { remote_tip: tip_a() });
    let t = step(t.state, Event::LocalTipUnreadable { cause: FailCause::HeadMissing });
    match t.state {
        Step::Finished { outcome } => assert_eq!(
            outcome,
            Outcome::Failed {
                error: PullError { stage: Stage::Compare, kind: ErrorKind::RefError }
            }
        ),
        _ => panic!("pipeline did not finish"),
    }
}

#[test]
fn transport_failure_fails_with_network_error() {
    let t = start();
    let t = step(t.state, Event::FetchFailed { cause: FailCause::TransportFailed });
    match t.state {
        Step::Finished { outcome } => assert_eq!(
            outcome,
            Outcome::Failed {
                error: PullError { stage: Stage::Fetch, kind: ErrorKind::NetworkError }
            }
        ),
        _ => panic!("pipeline did not finish"),
    }
}

#[test]
fn missing_repository_fails_with_path_error() {
    let t = start();
    let t = step(t.state, Event::FetchFailed { cause: FailCause::RepositoryMissing });
    match t.state {
        Step::Finished { outcome } => assert_eq!(
            outcome,
            Outcome::Failed {
                error: PullError { stage: Stage::Fetch, kind: ErrorKind::PathError }
            }
        ),
        _ => panic!("pipeline did not finish"),
    }
}
