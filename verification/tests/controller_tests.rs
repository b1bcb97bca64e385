use purrgres::clock::LocalStamp;
use purrgres::controller::artifact_file_name;
use purrgres::controller::dispatch;
use purrgres::controller::startup_check;
use purrgres::controller::startup_decision;
use purrgres::controller::status;
use purrgres::controller::status_report;
use purrgres::controller::stop_finish;
use purrgres::controller::stop_plan;
use purrgres::controller::tick_action;
use purrgres::controller::Args;
use purrgres::controller::ArgsError;
use purrgres::controller::Command;
use purrgres::controller::StartupDecision;
use purrgres::controller::StatusReport;
use purrgres::controller::StopError;
use purrgres::controller::TickAction;
use purrgres::marker::MarkerStore;

fn args(
    user: Option<&str>,
    database: Option<&str>,
    container: Option<&str>,
    stats: bool,
    stop: bool,
    list_purrs: bool,
    rpurry: Option<&str>,
) -> Args {
    Args {
        user: user.map(String::from),
        database: database.map(String::from),
        container: container.map(String::from),
        stats,
        stop,
        list_purrs,
        rpurry: rpurry.map(String::from),
    }
}

#[test]
fn dispatch_stats() {
    let r = dispatch(args(None, None, None, true, false, false, None));
    assert!(matches!(r, Ok(Command::Stats)));
}

#[test]
fn dispatch_stop() {
    let r = dispatch(args(None, None, None, false, true, false, None));
    assert!(matches!(r, Ok(Command::Stop)));
}

#[test]
fn dispatch_list() {
    let r = dispatch(args(None, None, None, false, false, true, None));
    assert!(matches!(r, Ok(Command::ListBackups)));
}

#[test]
fn dispatch_stats_takes_precedence() {
    let r = dispatch(args(None, None, None, true, true, true, None));
    assert!(matches!(r, Ok(Command::Stats)));
}

#[test]
fn dispatch_start_daemon() {
    let r = dispatch(args(Some("pg"), Some("app"), Some("db1"), false, false, false, None));
    match r {
        Ok(Command::StartDaemon { container, user, database }) => {
            assert_eq!(container, "db1");
            assert_eq!(user, "pg");
            assert_eq!(database, "app");
        }
        _ => panic!("expected the daemon command"),
    }
}

#[test]
fn dispatch_restore() {
    let r = dispatch(args(
        Some("pg"),
        Some("app"),
        Some("db1"),
        false,
        false,
        false,
        Some("foo_backup.sql"),
    ));
    match r {
        Ok(Command::Restore { file, container, user, database }) => {
            assert_eq!(file, "foo_backup.sql");
            assert_eq!(container, "db1");
            assert_eq!(user, "pg");
            assert_eq!(database, "app");
        }
        _ => panic!("expected the restore command"),
    }
}

#[test]
fn dispatch_missing_required() {
    let r = dispatch(args(Some("pg"), None, Some("db1"), false, false, false, None));
    assert!(matches!(r, Err(ArgsError::MissingRequired)));
}

#[test]
fn startup_refuses_live_marker() {
    assert_eq!(startup_decision(Some(777), true), StartupDecision::Refuse(777));
    let mut store = MarkerStore::from_content(Some(String::from("777")));
    let r = startup_check(&mut store, true);
    assert_eq!(r, Err(777));
    assert_eq!(store.content().as_deref(), Some("777"));
}

#[test]
fn startup_removes_stale_marker() {
    assert_eq!(startup_decision(Some(999999), false), StartupDecision::RemoveStale(999999));
    let mut store = MarkerStore::from_content(Some(String::from("999999")));
    let r = startup_check(&mut store, false);
    assert_eq!(r, Ok(()));
    assert!(store.content().is_none());
}

#[test]
fn startup_proceeds_without_marker() {
    assert_eq!(startup_decision(None, false), StartupDecision::Proceed);
    assert_eq!(startup_decision(None, true), StartupDecision::Proceed);
    let mut store = MarkerStore::new();
    let r = startup_check(&mut store, false);
    assert_eq!(r, Ok(()));
    assert!(store.content().is_none());
}

#[test]
fn startup_malformed_marker_reads_absent() {
    // Malformed content reads as absence: startup proceeds; only a marker
    // with a recorded dead pid is removed as stale.
    let mut store = MarkerStore::from_content(Some(String::from("not a pid")));
    let r = startup_check(&mut store, false);
    assert_eq!(r, Ok(()));
    assert_eq!(store.content().as_deref(), Some("not a pid"));
}

#[test]
fn stop_without_marker_fails_and_mutates_nothing() {
    let store = MarkerStore::new();
    assert_eq!(stop_plan(&store), Err(StopError::NoProcess));
    assert!(store.content().is_none());
}

#[test]
fn stop_with_live_marker_signals_clears_and_succeeds() {
    let mut store = MarkerStore::new();
    store.write(4242);
    assert_eq!(stop_plan(&store), Ok(4242));
    let r = stop_finish(&mut store, true);
    assert_eq!(r, Ok(()));
    assert!(store.content().is_none());
}

#[test]
fn stop_failed_signal_keeps_marker() {
    let mut store = MarkerStore::new();
    store.write(4242);
    let r = stop_finish(&mut store, false);
    assert_eq!(r, Err(StopError::SignalFailed));
    assert_eq!(store.read(), Some(4242));
}

#[test]
fn status_reports_running_only_when_alive() {
    assert_eq!(status_report(Some(31), true), StatusReport::Running { pid: 31 });
    assert_eq!(status_report(Some(999999), false), StatusReport::NotRunning);
    assert_eq!(status_report(None, true), StatusReport::NotRunning);
    assert_eq!(status_report(None, false), StatusReport::NotRunning);
}

#[test]
fn status_reads_marker_without_mutating() {
    let store = MarkerStore::from_content(Some(String::from("999999")));
    assert_eq!(status(&store), Some(999999));
    assert_eq!(store.content().as_deref(), Some("999999"));
}

#[test]
fn artifact_name_is_timestamped() {
    let now = LocalStamp { ts: 1704103200, year: 2024, month: 1, day: 1, hour: 10, minute: 0 };
    let name = artifact_file_name("/home/cat/.purrgres", &now);
    assert_eq!(name, "/home/cat/.purrgres/01_01_2024_10_00_backup.sql");
}

#[test]
fn tick_persists_on_success() {
    let now = LocalStamp { ts: 1704103200, year: 2024, month: 1, day: 1, hour: 10, minute: 0 };
    match tick_action(true, "/b", &now, 55) {
        TickAction::Persist { file_name, pid } => {
            assert_eq!(file_name, "/b/01_01_2024_10_00_backup.sql");
            assert_eq!(pid, 55);
        }
        TickAction::Report => panic!("a successful dump must be persisted"),
    }
}

#[test]
fn daemon_lifecycle_scenario() {
    // First instance starts against an empty backup root ...
    let r = dispatch(args(Some("pg"), Some("app"), Some("db1"), false, false, false, None));
    assert!(matches!(r, Ok(Command::StartDaemon { .. })));
    let mut store = MarkerStore::new();
    assert_eq!(startup_check(&mut store, false), Ok(()));
    // ... its first tick succeeds: a timestamped artifact is persisted and
    // the marker records the current pid ...
    let now = LocalStamp { ts: 1704103200, year: 2024, month: 1, day: 1, hour: 10, minute: 0 };
    match tick_action(true, "/root/.purrgres", &now, 1234) {
        TickAction::Persist { file_name, pid } => {
            assert_eq!(file_name, "/root/.purrgres/01_01_2024_10_00_backup.sql");
            store.write(pid);
        }
        TickAction::Report => panic!("a successful dump must be persisted"),
    }
    assert_eq!(store.read(), Some(1234));
    // ... and a second instance, while the first is alive, is refused with
    // the live pid.
    assert_eq!(startup_check(&mut store, true), Err(1234));
    assert_eq!(store.read(), Some(1234));
}

#[test]
fn tick_reports_on_failure() {
    let now = LocalStamp { ts: 1704103200, year: 2024, month: 1, day: 1, hour: 10, minute: 0 };
    assert!(matches!(tick_action(false, "/b", &now, 55), TickAction::Report));
}
