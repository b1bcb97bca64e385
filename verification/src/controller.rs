//! Daemon controller: the decision rules of the lifecycle. Parsing the
//! command line, running subprocesses, timers and signals are the caller's
//! side; the controller decides, out of plain values, which sub-command
//! runs, whether a new daemon may start, what a tick persists, what stop
//! does to the marker, and what a status query reports.

use vstd::prelude::*;

use crate::clock::LocalStamp;
use crate::clock::stamp_string;
use crate::clock::stamp_text;
use crate::marker::MarkerStore;
use crate::marker::read_spec;

verus! {

/// The command-line surface: connection settings and the one-shot flags.
pub struct Args {
    pub user: Option<String>,
    pub database: Option<String>,
    pub container: Option<String>,
    pub stats: bool,
    pub stop: bool,
    pub list_purrs: bool,
    pub rpurry: Option<String>,
}

/// The sub-command a run performs.
pub enum Command {
    /// Status query: report whether a daemon runs, its pid and uptime.
    Stats,
    /// Stop the running daemon.
    Stop,
    /// List the backup artifacts.
    ListBackups,
    /// Restore a previously produced artifact.
    Restore { file: String, container: String, user: String, database: String },
    /// The default: run the periodic dump daemon.
    StartDaemon { container: String, user: String, database: String },
}

/// Why a command line is rejected.
#[derive(PartialEq, Eq, Structural, Debug, Clone, Copy)]
pub enum ArgsError {
    /// Container, user and database are required unless a one-shot flag is
    /// given.
    MissingRequired,
}

/// Which sub-command the arguments select: the one-shot flags in their
/// fixed order of precedence; otherwise restore or the daemon, both of
/// which need the container, user and database.
pub open spec fn dispatch_spec(a: Args) -> Result<Command, ArgsError> {
    if a.stats {
        Ok(Command::Stats)
    } else if a.stop {
        Ok(Command::Stop)
    } else if a.list_purrs {
        Ok(Command::ListBackups)
    } else {
        match (a.container, a.user, a.database) {
            (Some(c), Some(u), Some(d)) => match a.rpurry {
                Some(f) => Ok(Command::Restore { file: f, container: c, user: u, database: d }),
                None => Ok(Command::StartDaemon { container: c, user: u, database: d }),
            },
            _ => Err(ArgsError::MissingRequired),
        }
    }
}

/// Selects the sub-command for a parsed command line.
pub fn dispatch(a: Args) -> (r: Result<Command, ArgsError>)
    ensures
        r == dispatch_spec(a),
{
    if a.stats {
        Ok(Command::Stats)
    } else if a.stop {
        Ok(Command::Stop)
    } else if a.list_purrs {
        Ok(Command::ListBackups)
    } else {
        match (a.container, a.user, a.database) {
            (Some(c), Some(u), Some(d)) => match a.rpurry {
                Some(f) => Ok(Command::Restore { file: f, container: c, user: u, database: d }),
                None => Ok(Command::StartDaemon { container: c, user: u, database: d }),
            },
            _ => Err(ArgsError::MissingRequired),
        }
    }
}

/// What the startup singleton check decides.
#[derive(PartialEq, Eq, Structural, Debug, Clone, Copy)]
pub enum StartupDecision {
    /// A daemon with this pid is already running: refuse to start.
    Refuse(u32),
    /// A marker for this pid is present but the process is dead: remove the
    /// stale marker and proceed.
    RemoveStale(u32),
    /// No marker: proceed.
    Proceed,
}

/// The startup decision, from the marker's recorded pid and the liveness
/// oracle's answer for it.
pub open spec fn startup_decision_spec(marker: Option<u32>, alive: bool) -> StartupDecision {
    match marker {
        Some(p) => if alive {
            StartupDecision::Refuse(p)
        } else {
            StartupDecision::RemoveStale(p)
        },
        None => StartupDecision::Proceed,
    }
}

/// Decides whether a new daemon instance may start.
pub fn startup_decision(marker: Option<u32>, alive: bool) -> (r: StartupDecision)
    ensures
        r == startup_decision_spec(marker, alive),
{
    match marker {
        Some(p) => if alive {
            StartupDecision::Refuse(p)
        } else {
            StartupDecision::RemoveStale(p)
        },
        None => StartupDecision::Proceed,
    }
}

/// Startup refuses to proceed exactly when a marker is present and its pid
/// is alive; a present-but-dead marker is removed and startup proceeds; an
/// absent marker proceeds as it is.
pub proof fn lemma_startup_singleton(marker: Option<u32>, alive: bool)
    ensures
        (startup_decision_spec(marker, alive) is Refuse) <==> (marker is Some && alive),
        marker matches Some(p) ==> startup_decision_spec(marker, alive) == (if alive {
            StartupDecision::Refuse(p)
        } else {
            StartupDecision::RemoveStale(p)
        }),
        marker is None ==> startup_decision_spec(marker, alive) == StartupDecision::Proceed,
{
}

/// Runs the startup singleton check against the store: refuses with the
/// conflicting pid when the marker's pid is alive, removes a stale marker,
/// and otherwise leaves the store as it is.
pub fn startup_check(store: &mut MarkerStore, alive: bool) -> (r: Result<(), u32>)
    ensures
        match read_spec(old(store)@) {
            Some(p) => if alive {
                r == Err::<(), u32>(p) && final(store)@ == old(store)@
            } else {
                r == Ok::<(), u32>(()) && final(store)@ is None
            },
            None => r == Ok::<(), u32>(()) && final(store)@ == old(store)@,
        },
{
    let marker = store.read();
    let decision = startup_decision(marker, alive);
    match decision {
        StartupDecision::Refuse(p) => Err(p),
        StartupDecision::RemoveStale(_) => {
            store.clear();
            Ok(())
        },
        StartupDecision::Proceed => Ok(()),
    }
}

/// Why a stop request fails.
#[derive(PartialEq, Eq, Structural, Debug, Clone, Copy)]
pub enum StopError {
    /// No marker records a running daemon: nothing to stop.
    NoProcess,
    /// The termination signal was not delivered.
    SignalFailed,
}

/// The pid stop signals, or the failure when no marker records one.
pub open spec fn stop_plan_spec(marker: Option<u32>) -> Result<u32, StopError> {
    match marker {
        Some(p) => Ok(p),
        None => Err(StopError::NoProcess),
    }
}

/// Plans a stop: the pid to signal, out of the store's marker. Reads only;
/// with no marker to stop, nothing is mutated anywhere.
pub fn stop_plan(store: &MarkerStore) -> (r: Result<u32, StopError>)
    ensures
        r == stop_plan_spec(read_spec(store@)),
{
    match store.read() {
        Some(p) => Ok(p),
        None => Err(StopError::NoProcess),
    }
}

/// The store's content and the reported result after the signal came back:
/// a delivered signal clears the marker and succeeds; a failed one leaves
/// the marker and fails.
pub open spec fn stop_finish_spec(content: Option<Seq<char>>, signal_ok: bool) -> (
    Option<Seq<char>>,
    Result<(), StopError>,
) {
    if signal_ok {
        (None, Ok(()))
    } else {
        (content, Err(StopError::SignalFailed))
    }
}

/// Finishes a stop once the termination signal's outcome is known.
pub fn stop_finish(store: &mut MarkerStore, signal_ok: bool) -> (r: Result<(), StopError>)
    ensures
        (final(store)@, r) == stop_finish_spec(old(store)@, signal_ok),
{
    if signal_ok {
        store.clear();
        Ok(())
    } else {
        Err(StopError::SignalFailed)
    }
}

/// Stop with no marker reports a failure (and the plan reads the store
/// immutably, so the failure mutates nothing).
pub proof fn lemma_stop_without_marker(content: Option<Seq<char>>)
    requires
        read_spec(content) is None,
    ensures
        stop_plan_spec(read_spec(content)) == Err::<u32, StopError>(StopError::NoProcess),
{
}

/// Stop with a marker: exactly the recorded pid is signalled, and a
/// delivered signal clears the marker and reports success.
pub proof fn lemma_stop_with_marker(content: Option<Seq<char>>, p: u32)
    requires
        read_spec(content) == Some(p),
    ensures
        stop_plan_spec(read_spec(content)) == Ok::<u32, StopError>(p),
        stop_finish_spec(content, true).0 is None,
        stop_finish_spec(content, true).1 is Ok,
{
}

/// What a status query reports.
#[derive(PartialEq, Eq, Structural, Debug, Clone, Copy)]
pub enum StatusReport {
    /// A daemon runs under this pid.
    Running { pid: u32 },
    /// No running daemon: the marker is absent or stale.
    NotRunning,
}

/// The status report: running exactly when a marker is present and its pid
/// is alive.
pub open spec fn status_spec(marker: Option<u32>, alive: bool) -> StatusReport {
    match marker {
        Some(p) => if alive {
            StatusReport::Running { pid: p }
        } else {
            StatusReport::NotRunning
        },
        None => StatusReport::NotRunning,
    }
}

/// The marker's recorded pid, for the status query; reads only, the query
/// never mutates the marker.
pub fn status(store: &MarkerStore) -> (r: Option<u32>)
    ensures
        r == read_spec(store@),
{
    store.read()
}

/// Composes the status report out of the marker and the liveness answer.
pub fn status_report(marker: Option<u32>, alive: bool) -> (r: StatusReport)
    ensures
        r == status_spec(marker, alive),
{
    match marker {
        Some(p) => if alive {
            StatusReport::Running { pid: p }
        } else {
            StatusReport::NotRunning
        },
        None => StatusReport::NotRunning,
    }
}

/// The artifact's full path: `<dir>/<DD_MM_YYYY_HH_MM>_backup.sql`.
pub open spec fn artifact_file_name_text(
    dir: Seq<char>,
    y: int,
    mo: nat,
    d: nat,
    h: nat,
    mi: nat,
) -> Seq<char> {
    dir + "/"@ + stamp_text(y, mo, d, h, mi) + "_backup.sql"@
}

/// Renders the artifact path for a dump taken at a moment in time.
pub fn artifact_file_name(dir: &str, now: &LocalStamp) -> (r: String)
    ensures
        r@ == artifact_file_name_text(
            dir@,
            now.year as int,
            now.month as nat,
            now.day as nat,
            now.hour as nat,
            now.minute as nat,
        ),
{
    let mut s = dir.to_owned();
    s.append("/");
    s.append(stamp_string(now.year, now.month, now.day, now.hour, now.minute).as_str());
    s.append("_backup.sql");
    proof {
        assert(s@ =~= artifact_file_name_text(
            dir@,
            now.year as int,
            now.month as nat,
            now.day as nat,
            now.hour as nat,
            now.minute as nat,
        ));
    }
    s
}

/// What one tick does once the dump's outcome is known.
pub enum TickAction {
    /// The dump succeeded: save its bytes under this artifact path and
    /// record this pid in the marker.
    Persist { file_name: String, pid: u32 },
    /// The dump failed: report the error and take no other action; the loop
    /// goes on to the next tick.
    Report,
}

/// Decides a tick: a successful dump is persisted under the timestamped
/// artifact name and refreshes the marker with the current pid; a failed
/// one is only reported.
pub fn tick_action(dump_ok: bool, dir: &str, now: &LocalStamp, pid: u32) -> (r: TickAction)
    ensures
        dump_ok ==> (r matches TickAction::Persist { file_name, pid: p } && file_name@
            == artifact_file_name_text(
            dir@,
            now.year as int,
            now.month as nat,
            now.day as nat,
            now.hour as nat,
            now.minute as nat,
        ) && p == pid),
        !dump_ok ==> r is Report,
{
    if dump_ok {
        TickAction::Persist { file_name: artifact_file_name(dir, now), pid }
    } else {
        TickAction::Report
    }
}

} // verus!
