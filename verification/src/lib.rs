//! Single-instance periodic backup daemon: lifecycle and singleton enforcement.
//!
//! The library holds the verified core: the marker store that records the
//! running daemon's pid on disk, the decision rules of the daemon controller
//! (startup singleton check, per-tick actions, stop, status), the uptime
//! calculator, and the backup-listing and restore-log text formats. All
//! file, process and terminal I/O lives outside the library and hands plain
//! values in and out.

pub mod num_text;
pub mod text;
pub mod marker;
pub mod clock;
pub mod schedule;
pub mod liveness;
pub mod uptime;
pub mod listing;
pub mod restore;
pub mod controller;
