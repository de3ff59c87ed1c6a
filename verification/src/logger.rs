//! Leveled logging calls.
//!
//! Logging is observability only: no component of this crate depends on it
//! for correctness.  Each call asks the `log` crate's process-wide filter
//! whether its level is enabled — the filter the program's logger setup
//! installs, typically `info` unless the environment says otherwise — and
//! only then writes the leveled line to standard error, the sink the default
//! logger uses.

use std::io::Write;
use vstd::prelude::*;

verus! {

/// The levels this crate logs at.
#[derive(Clone, Copy, Debug, PartialEq, Eq, Structural)]
pub enum LogLevel {
    /// Informational progress messages.
    Info,
    /// Diagnostic detail.
    Debug,
    /// Failures worth an operator's attention.
    Error,
}

/// Relies on log::max_level: whether the process-wide filter admits the
/// given level.  The filter is global mutable state, so nothing is assumed
/// of the answer.
#[verifier::external_body]
fn level_enabled(level: LogLevel) -> bool {
    let lvl = match level {
        LogLevel::Info => log::Level::Info,
        LogLevel::Debug => log::Level::Debug,
        LogLevel::Error => log::Level::Error,
    };
    lvl <= log::max_level()
}

/// Relies on std::io::Stderr::write_fmt, through `writeln!`: writes the
/// tagged line to the process' standard error and ignores a write failure,
/// as a best-effort log sink must.
#[verifier::external_body]
fn emit_line(tag: &str, message: &str) {
    let _ = writeln!(std::io::stderr(), "[{}] {}", tag, message);
}

/// Logs an informational message.
pub fn log_info(message: &str) {
    if level_enabled(LogLevel::Info) {
        emit_line("INFO", message);
    }
}

/// Logs a diagnostic message.
pub fn log_debug(message: &str) {
    if level_enabled(LogLevel::Debug) {
        emit_line("DEBUG", message);
    }
}

/// Logs an error message.
pub fn log_error(message: &str) {
    if level_enabled(LogLevel::Error) {
        emit_line("ERROR", message);
    }
}

} // verus!
