//! The live monitor of a background download: its keys and the figures it shows.

use vstd::prelude::*;
use crate::modal::Key;
use crate::task::TaskState;
use crate::text::{decimal, push_decimal, push_str, string_of};

verus! {

/// What a key press in the monitor does.
#[derive(Debug, Clone, Copy, PartialEq, Eq, Structural)]
pub enum AttachAction {
    /// Leave the monitor; the download goes on in the background.
    Detach,
    /// Cancel the download and leave.
    Cancel,
    /// Keep watching.
    Stay,
}

/// `b` or Esc detaches, `x` cancels, any other key keeps watching.
pub fn attach_key(key: Key) -> (r: AttachAction)
    ensures
        r == (if key == Key::Char('b') || key == Key::Esc {
            AttachAction::Detach
        } else if key == Key::Char('x') {
            AttachAction::Cancel
        } else {
            AttachAction::Stay
        }),
{
    match key {
        Key::Esc => AttachAction::Detach,
        Key::Char(c) => if c == 'b' {
            AttachAction::Detach
        } else if c == 'x' {
            AttachAction::Cancel
        } else {
            AttachAction::Stay
        },
        _ => AttachAction::Stay,
    }
}

/// Bytes in a mebibyte.
pub const MIB: u64 = 1048576;

/// Whole-number figures of the monitor.
#[derive(Debug, Clone, Copy, PartialEq, Eq, Structural)]
pub struct AttachTelemetry {
    /// Mebibytes downloaded, rounded down.
    pub downloaded_mb: u64,
    /// Mebibytes in all, rounded down.
    pub total_mb: u64,
    /// Whole minutes left.
    pub eta_minutes: u64,
    /// Seconds left past the whole minutes.
    pub eta_seconds: u64,
}

/// The monitor's figures for a task.
pub fn attach_telemetry(task: &TaskState) -> (r: AttachTelemetry)
    ensures
        r.downloaded_mb == task.downloaded_bytes / MIB,
        r.total_mb == task.total_bytes / MIB,
        r.eta_minutes == task.eta_seconds / 60,
        r.eta_seconds == task.eta_seconds % 60,
{
    AttachTelemetry {
        downloaded_mb: task.downloaded_bytes / MIB,
        total_mb: task.total_bytes / MIB,
        eta_minutes: task.eta_seconds / 60,
        eta_seconds: task.eta_seconds % 60,
    }
}

/// The time-left line of the monitor: ` ETA:      <m>m <s>s remaining`.
pub fn eta_line(eta_seconds: u64) -> (r: String)
    ensures
        r@ == " ETA:      "@ + decimal((eta_seconds / 60) as nat) + "m "@ + decimal((eta_seconds % 60) as nat)
            + "s remaining"@,
{
    let mut v: Vec<char> = Vec::new();
    push_str(&mut v, " ETA:      ");
    push_decimal(&mut v, (eta_seconds / 60) as u128);
    push_str(&mut v, "m ");
    push_decimal(&mut v, (eta_seconds % 60) as u128);
    push_str(&mut v, "s remaining");
    string_of(&v)
}

} // verus!
