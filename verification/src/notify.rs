//! User-facing notifications with a severity distinction, so that a
//! fatal stream failure is presented differently from a recoverable
//! parse warning.
//!
//! The frontend owns the clock; it hands the elapsed display time in
//! when it asks whether a notification has run out.

use vstd::prelude::*;

verus! {

/// Severity of a notification.
#[derive(Clone, Copy, Debug, PartialEq, Eq, Structural)]
pub enum NotificationType {
    Info,
    Warning,
    Error,
}

/// One notification: its text, how long it stays visible in
/// milliseconds, and its severity.
#[derive(Debug, Clone)]
pub struct Notification {
    pub text: String,
    pub duration_ms: u64,
    pub ntype: NotificationType,
}

impl Notification {
    /// A notification showing `text` for `duration_ms` milliseconds.
    pub fn new(text: &str, duration_ms: u64, ntype: NotificationType) -> (r: Notification)
        ensures
            r.text@ == text@,
            r.duration_ms == duration_ms,
            r.ntype == ntype,
    {
        Notification { text: text.to_owned(), duration_ms, ntype }
    }

    /// Whether the notification has outlived its duration after
    /// `elapsed_ms` milliseconds on screen.
    pub fn is_expired(&self, elapsed_ms: u64) -> (r: bool)
        ensures
            r == (elapsed_ms > self.duration_ms),
    {
        elapsed_ms > self.duration_ms
    }
}

} // verus!
