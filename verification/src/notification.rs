//! Short-lived messages shown over the dashboard.
use std::time::{Duration, Instant};
use vstd::prelude::*;

verus! {

/// How long, in whole seconds, a notification stays up.
pub const NOTIFICATION_SECS: u64 = 3;

#[verifier::external_type_specification]
#[verifier::external_body]
pub struct ExInstant(Instant);

/// `Instant`'s `Clone`: `Instant` is `Copy`, so a clone is the same moment.
pub assume_specification[ <Instant as Clone>::clone ](t: &Instant) -> (r: Instant)
    ensures
        r == *t,
;

/// `Instant::now`: the current moment of the monotonic clock. Nothing is
/// stated of the value, which depends on the time of the call.
#[verifier::external_body]
fn instant_now() -> Instant {
    Instant::now()
}

/// `Instant::elapsed`: the time that has passed since `t`. Nothing is stated
/// of the value, which depends on the time of the call.
#[verifier::external_body]
fn instant_elapsed(t: &Instant) -> Duration {
    t.elapsed()
}

/// `Duration::as_secs`: the whole seconds of `d`. Nothing is stated, as the
/// duration itself is opaque here.
#[verifier::external_body]
fn duration_whole_secs(d: &Duration) -> u64 {
    d.as_secs()
}

/// How a notification is shown.
#[derive(Debug, Clone, Copy, PartialEq, Eq, Structural)]
pub enum NotificationLevel {
    Info,
    Success,
    Error,
}

/// A message with its level and the moment it was raised.
#[derive(Debug, Clone)]
pub struct Notification {
    pub message: String,
    pub level: NotificationLevel,
    pub created_at: Instant,
}

/// A notification that has been up for `elapsed_secs` whole seconds has run its course.
pub fn expired_after(elapsed_secs: u64) -> (expired: bool)
    ensures
        expired == (elapsed_secs >= NOTIFICATION_SECS),
{
    elapsed_secs >= NOTIFICATION_SECS
}

impl Notification {
    /// A notification of `level` with `msg`, raised at the moment `at`.
    pub fn raised_at(msg: String, level: NotificationLevel, at: Instant) -> (n: Self)
        ensures
            n.message == msg,
            n.level == level,
            n.created_at == at,
    {
        Notification { message: msg, level, created_at: at }
    }

    /// An informational notification raised now. The moment is read from the
    /// clock, so its value is not stated.
    pub fn info(msg: String) -> (n: Self)
        ensures
            n.message == msg,
            n.level == NotificationLevel::Info,
    {
        Self::raised_at(msg, NotificationLevel::Info, instant_now())
    }

    /// A success notification raised now. The moment is read from the clock,
    /// so its value is not stated.
    pub fn success(msg: String) -> (n: Self)
        ensures
            n.message == msg,
            n.level == NotificationLevel::Success,
    {
        Self::raised_at(msg, NotificationLevel::Success, instant_now())
    }

    /// An error notification raised now. The moment is read from the clock, so
    /// its value is not stated.
    pub fn error(msg: String) -> (n: Self)
        ensures
            n.message == msg,
            n.level == NotificationLevel::Error,
    {
        Self::raised_at(msg, NotificationLevel::Error, instant_now())
    }

    /// The notification has been up for its time; what came back from the
    /// clock is judged by `expired_after`.
    pub fn is_expired(&self) -> bool {
        let elapsed = instant_elapsed(&self.created_at);
        expired_after(duration_whole_secs(&elapsed))
    }
}

} // verus!
