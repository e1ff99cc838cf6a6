//! A deferred-callback scheduler: callbacks are registered with the time from
//! which they may run, and are handed out, earliest first, once a readiness
//! check finds them due.

pub mod callback;
pub mod ready_queue;
pub mod reminder;
pub mod remote_reminder;
