//! Notifications sent through ntfy.

pub mod ntfy;
