//! Exclusive ownership of the daemon's lifecycle during destructive work.
//!
//! The lifecycle lock is taken, every activation definition is shown to
//! delegate to systemd, the unit is masked by an owned barrier file, and the
//! daemon is stopped and shown to be gone. A lease that ends, however it ends,
//! undoes this in reverse order.

pub mod activation;
pub mod identity;
pub mod layout;
pub mod stage;
pub mod unit;
