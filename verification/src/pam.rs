//! `facelock pam add | remove | status`: the writer of PAM service files.

pub mod alias;
pub mod apply;
pub mod edit;
pub mod message;
pub mod phase;
pub mod plan;
pub mod replace;
pub mod report;
pub mod resolve;
