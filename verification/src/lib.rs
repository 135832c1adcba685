//! The decisions of the `facelock` command line, each with a proved contract.

pub mod args;
pub mod auth;
pub mod daemon;
pub mod data;
pub mod device;
pub mod devices;
pub mod direct;
pub mod enroll;
pub mod hyprlock;
pub mod ipc_client;
pub mod is_enrolled;
pub mod json;
pub mod lifecycle;
pub mod list;
pub mod logging;
pub mod man_pam;
pub mod message;
pub mod pam;
pub mod paths;
pub mod preview;
pub mod quirks;
pub mod remove;
pub mod status;
pub mod test_cmd;
pub mod text;
