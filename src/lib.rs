//! Orchestration core of a removable-drive backup agent: drive identity and
//! trust, retention, the backup run pipeline, device handling decisions and
//! the shared runtime state.
pub mod backup;
pub mod config;
pub mod devices;
pub mod drive;
pub mod errors;
pub mod ipc;
pub mod logging;
pub mod notifications;
pub mod recovery;
pub mod restic;
pub mod retention;
pub mod rng;
pub mod state;
pub mod text;
pub mod usb;
