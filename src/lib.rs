//! Redirection of I/O streams at the level of the operating system's descriptor and
//! handle tables.
//!
//! The library holds the decisions of every redirection procedure: which call comes
//! next, with which arguments, how the status a call reported is read, and what becomes
//! of a descriptor that a procedure opened. The calls themselves are made by the caller,
//! which hands each reply back and performs the next action.

pub mod descriptor;
pub mod status;
pub mod path_plan;
pub mod bridge;
pub mod model;

pub use descriptor::{Descriptable, Descriptor, Handle, Redirectable, STDERR_DESCRIPTOR, STDOUT_DESCRIPTOR};
pub use status::{check_descriptor, check_flag, check_handle, OsError};
pub use path_plan::{Action, Disposal, PathRedirect, Stage};
pub use bridge::{BridgeAction, BridgeStage, HandleBridge};
pub use model::Kernel;
