//! Attribution of open network sockets to the processes that own them.
//!
//! A scan of the host's process table is handed to [`os::linux::get_open_sockets`],
//! which folds it into an [`OpenSockets`] index from local socket to owning process.

pub mod network;
pub mod os;
pub mod sockets;

pub use crate::sockets::OpenSockets;
