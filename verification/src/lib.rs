//! Interception logic for a preloaded filesystem shim.
//!
//! A process that cannot open a USB device node directly is handed the
//! device's canonical path and an already-open descriptor out of band. This
//! library holds the logic that makes every later directory walk and open
//! attempt against that path resolve to the pre-opened descriptor: the
//! synthetic directory map over the path's ancestors, the dual-mode directory
//! handle, the path remapper, and the open/close redirection decisions. The
//! thin layer that sits at the libc boundary performs the raw calls and feeds
//! plain values through these functions.

pub mod context;
pub mod dirmap;
pub mod entry;
pub mod handle;
pub mod hooks;
pub mod paths;
