//! The device context: the canonical device path and the pre-opened
//! descriptor, handed to the process out of band and read once. Either part
//! may be absent, which disables the redirection that depends on it.

use vstd::prelude::*;
use crate::entry::NAME_BUF_LEN;
use crate::paths::no_nul;

verus! {

/// The out-of-band configuration: the device's canonical path, and the number
/// of a descriptor already open on the device. The descriptor's lifetime
/// belongs to whoever opened it; nothing here may close it.
pub struct DeviceContext {
    pub device_path: Option<Vec<u8>>,
    pub device_fd: Option<i32>,
}

impl DeviceContext {
    /// The path, when present, fits a directory-entry name buffer and holds
    /// no terminator byte.
    pub open spec fn path_wf(self) -> bool {
        match self.device_path {
            None => true,
            Some(p) => p@.len() < NAME_BUF_LEN && no_nul(p@),
        }
    }

    /// A context holding exactly the two given parts.
    pub fn new(device_path: Option<Vec<u8>>, device_fd: Option<i32>) -> (r: Self)
        ensures
            r.device_path == device_path,
            r.device_fd == device_fd,
    {
        DeviceContext { device_path, device_fd }
    }

    /// A context with neither part: every hook then passes through.
    pub fn absent() -> (r: Self)
        ensures
            r.device_path is None,
            r.device_fd is None,
    {
        DeviceContext { device_path: None, device_fd: None }
    }
}

} // verus!
