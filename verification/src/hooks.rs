//! The open/close redirection decisions: any open of a path under the bus
//! root is answered with the pre-opened descriptor, and any close of that
//! descriptor is swallowed so the shared descriptor outlives the caller's
//! notion of its lifetime.

use vstd::prelude::*;
use crate::context::DeviceContext;
use crate::paths::is_under_bus_root;

verus! {

/// The `open(2)` flag that requests file creation; when set, the caller
/// passed a third (mode) argument that a delegated call must forward. The
/// value is the platform's.
pub const O_CREAT: i32 = 0o100;

/// What the open hook decided: hand the caller the pre-opened descriptor
/// (`repositioned` records whether the rewind of the shared descriptor was
/// accepted, a diagnostic only), or delegate to the real open primitive,
/// forwarding the mode argument only when the creation flag is set.
pub enum OpenAction {
    Redirected { fd: i32, repositioned: bool },
    Delegated { with_mode: bool },
}

/// What the close hook decided: report success without any real call, or
/// delegate to the real close primitive and forward its result unchanged.
#[derive(Clone, Copy, PartialEq, Eq, Structural)]
pub enum CloseAction {
    ReportSuccess,
    DelegateReal,
}

/// The descriptor an open of `path` is answered with, if any: the configured
/// one, exactly when it is configured and `path` lies under the bus root.
pub open spec fn spec_redirect_target(path: Seq<u8>, device_fd: Option<i32>) -> Option<i32> {
    if device_fd is Some && is_under_bus_root(path) {
        device_fd
    } else {
        None
    }
}

/// The close decision: success is reported, with no real call, exactly for
/// the configured descriptor.
pub open spec fn spec_close_action(fd: i32, device_fd: Option<i32>) -> CloseAction {
    if device_fd == Some(fd) {
        CloseAction::ReportSuccess
    } else {
        CloseAction::DelegateReal
    }
}

/// Relies on nix::unistd::lseek: repositions the descriptor to offset zero
/// from the start of the file; returns whether the kernel accepted the seek.
/// The outcome depends on the state of the descriptor, so nothing is promised
/// of it.
#[verifier::external_body]
fn seek_to_start(fd: i32) -> bool {
    match nix::unistd::lseek(fd, 0, nix::unistd::Whence::SeekSet) {
        Ok(_) => true,
        Err(_) => false,
    }
}

/// The open hook's decision for `path` and `flags`. A path under the bus
/// root, with a descriptor configured, is answered with that descriptor —
/// whatever the flags — after rewinding it (a rewind failure is diagnostic
/// only). Everything else delegates to the real primitive, forwarding a mode
/// argument exactly when the creation flag is set.
pub fn open(path: &Vec<u8>, flags: i32, ctx: &DeviceContext) -> (r: OpenAction)
    ensures
        match spec_redirect_target(path@, ctx.device_fd) {
            Some(f) => r matches OpenAction::Redirected { fd, repositioned: _ } && fd == f,
            None => r == (OpenAction::Delegated { with_mode: (flags & O_CREAT) != 0 }),
        },
{
    if crate::paths::starts_with(path, &crate::paths::bus_root()) {
        if let Some(fd) = ctx.device_fd {
            let repositioned = seek_to_start(fd);
            return OpenAction::Redirected { fd, repositioned };
        }
    }
    OpenAction::Delegated { with_mode: (flags & O_CREAT) != 0 }
}

/// The close hook's decision for `fd`: swallow the close of the configured
/// descriptor, delegate every other one.
pub fn close(fd: i32, ctx: &DeviceContext) -> (r: CloseAction)
    ensures
        r == spec_close_action(fd, ctx.device_fd),
{
    if let Some(dfd) = ctx.device_fd {
        if fd == dfd {
            return CloseAction::ReportSuccess;
        }
    }
    CloseAction::DelegateReal
}

/// With no configured descriptor, open and close both delegate to the real
/// primitive with the caller's own arguments, and the remapper leaves any
/// path outside the bus root untouched; a native directory handle likewise
/// always delegates its reads and its close (see `HookedDir`). Paths under
/// the bus root are the designed exception: `opendir` rewrites them even
/// without a context.
pub proof fn lemma_pass_through_without_context(path: Seq<u8>, fd: i32)
    ensures
        spec_redirect_target(path, None) is None,
        spec_close_action(fd, None) == CloseAction::DelegateReal,
        !is_under_bus_root(path) ==> crate::paths::spec_remap(path) == path,
{
}

/// An open of any path under the bus root — the configured device path in
/// particular — is answered with the configured descriptor whenever one is
/// configured; the decision does not read the flags.
pub proof fn lemma_open_redirects_device_path(path: Seq<u8>, f: i32)
    requires
        is_under_bus_root(path),
    ensures
        spec_redirect_target(path, Some(f)) == Some(f),
{
}

/// A close of the configured descriptor always reports success and asks for
/// no real call.
pub proof fn lemma_close_protects_device_fd(f: i32)
    ensures
        spec_close_action(f, Some(f)) == CloseAction::ReportSuccess,
{
}

/// A close of any other descriptor always delegates to the real primitive.
pub proof fn lemma_close_delegates_other_fds(fd: i32, device_fd: Option<i32>)
    requires
        device_fd != Some(fd),
    ensures
        spec_close_action(fd, device_fd) == CloseAction::DelegateReal,
{
}

} // verus!
