use adb_hooks::context::DeviceContext;
use adb_hooks::hooks::close;
use adb_hooks::hooks::open;
use adb_hooks::hooks::CloseAction;
use adb_hooks::hooks::OpenAction;
use adb_hooks::hooks::O_CREAT;
use adb_hooks::paths::remap_path;

fn ctx_with(path: Option<&[u8]>, fd: Option<i32>) -> DeviceContext {
    DeviceContext::new(path.map(|p| p.to_vec()), fd)
}

#[test]
fn open_returns_configured_fd_on_device_path() {
    let ctx = ctx_with(Some(b"/dev/bus/usb/001/002"), Some(999999));
    let path = b"/dev/bus/usb/001/002".to_vec();
    for flags in [0, 2, O_CREAT, O_CREAT | 2] {
        let r = open(&path, flags, &ctx);
        assert!(matches!(r, OpenAction::Redirected { fd: 999999, .. }));
    }
}

#[test]
fn open_redirects_any_path_under_bus_root() {
    let ctx = ctx_with(None, Some(999999));
    let r = open(&b"/dev/bus/usb/003".to_vec(), 0, &ctx);
    assert!(matches!(r, OpenAction::Redirected { fd: 999999, .. }));
    let r = open(&b"/dev/bus/usb".to_vec(), 0, &ctx);
    assert!(matches!(r, OpenAction::Redirected { fd: 999999, .. }));
}

#[test]
fn open_delegates_without_context() {
    let ctx = DeviceContext::absent();
    let r = open(&b"/dev/bus/usb/001/002".to_vec(), 0, &ctx);
    assert!(matches!(r, OpenAction::Delegated { with_mode: false }));
    let r = open(&b"/dev/bus/usb/001/002".to_vec(), O_CREAT, &ctx);
    assert!(matches!(r, OpenAction::Delegated { with_mode: true }));
}

#[test]
fn open_delegates_outside_bus_root() {
    let ctx = ctx_with(Some(b"/dev/bus/usb/001/002"), Some(7));
    let r = open(&b"/tmp/somewhere".to_vec(), 0, &ctx);
    assert!(matches!(r, OpenAction::Delegated { with_mode: false }));
    let r = open(&b"/dev/bus/us".to_vec(), O_CREAT, &ctx);
    assert!(matches!(r, OpenAction::Delegated { with_mode: true }));
}

#[test]
fn close_protects_configured_fd() {
    let ctx = ctx_with(None, Some(5));
    assert!(close(5, &ctx) == CloseAction::ReportSuccess);
}

#[test]
fn close_delegates_other_fds() {
    let ctx = ctx_with(None, Some(5));
    assert!(close(4, &ctx) == CloseAction::DelegateReal);
    assert!(close(6, &ctx) == CloseAction::DelegateReal);
}

#[test]
fn close_delegates_without_context() {
    let ctx = DeviceContext::absent();
    assert!(close(5, &ctx) == CloseAction::DelegateReal);
}

#[test]
fn opendir_remaps_bus_paths() {
    let r = remap_path(&b"/dev/bus/usb/001".to_vec());
    assert_eq!(r, b"./fakedev/bus/usb/001".to_vec());
    let r = remap_path(&b"/dev/bus/usb".to_vec());
    assert_eq!(r, b"./fakedev/bus/usb".to_vec());
}

#[test]
fn remap_leaves_other_paths_unchanged() {
    let r = remap_path(&b"/proc/self/fd".to_vec());
    assert_eq!(r, b"/proc/self/fd".to_vec());
    let r = remap_path(&b"/dev/bus/us".to_vec());
    assert_eq!(r, b"/dev/bus/us".to_vec());
    let r = remap_path(&b"".to_vec());
    assert_eq!(r, b"".to_vec());
}
