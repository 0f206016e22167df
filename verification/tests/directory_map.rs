use adb_hooks::context::DeviceContext;
use adb_hooks::dirmap::SyntheticDirectoryMap;
use adb_hooks::entry::EntryKind;
use adb_hooks::entry::SyntheticEntry;
use adb_hooks::handle::CloseStep;
use adb_hooks::handle::DirStream;
use adb_hooks::handle::HookedDir;
use adb_hooks::handle::ReadStep;

fn ctx_for(path: &[u8]) -> DeviceContext {
    DeviceContext::new(Some(path.to_vec()), None)
}

fn name_bytes(e: &SyntheticEntry) -> Vec<u8> {
    let mut v = Vec::new();
    for &b in e.name.iter() {
        if b == 0 {
            break;
        }
        v.push(b);
    }
    v
}

#[test]
fn map_covers_each_ancestor_up_to_bus_root() {
    let m = SyntheticDirectoryMap::build(&ctx_for(b"/dev/bus/usb/001/002"));
    assert_eq!(m.entries.len(), 2);

    assert_eq!(m.entries[0].0, b"/dev/bus/usb/001".to_vec());
    assert!(m.entries[0].1.kind == EntryKind::CharDevice);
    assert_eq!(name_bytes(&m.entries[0].1), b"002".to_vec());
    assert_eq!(m.entries[0].1.offset, 0);
    assert_eq!(m.entries[0].1.name.len(), 256);

    assert_eq!(m.entries[1].0, b"/dev/bus/usb".to_vec());
    assert!(m.entries[1].1.kind == EntryKind::Directory);
    assert_eq!(name_bytes(&m.entries[1].1), b"/dev/bus/usb/001".to_vec());
    assert_eq!(m.entries[1].1.offset, 0);
}

#[test]
fn map_walks_to_filesystem_root_outside_bus_root() {
    let m = SyntheticDirectoryMap::build(&ctx_for(b"/a/b"));
    assert_eq!(m.entries.len(), 2);
    assert_eq!(m.entries[0].0, b"/a".to_vec());
    assert!(m.entries[0].1.kind == EntryKind::CharDevice);
    assert_eq!(name_bytes(&m.entries[0].1), b"b".to_vec());
    assert_eq!(m.entries[1].0, b"/".to_vec());
    assert!(m.entries[1].1.kind == EntryKind::Directory);
    assert_eq!(name_bytes(&m.entries[1].1), b"/a".to_vec());
}

#[test]
fn map_is_empty_without_context() {
    let m = SyntheticDirectoryMap::build(&DeviceContext::absent());
    assert_eq!(m.entries.len(), 0);
}

#[test]
fn map_is_empty_without_file_name() {
    let m = SyntheticDirectoryMap::build(&ctx_for(b"/"));
    assert_eq!(m.entries.len(), 0);
    let m = SyntheticDirectoryMap::build(&ctx_for(b""));
    assert_eq!(m.entries.len(), 0);
    let m = SyntheticDirectoryMap::build(&ctx_for(b"/dev/bus/usb/001/"));
    assert_eq!(m.entries.len(), 0);
}

#[test]
fn rebuilding_differs_only_in_identities() {
    let ctx = ctx_for(b"/dev/bus/usb/001/002");
    let m1 = SyntheticDirectoryMap::build(&ctx);
    let m2 = SyntheticDirectoryMap::build(&ctx);
    assert_eq!(m1.entries.len(), m2.entries.len());
    for k in 0..m1.entries.len() {
        assert_eq!(m1.entries[k].0, m2.entries[k].0);
        assert!(m1.entries[k].1.kind == m2.entries[k].1.kind);
        assert_eq!(m1.entries[k].1.offset, m2.entries[k].1.offset);
        assert_eq!(m1.entries[k].1.name, m2.entries[k].1.name);
    }
}

#[test]
fn virtual_stream_yields_once_then_end_of_stream() {
    let m = SyntheticDirectoryMap::build(&ctx_for(b"/dev/bus/usb/001/002"));
    let mut s = m.open_stream(&b"/dev/bus/usb/001".to_vec()).unwrap();
    assert_eq!(s.pos, 0);
    let first = s.next().unwrap();
    assert_eq!(name_bytes(&first), b"002".to_vec());
    assert!(first.kind == EntryKind::CharDevice);
    assert_eq!(s.pos, 1);
    assert!(s.next().is_none());
    assert!(s.next().is_none());
}

#[test]
fn open_stream_misses_unmodeled_paths() {
    let m = SyntheticDirectoryMap::build(&ctx_for(b"/dev/bus/usb/001/002"));
    assert!(m.open_stream(&b"/dev/bus/usb/999".to_vec()).is_none());
    assert!(m.open_stream(&b"/dev/bus/usb/001/002".to_vec()).is_none());
    assert!(m.open_stream(&b"/tmp".to_vec()).is_none());
}

#[test]
fn native_handle_delegates_reads_and_close() {
    let h = HookedDir::<i32>::Native(42);
    let (h2, step) = h.read_step();
    assert!(matches!(step, ReadStep::Delegate(42)));
    assert!(matches!(h2, HookedDir::Native(42)));
    assert!(matches!(h2.close_step(), CloseStep::DelegateClose(42)));
}

#[test]
fn virtual_handle_reads_once_and_closes_silently() {
    let m = SyntheticDirectoryMap::build(&ctx_for(b"/dev/bus/usb/001/002"));
    let s = m.open_stream(&b"/dev/bus/usb".to_vec()).unwrap();
    let h = HookedDir::<i32>::Virtual(s);
    let (h, step) = h.read_step();
    match step {
        ReadStep::Synthetic(e) => {
            assert_eq!(name_bytes(&e), b"/dev/bus/usb/001".to_vec());
            assert!(e.kind == EntryKind::Directory);
        },
        _ => panic!("expected the synthetic entry on the first read"),
    }
    let (h, step) = h.read_step();
    assert!(matches!(step, ReadStep::EndOfStream));
    assert!(matches!(h.close_step(), CloseStep::VirtualClosed));
}

#[test]
fn new_entry_is_zero_terminated_in_full_buffer() {
    let e = SyntheticEntry::new(0, EntryKind::CharDevice, &b"002".to_vec());
    assert_eq!(e.name.len(), 256);
    assert_eq!(&e.name[0..3], &b"002"[..]);
    assert_eq!(e.name[3], 0);
    assert!(e.name[4..].iter().all(|&b| b == 0));
    assert_eq!(e.offset, 0);
    assert!(e.kind == EntryKind::CharDevice);
}

#[test]
fn set_name_rewrites_only_through_its_terminator() {
    let mut e = SyntheticEntry::new(0, EntryKind::Directory, &b"longer".to_vec());
    e.set_name(&b"ab".to_vec());
    assert_eq!(&e.name[0..2], &b"ab"[..]);
    assert_eq!(e.name[2], 0);
    assert_eq!(&e.name[3..6], &b"ger"[..]);
    assert_eq!(e.name[6], 0);
}

#[test]
fn duplicate_copies_every_field() {
    let e = SyntheticEntry::new(0, EntryKind::CharDevice, &b"002".to_vec());
    let d = e.duplicate();
    assert_eq!(d.identity, e.identity);
    assert_eq!(d.offset, e.offset);
    assert!(d.kind == e.kind);
    assert_eq!(d.name, e.name);
}

#[test]
fn fresh_stream_starts_before_its_entry() {
    let e = SyntheticEntry::new(0, EntryKind::CharDevice, &b"002".to_vec());
    let s = DirStream::new(e);
    assert_eq!(s.pos, 0);
}
