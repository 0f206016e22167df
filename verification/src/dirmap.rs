//! The synthetic directory map: built once from the device context, it maps
//! each ancestor directory of the device path — up to and including the bus
//! root — to the one synthetic entry describing that directory's sole modeled
//! child.

use vstd::prelude::*;
use crate::context::DeviceContext;
use crate::entry::EntryKind;
use crate::entry::NAME_BUF_LEN;
use crate::entry::SyntheticEntry;
use crate::entry::entry_describes;
use crate::entry::entry_eqv;
use crate::entry::lemma_encodes_name_unique;
use crate::handle::DirStream;
use crate::paths::bus_root;
use crate::paths::bytes_eq;
use crate::paths::copy_bytes;
use crate::paths::file_name_of;
use crate::paths::lemma_file_name_bytes;
use crate::paths::lemma_parent_shorter;
use crate::paths::no_nul;
use crate::paths::parent_of;
use crate::paths::spec_bus_root;
use crate::paths::spec_chain;
use crate::paths::spec_file_name;

verus! {

/// The key of each stored pair, in insertion order.
pub open spec fn keys_of(s: Seq<(Vec<u8>, SyntheticEntry)>) -> Seq<Seq<u8>> {
    s.map_values(|kv: (Vec<u8>, SyntheticEntry)| kv.0@)
}

/// The synthetic directory map: one `(ancestor path, entry)` pair per
/// ancestor of the device path, from the device's parent up to the bus root.
/// Built once and read-only afterward.
pub struct SyntheticDirectoryMap {
    pub entries: Vec<(Vec<u8>, SyntheticEntry)>,
}

impl SyntheticDirectoryMap {
    /// The stored keys, in insertion order.
    pub open spec fn key_seq(self) -> Seq<Seq<u8>> {
        keys_of(self.entries@)
    }

    /// The entry stored at position `k`.
    pub open spec fn entry_at(self, k: int) -> SyntheticEntry {
        self.entries@[k].1
    }

    /// No two stored keys are the same path.
    pub open spec fn wf(self) -> bool {
        forall|i: int, j: int| 0 <= i < j < self.key_seq().len()
            ==> self.key_seq()[i] != self.key_seq()[j]
    }

    /// What a map built for device path `p` holds: no entries when `p` has no
    /// file name; otherwise one entry per ancestor in `spec_chain(p)`, in
    /// order — the device's parent holding a char-device entry named after
    /// the device, and every higher ancestor holding a directory entry named
    /// after the full path of the ancestor below it. Entry identities are
    /// left open: they are random.
    pub open spec fn models(self, p: Seq<u8>) -> bool {
        match spec_file_name(p) {
            None => self.key_seq().len() == 0,
            Some(nm) => {
                &&& self.key_seq() == spec_chain(p)
                &&& forall|k: int| 0 <= k < self.key_seq().len() ==> entry_describes(
                    #[trigger] self.entry_at(k),
                    if k == 0 {
                        nm
                    } else {
                        self.key_seq()[k - 1]
                    },
                    if k == 0 {
                        EntryKind::CharDevice
                    } else {
                        EntryKind::Directory
                    },
                )
            },
        }
    }

    /// Build the map for the given context: walk the device path upward,
    /// recording at each ancestor the entry for its child, and stop at the
    /// bus root (inclusive) or when no parent is left. Without a device path,
    /// or with one that has no file name, the map is empty and every lookup
    /// passes through.
    pub fn build(ctx: &DeviceContext) -> (m: Self)
        requires
            ctx.path_wf(),
        ensures
            m.wf(),
            match ctx.device_path {
                None => m.key_seq().len() == 0,
                Some(p) => m.models(p@),
            },
    {
        let mut entries: Vec<(Vec<u8>, SyntheticEntry)> = Vec::new();
        match &ctx.device_path {
            None => {},
            Some(path) => {
                match file_name_of(path) {
                    None => {},
                    Some(nm) => {
                        proof {
                            lemma_file_name_bytes(path@);
                        }
                        let mut last = SyntheticEntry::new(0, EntryKind::CharDevice, &nm);
                        let mut cur: Vec<u8> = copy_bytes(path);
                        let root = bus_root();
                        proof {
                            assert(spec_chain(path@).take(0) =~= keys_of(entries@));
                            assert(spec_chain(path@) =~= keys_of(entries@) + spec_chain(cur@));
                        }
                        loop
                            invariant_except_break
                                spec_chain(path@) == keys_of(entries@) + spec_chain(cur@),
                            invariant
                                spec_file_name(path@) == Some(nm@),
                                path@.len() < NAME_BUF_LEN,
                                no_nul(path@),
                                nm@.len() < NAME_BUF_LEN,
                                no_nul(nm@),
                                1 <= cur@.len() < NAME_BUF_LEN,
                                no_nul(cur@),
                                root@ == spec_bus_root(),
                                entries@.len() <= spec_chain(path@).len(),
                                keys_of(entries@) == spec_chain(path@).take(entries@.len() as int),
                                entries@.len() == 0 ==> cur@ == path@,
                                entries@.len() > 0 ==> cur@ == spec_chain(path@)[entries@.len() - 1],
                                forall|k: int| 0 <= k < entries@.len() ==> entry_describes(
                                    #[trigger] entries@[k].1,
                                    if k == 0 {
                                        nm@
                                    } else {
                                        spec_chain(path@)[k - 1]
                                    },
                                    if k == 0 {
                                        EntryKind::CharDevice
                                    } else {
                                        EntryKind::Directory
                                    },
                                ),
                                entry_describes(
                                    last,
                                    if entries@.len() == 0 {
                                        nm@
                                    } else {
                                        spec_chain(path@)[entries@.len() - 1]
                                    },
                                    if entries@.len() == 0 {
                                        EntryKind::CharDevice
                                    } else {
                                        EntryKind::Directory
                                    },
                                ),
                                forall|i: int, j: int| 0 <= i < j < entries@.len()
                                    ==> keys_of(entries@)[i].len() > keys_of(entries@)[j].len(),
                            ensures
                                keys_of(entries@) == spec_chain(path@),
                                forall|k: int| 0 <= k < entries@.len() ==> entry_describes(
                                    #[trigger] entries@[k].1,
                                    if k == 0 {
                                        nm@
                                    } else {
                                        spec_chain(path@)[k - 1]
                                    },
                                    if k == 0 {
                                        EntryKind::CharDevice
                                    } else {
                                        EntryKind::Directory
                                    },
                                ),
                                forall|i: int, j: int| 0 <= i < j < entries@.len()
                                    ==> keys_of(entries@)[i].len() > keys_of(entries@)[j].len(),
                            decreases cur@.len(),
                        {
                            match parent_of(&cur) {
                                None => {
                                    proof {
                                        assert(spec_chain(cur@) =~= Seq::<Seq<u8>>::empty());
                                        assert(keys_of(entries@) =~= spec_chain(path@));
                                    }
                                    break;
                                },
                                Some(par) => {
                                    proof {
                                        lemma_parent_shorter(cur@);
                                        assert(spec_chain(cur@)[0] == par@);
                                        assert(spec_chain(path@)[entries@.len() as int] == par@);
                                    }
                                    let ghost old_entries = entries@;
                                    let key = copy_bytes(&par);
                                    entries.push((key, last));
                                    last = SyntheticEntry::new(0, EntryKind::Directory, &par);
                                    let stop = bytes_eq(&par, &root);
                                    proof {
                                        assert(keys_of(entries@) =~= keys_of(old_entries).push(
                                            par@,
                                        ));
                                        assert(keys_of(entries@) =~= spec_chain(path@).take(
                                            entries@.len() as int,
                                        ));
                                        if par@ == spec_bus_root() {
                                            assert(spec_chain(cur@) =~= seq![par@]);
                                            assert(keys_of(entries@) =~= spec_chain(path@));
                                        } else {
                                            assert(spec_chain(path@) =~= keys_of(entries@)
                                                + spec_chain(par@));
                                        }
                                    }
                                    cur = par;
                                    if stop {
                                        break;
                                    }
                                },
                            }
                        }
                    },
                }
            },
        }
        let m = SyntheticDirectoryMap { entries };
        proof {
            assert forall|i: int, j: int| 0 <= i < j < m.key_seq().len() implies m.key_seq()[i]
                != m.key_seq()[j] by {
                assert(m.key_seq()[i].len() > m.key_seq()[j].len());
            }
        }
        m
    }

    /// Look the directory `path` up: a fresh synthetic stream over the stored
    /// entry when `path` is one of the modeled ancestors, and nothing
    /// otherwise.
    pub fn open_stream(&self, path: &Vec<u8>) -> (r: Option<DirStream>)
        ensures
            match r {
                Some(s) => s.pos == 0 && exists|k: int|
                    0 <= k < self.key_seq().len() && self.key_seq()[k] == path@ && entry_eqv(
                        s.entry,
                        self.entry_at(k),
                    ),
                None => forall|k: int| 0 <= k < self.key_seq().len()
                    ==> self.key_seq()[k] != path@,
            },
    {
        let mut k: usize = 0;
        while k < self.entries.len()
            invariant
                k <= self.entries@.len(),
                forall|j: int| 0 <= j < k ==> keys_of(self.entries@)[j] != path@,
            decreases self.entries@.len() - k,
        {
            let kv = &self.entries[k];
            if bytes_eq(&kv.0, path) {
                let s = DirStream::new(kv.1.duplicate());
                proof {
                    assert(0 <= k < self.key_seq().len() && self.key_seq()[k as int] == path@
                        && entry_eqv(s.entry, self.entry_at(k as int)));
                }
                return Some(s);
            }
            k = k + 1;
        }
        None
    }
}

/// Construction is deterministic up to the random identities: any two maps
/// built for the same device path hold the same keys in the same order, and
/// entries that agree on kind, offset and name, byte for byte.
pub proof fn lemma_build_deterministic(
    m1: SyntheticDirectoryMap,
    m2: SyntheticDirectoryMap,
    p: Seq<u8>,
)
    requires
        m1.models(p),
        m2.models(p),
    ensures
        m1.key_seq() == m2.key_seq(),
        forall|k: int| 0 <= k < m1.key_seq().len() ==> {
            &&& #[trigger] m1.entry_at(k).kind == m2.entry_at(k).kind
            &&& m1.entry_at(k).offset == m2.entry_at(k).offset
            &&& m1.entry_at(k).name@ == m2.entry_at(k).name@
        },
{
    match spec_file_name(p) {
        None => {
            assert(m1.key_seq() =~= m2.key_seq());
        },
        Some(nm) => {
            assert forall|k: int| 0 <= k < m1.key_seq().len() implies {
                &&& #[trigger] m1.entry_at(k).kind == m2.entry_at(k).kind
                &&& m1.entry_at(k).offset == m2.entry_at(k).offset
                &&& m1.entry_at(k).name@ == m2.entry_at(k).name@
            } by {
                let nmk = if k == 0 {
                    nm
                } else {
                    m1.key_seq()[k - 1]
                };
                lemma_encodes_name_unique(m1.entry_at(k).name@, m2.entry_at(k).name@, nmk);
            }
        },
    }
}

} // verus!
