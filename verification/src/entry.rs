//! Synthetic directory entries: fabricated records that stand in for a real
//! directory listing, one per modeled child.

use vstd::prelude::*;
use crate::paths::no_nul;

verus! {

/// The size of the fixed name buffer of a directory entry.
pub const NAME_BUF_LEN: usize = 256;

/// True when `buf` is a full-size name buffer holding exactly `n` followed by
/// terminating zeroes.
pub open spec fn encodes_name(buf: Seq<u8>, n: Seq<u8>) -> bool {
    &&& buf.len() == NAME_BUF_LEN
    &&& n.len() < NAME_BUF_LEN
    &&& no_nul(n)
    &&& forall|i: int| 0 <= i < n.len() ==> buf[i] == n[i]
    &&& forall|i: int| n.len() <= i < NAME_BUF_LEN ==> buf[i] == 0
}

/// A buffer encodes at most one name.
pub proof fn lemma_encodes_name_unique(b1: Seq<u8>, b2: Seq<u8>, n: Seq<u8>)
    requires
        encodes_name(b1, n),
        encodes_name(b2, n),
    ensures
        b1 == b2,
{
    assert(b1 =~= b2);
}

/// The type tag of a synthetic entry: the one device node is a character
/// device, every ancestor is a directory.
#[derive(Clone, Copy, PartialEq, Eq, Structural)]
pub enum EntryKind {
    CharDevice,
    Directory,
}

/// A fabricated directory-entry record: an identity number with no persistent
/// meaning, a stream offset, a type tag, and a zero-terminated name held in a
/// fixed-size buffer.
pub struct SyntheticEntry {
    pub identity: u64,
    pub offset: i64,
    pub kind: EntryKind,
    pub name: Vec<u8>,
}

/// Whether `a` and `b` agree on every field, byte for byte.
pub open spec fn entry_eqv(a: SyntheticEntry, b: SyntheticEntry) -> bool {
    &&& a.identity == b.identity
    &&& a.offset == b.offset
    &&& a.kind == b.kind
    &&& a.name@ == b.name@
}

/// Whether `e` records a child named `name` of kind `kind`, at offset zero.
pub open spec fn entry_describes(e: SyntheticEntry, name: Seq<u8>, kind: EntryKind) -> bool {
    &&& e.offset == 0
    &&& e.kind == kind
    &&& encodes_name(e.name@, name)
}

/// Relies on rand::random: a fresh pseudo-random value each call; nothing is
/// promised of it.
#[verifier::external_body]
fn random_identity() -> u64 {
    rand::random::<u64>()
}

impl SyntheticEntry {
    /// Write `name` and a terminating zero into the name buffer, leaving the
    /// bytes beyond the terminator as they were.
    pub fn set_name(&mut self, name: &Vec<u8>)
        requires
            name@.len() < NAME_BUF_LEN,
            old(self).name@.len() == NAME_BUF_LEN,
        ensures
            final(self).identity == old(self).identity,
            final(self).offset == old(self).offset,
            final(self).kind == old(self).kind,
            final(self).name@.len() == NAME_BUF_LEN,
            forall|i: int| 0 <= i < name@.len() ==> final(self).name@[i] == name@[i],
            final(self).name@[name@.len() as int] == 0,
            forall|i: int|
                name@.len() < i < NAME_BUF_LEN ==> final(self).name@[i] == old(self).name@[i],
    {
        let mut i: usize = 0;
        while i < name.len()
            invariant
                i <= name@.len() < NAME_BUF_LEN,
                self.name@.len() == NAME_BUF_LEN,
                self.identity == old(self).identity,
                self.offset == old(self).offset,
                self.kind == old(self).kind,
                forall|k: int| 0 <= k < i ==> self.name@[k] == name@[k],
                forall|k: int| i <= k < NAME_BUF_LEN ==> self.name@[k] == old(self).name@[k],
            decreases name@.len() - i,
        {
            let b = name[i];
            self.name[i] = b;
            i = i + 1;
        }
        self.name[i] = 0u8;
    }

    /// Build a fresh entry for a child named `name` of kind `kind`: a random
    /// identity, the given offset, and the name zero-terminated in a
    /// full-size buffer.
    pub fn new(offset: i64, kind: EntryKind, name: &Vec<u8>) -> (r: Self)
        requires
            name@.len() < NAME_BUF_LEN,
            no_nul(name@),
        ensures
            r.offset == offset,
            r.kind == kind,
            encodes_name(r.name@, name@),
    {
        let identity = random_identity();
        let mut buf: Vec<u8> = Vec::new();
        let mut i: usize = 0;
        while i < NAME_BUF_LEN
            invariant
                i <= NAME_BUF_LEN,
                buf@.len() == i,
                forall|k: int| 0 <= k < i ==> buf@[k] == 0,
            decreases NAME_BUF_LEN - i,
        {
            buf.push(0u8);
            i = i + 1;
        }
        let mut r = SyntheticEntry { identity, offset, kind, name: buf };
        r.set_name(name);
        r
    }

    /// A fresh entry holding the same fields, byte for byte.
    pub fn duplicate(&self) -> (r: Self)
        ensures
            entry_eqv(r, *self),
    {
        SyntheticEntry {
            identity: self.identity,
            offset: self.offset,
            kind: self.kind,
            name: crate::paths::copy_bytes(&self.name),
        }
    }
}

} // verus!
