//! The dual-mode directory handle: every directory hook works through a
//! tagged value that wraps either a real OS directory stream or a synthetic
//! one-entry stream with a cursor.

use vstd::prelude::*;
use crate::entry::SyntheticEntry;
use crate::entry::entry_eqv;

verus! {

/// Whether a stream at cursor `pos` still has its entry to yield.
pub open spec fn spec_yields(pos: i32) -> bool {
    pos == 0
}

/// The cursor after one read.
pub open spec fn spec_advance(pos: i32) -> i32 {
    if pos == 0 {
        1
    } else {
        pos
    }
}

/// The cursor after `n` reads.
pub open spec fn pos_after(pos: i32, n: nat) -> i32
    decreases n,
{
    if n == 0 {
        pos
    } else {
        spec_advance(pos_after(pos, (n - 1) as nat))
    }
}

/// A synthetic directory stream: one entry behind a cursor. The first read
/// yields the entry; every later read yields end-of-stream.
pub struct DirStream {
    pub pos: i32,
    pub entry: SyntheticEntry,
}

impl DirStream {
    /// A fresh stream positioned before its one entry.
    pub fn new(entry: SyntheticEntry) -> (r: Self)
        ensures
            r.pos == 0,
            r.entry == entry,
    {
        DirStream { pos: 0, entry }
    }

    /// Read one step: the entry on the first call, end-of-stream after.
    pub fn next(&mut self) -> (r: Option<SyntheticEntry>)
        ensures
            final(self).pos == spec_advance(old(self).pos),
            entry_eqv(final(self).entry, old(self).entry),
            old(self).pos == 0 ==> (r matches Some(e) && entry_eqv(e, old(self).entry)),
            old(self).pos != 0 ==> r is None,
    {
        if self.pos == 0 {
            self.pos = 1;
            Some(self.entry.duplicate())
        } else {
            None
        }
    }
}

/// On a fresh synthetic stream the first read yields the entry and every
/// later read yields end-of-stream: after any positive number of reads the
/// cursor sits at one and never yields again.
pub proof fn lemma_virtual_reads_once(n: nat)
    ensures
        spec_yields(pos_after(0, 0)),
        n >= 1 ==> pos_after(0, n) == 1 && !spec_yields(pos_after(0, n)),
    decreases n,
{
    if n > 1 {
        lemma_virtual_reads_once((n - 1) as nat);
    }
}

/// A directory handle as the hooks see it: either a real OS directory stream
/// of some opaque representation `N`, or a synthetic stream.
pub enum HookedDir<N> {
    Native(N),
    Virtual(DirStream),
}

/// What one read step asks of the caller: delegate to the real read primitive
/// on the native stream, hand back a synthetic entry, or report end-of-stream.
pub enum ReadStep<N> {
    Delegate(N),
    Synthetic(SyntheticEntry),
    EndOfStream,
}

/// What closing a handle asks of the caller: delegate to the real close
/// primitive on the native stream, or nothing more — the synthetic stream's
/// resources are already released and the close reports success.
pub enum CloseStep<N> {
    DelegateClose(N),
    VirtualClosed,
}

impl<N: Copy> HookedDir<N> {
    /// One read on the handle: a native handle always delegates unchanged; a
    /// virtual handle yields its entry on the first read and end-of-stream on
    /// every later one.
    pub fn read_step(self) -> (r: (Self, ReadStep<N>))
        ensures
            match self {
                HookedDir::Native(n) => r.0 == self && r.1 == ReadStep::<N>::Delegate(n),
                HookedDir::Virtual(s) => {
                    &&& r.0 matches HookedDir::Virtual(s2) && s2.pos == spec_advance(s.pos)
                        && entry_eqv(s2.entry, s.entry)
                    &&& s.pos == 0 ==> (r.1 matches ReadStep::Synthetic(e) && entry_eqv(
                        e,
                        s.entry,
                    ))
                    &&& s.pos != 0 ==> r.1 is EndOfStream
                },
            },
    {
        match self {
            HookedDir::Native(n) => (HookedDir::Native(n), ReadStep::Delegate(n)),
            HookedDir::Virtual(mut s) => {
                let step = match s.next() {
                    Some(e) => ReadStep::Synthetic(e),
                    None => ReadStep::EndOfStream,
                };
                (HookedDir::Virtual(s), step)
            },
        }
    }

    /// Close the handle, releasing it: a native handle asks for the real
    /// close primitive; a virtual handle is done and reports success.
    pub fn close_step(self) -> (r: CloseStep<N>)
        ensures
            match self {
                HookedDir::Native(n) => r == CloseStep::<N>::DelegateClose(n),
                HookedDir::Virtual(_) => r is VirtualClosed,
            },
    {
        match self {
            HookedDir::Native(n) => CloseStep::DelegateClose(n),
            HookedDir::Virtual(_) => CloseStep::VirtualClosed,
        }
    }
}

} // verus!
