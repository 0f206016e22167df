//! Byte-level path logic: the fixed bus root and shadow root, prefix tests,
//! parent / file-name decomposition, and the remapping that `opendir` applies
//! before delegating to the real primitive.
//!
//! Paths are plain byte strings separated by `/` (byte 47); the logic here
//! does not normalise repeated or trailing separators.

use vstd::prelude::*;

verus! {

/// The canonical directory under which USB device nodes appear: `/dev/bus/usb`.
pub open spec fn spec_bus_root() -> Seq<u8> {
    seq![47u8, 100u8, 101u8, 118u8, 47u8, 98u8, 117u8, 115u8, 47u8, 117u8, 115u8, 98u8]
}

/// The alternate directory substituted for the bus root when enumeration is
/// delegated to the real filesystem: `./fakedev/bus/usb`.
pub open spec fn spec_shadow_root() -> Seq<u8> {
    seq![
        46u8, 47u8, 102u8, 97u8, 107u8, 101u8, 100u8, 101u8, 118u8, 47u8, 98u8, 117u8, 115u8,
        47u8, 117u8, 115u8, 98u8,
    ]
}

/// True when no byte of `s` is the terminator byte 0.
pub open spec fn no_nul(s: Seq<u8>) -> bool {
    forall|i: int| 0 <= i < s.len() ==> s[i] != 0
}

/// True when `p` begins with the byte sequence `pre`.
pub open spec fn is_prefix(pre: Seq<u8>, p: Seq<u8>) -> bool {
    pre.len() <= p.len() && p.subrange(0, pre.len() as int) == pre
}

/// True when `p` lies at or below the bus root, going by byte prefix alone.
pub open spec fn is_under_bus_root(p: Seq<u8>) -> bool {
    is_prefix(spec_bus_root(), p)
}

/// The index of the last `/` in `s`, if any.
pub open spec fn spec_last_slash(s: Seq<u8>) -> Option<int>
    decreases s.len(),
{
    if s.len() == 0 {
        None
    } else if s[s.len() - 1] == 47 {
        Some(s.len() - 1)
    } else {
        spec_last_slash(s.drop_last())
    }
}

/// What `spec_last_slash` finds is a `/`, and no later byte is one.
pub proof fn lemma_last_slash_props(s: Seq<u8>)
    ensures
        match spec_last_slash(s) {
            None => forall|j: int| 0 <= j < s.len() ==> s[j] != 47,
            Some(i) => 0 <= i < s.len() && s[i] == 47 && forall|j: int|
                i < j < s.len() ==> s[j] != 47,
        },
    decreases s.len(),
{
    if s.len() == 0 {
    } else if s[s.len() - 1] == 47 {
    } else {
        lemma_last_slash_props(s.drop_last());
        assert forall|j: int| 0 <= j < s.len() - 1 implies s.drop_last()[j] == s[j] by {}
    }
}

/// The directory containing `s`: the bytes before the last `/`, or `/` itself
/// when the last `/` is the leading byte; a path without a `/`, and the root
/// `/` alone, have no parent.
pub open spec fn spec_parent(s: Seq<u8>) -> Option<Seq<u8>> {
    match spec_last_slash(s) {
        None => None,
        Some(i) => if i == 0 {
            if s.len() > 1 {
                Some(seq![47u8])
            } else {
                None
            }
        } else {
            Some(s.subrange(0, i))
        },
    }
}

/// The final path segment of `s`: the bytes after the last `/`, or all of `s`
/// when it has none; empty inputs and inputs ending in `/` have no file name.
pub open spec fn spec_file_name(s: Seq<u8>) -> Option<Seq<u8>> {
    match spec_last_slash(s) {
        None => if s.len() > 0 {
            Some(s)
        } else {
            None
        },
        Some(i) => if i + 1 < s.len() {
            Some(s.subrange(i + 1, s.len() as int))
        } else {
            None
        },
    }
}

/// A parent is never empty, is strictly shorter than its child, and holds no
/// terminator byte when the child holds none.
pub proof fn lemma_parent_shorter(s: Seq<u8>)
    ensures
        match spec_parent(s) {
            None => true,
            Some(q) => 1 <= q.len() < s.len() && (no_nul(s) ==> no_nul(q)),
        },
{
    lemma_last_slash_props(s);
    match spec_parent(s) {
        None => {},
        Some(q) => {
            if no_nul(s) {
                assert forall|j: int| 0 <= j < q.len() implies q[j] != 0 by {}
            }
        },
    }
}

/// A file name is never empty, is no longer than the whole path, and holds no
/// terminator byte when the path holds none.
pub proof fn lemma_file_name_bytes(s: Seq<u8>)
    ensures
        match spec_file_name(s) {
            None => true,
            Some(q) => 1 <= q.len() <= s.len() && (no_nul(s) ==> no_nul(q)),
        },
{
    lemma_last_slash_props(s);
    match spec_file_name(s) {
        None => {},
        Some(q) => {
            if no_nul(s) {
                assert forall|j: int| 0 <= j < q.len() implies q[j] != 0 by {}
            }
        },
    }
}

/// The ancestors a device at path `p` is modeled under: `p`'s parent first,
/// then each parent's parent, stopping at the bus root (inclusive) or when no
/// parent is left.
pub open spec fn spec_chain(p: Seq<u8>) -> Seq<Seq<u8>>
    decreases p.len(),
    via spec_chain_decreases
{
    match spec_parent(p) {
        None => seq![],
        Some(par) => seq![par] + if par == spec_bus_root() {
            seq![]
        } else {
            spec_chain(par)
        },
    }
}

#[via_fn]
proof fn spec_chain_decreases(p: Seq<u8>) {
    lemma_parent_shorter(p);
}

/// The path `opendir` delegates to: a bus-root prefix is replaced by the
/// shadow root; any other path is left as it is.
pub open spec fn spec_remap(p: Seq<u8>) -> Seq<u8> {
    if is_under_bus_root(p) {
        spec_shadow_root() + p.skip(spec_bus_root().len() as int)
    } else {
        p
    }
}

/// The bus-root path as bytes.
pub fn bus_root() -> (r: Vec<u8>)
    ensures
        r@ == spec_bus_root(),
{
    let mut r: Vec<u8> = Vec::new();
    r.push(47u8);
    r.push(100u8);
    r.push(101u8);
    r.push(118u8);
    r.push(47u8);
    r.push(98u8);
    r.push(117u8);
    r.push(115u8);
    r.push(47u8);
    r.push(117u8);
    r.push(115u8);
    r.push(98u8);
    proof {
        assert(r@ =~= spec_bus_root());
    }
    r
}

/// The shadow-root path as bytes.
pub fn shadow_root() -> (r: Vec<u8>)
    ensures
        r@ == spec_shadow_root(),
{
    let mut r: Vec<u8> = Vec::new();
    r.push(46u8);
    r.push(47u8);
    r.push(102u8);
    r.push(97u8);
    r.push(107u8);
    r.push(101u8);
    r.push(100u8);
    r.push(101u8);
    r.push(118u8);
    r.push(47u8);
    r.push(98u8);
    r.push(117u8);
    r.push(115u8);
    r.push(47u8);
    r.push(117u8);
    r.push(115u8);
    r.push(98u8);
    proof {
        assert(r@ =~= spec_shadow_root());
    }
    r
}

/// A fresh copy of `v`.
pub fn copy_bytes(v: &Vec<u8>) -> (r: Vec<u8>)
    ensures
        r@ == v@,
{
    let mut r: Vec<u8> = Vec::new();
    let mut i: usize = 0;
    while i < v.len()
        invariant
            i <= v.len(),
            r@ == v@.subrange(0, i as int),
        decreases v.len() - i,
    {
        r.push(v[i]);
        proof {
            assert(r@ =~= v@.subrange(0, i + 1));
        }
        i = i + 1;
    }
    proof {
        assert(r@ =~= v@);
    }
    r
}

/// A fresh copy of `v[from..to]`.
pub fn copy_range(v: &Vec<u8>, from: usize, to: usize) -> (r: Vec<u8>)
    requires
        from <= to <= v@.len(),
    ensures
        r@ == v@.subrange(from as int, to as int),
{
    let mut r: Vec<u8> = Vec::new();
    let mut i: usize = from;
    while i < to
        invariant
            from <= i <= to <= v@.len(),
            r@ == v@.subrange(from as int, i as int),
        decreases to - i,
    {
        r.push(v[i]);
        proof {
            assert(r@ =~= v@.subrange(from as int, i + 1));
        }
        i = i + 1;
    }
    r
}

/// Whether `a` and `b` hold the same bytes.
pub fn bytes_eq(a: &Vec<u8>, b: &Vec<u8>) -> (r: bool)
    ensures
        r <==> a@ == b@,
{
    if a.len() != b.len() {
        return false;
    }
    let mut i: usize = 0;
    while i < a.len()
        invariant
            i <= a.len(),
            a@.len() == b@.len(),
            forall|k: int| 0 <= k < i ==> a@[k] == b@[k],
        decreases a.len() - i,
    {
        if a[i] != b[i] {
            return false;
        }
        i = i + 1;
    }
    proof {
        assert(a@ =~= b@);
    }
    true
}

/// Whether `p` begins with `pre`.
pub fn starts_with(p: &Vec<u8>, pre: &Vec<u8>) -> (r: bool)
    ensures
        r <==> is_prefix(pre@, p@),
{
    if pre.len() > p.len() {
        return false;
    }
    let mut i: usize = 0;
    while i < pre.len()
        invariant
            i <= pre.len() <= p@.len(),
            forall|k: int| 0 <= k < i ==> p@[k] == pre@[k],
        decreases pre.len() - i,
    {
        if p[i] != pre[i] {
            proof {
                assert(p@.subrange(0, pre@.len() as int)[i as int] == p@[i as int]);
            }
            return false;
        }
        i = i + 1;
    }
    proof {
        assert(p@.subrange(0, pre@.len() as int) =~= pre@);
    }
    true
}

/// The index of the last `/` in `p`, if any.
pub fn last_slash_index(p: &Vec<u8>) -> (r: Option<usize>)
    ensures
        match r {
            None => spec_last_slash(p@) is None,
            Some(i) => spec_last_slash(p@) == Some(i as int),
        },
{
    let mut j: usize = p.len();
    proof {
        assert(p@.take(p@.len() as int) =~= p@);
    }
    while j > 0
        invariant
            j <= p@.len(),
            spec_last_slash(p@) == spec_last_slash(p@.take(j as int)),
        decreases j,
    {
        j = j - 1;
        if p[j] == 47u8 {
            return Some(j);
        }
        proof {
            assert(p@.take(j + 1).drop_last() =~= p@.take(j as int));
        }
    }
    None
}

/// The parent directory of `p`, as `spec_parent` gives it.
pub fn parent_of(p: &Vec<u8>) -> (r: Option<Vec<u8>>)
    ensures
        match r {
            None => spec_parent(p@) is None,
            Some(q) => spec_parent(p@) == Some(q@),
        },
{
    match last_slash_index(p) {
        None => None,
        Some(i) => {
            if i == 0 {
                if p.len() > 1 {
                    let mut r: Vec<u8> = Vec::new();
                    r.push(47u8);
                    proof {
                        assert(r@ =~= seq![47u8]);
                    }
                    Some(r)
                } else {
                    None
                }
            } else {
                proof {
                    lemma_last_slash_props(p@);
                }
                Some(copy_range(p, 0, i))
            }
        },
    }
}

/// The final path segment of `p`, as `spec_file_name` gives it.
pub fn file_name_of(p: &Vec<u8>) -> (r: Option<Vec<u8>>)
    ensures
        match r {
            None => spec_file_name(p@) is None,
            Some(q) => spec_file_name(p@) == Some(q@),
        },
{
    match last_slash_index(p) {
        None => {
            if p.len() > 0 {
                Some(copy_bytes(p))
            } else {
                None
            }
        },
        Some(i) => {
            let n = p.len();
            proof {
                lemma_last_slash_props(p@);
                assert(i < n);
            }
            if i + 1 < n {
                Some(copy_range(p, i + 1, n))
            } else {
                None
            }
        },
    }
}

/// Rewrite `path` for delegation: a bus-root prefix becomes the shadow root;
/// anything else is returned unchanged.
pub fn remap_path(path: &Vec<u8>) -> (r: Vec<u8>)
    ensures
        r@ == spec_remap(path@),
{
    let root = bus_root();
    if starts_with(path, &root) {
        let mut out = shadow_root();
        let mut i: usize = root.len();
        while i < path.len()
            invariant
                spec_bus_root().len() <= i <= path@.len(),
                out@ == spec_shadow_root() + path@.subrange(spec_bus_root().len() as int, i as int),
            decreases path.len() - i,
        {
            out.push(path[i]);
            proof {
                assert(out@ =~= spec_shadow_root() + path@.subrange(
                    spec_bus_root().len() as int,
                    i + 1,
                ));
            }
            i = i + 1;
        }
        proof {
            assert(path@.subrange(spec_bus_root().len() as int, path@.len() as int) =~= path@.skip(
                spec_bus_root().len() as int,
            ));
        }
        out
    } else {
        copy_bytes(path)
    }
}

/// Any path below the bus root is delegated against the same path below the
/// shadow root; any other path is delegated unchanged.
pub proof fn lemma_remap_bus_paths(suffix: Seq<u8>, other: Seq<u8>)
    requires
        !is_under_bus_root(other),
    ensures
        spec_remap(spec_bus_root() + suffix) == spec_shadow_root() + suffix,
        spec_remap(other) == other,
{
    let p = spec_bus_root() + suffix;
    assert(p.subrange(0, spec_bus_root().len() as int) =~= spec_bus_root());
    assert(p.skip(spec_bus_root().len() as int) =~= suffix);
}

} // verus!
