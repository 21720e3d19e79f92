//! Small verified helpers on byte vectors.
//!
//! All names, paths and document text in this crate are byte sequences, so
//! equality, copying and concatenation of byte vectors are needed everywhere.

use vstd::prelude::*;

verus! {

/// Compares two byte vectors element by element.
pub fn bytes_eq(a: &Vec<u8>, b: &Vec<u8>) -> (r: bool)
    ensures
        r == (a@ == b@),
{
    if a.len() != b.len() {
        assert(a@.len() != b@.len());
        return false;
    }
    let mut i: usize = 0;
    while i < a.len()
        invariant
            0 <= i <= a.len(),
            a.len() == b.len(),
            forall|j: int| 0 <= j < i ==> a@[j] == b@[j],
        decreases a.len() - i,
    {
        if a[i] != b[i] {
            return false;
        }
        i += 1;
    }
    assert(a@ =~= b@);
    true
}

/// Copies a byte vector.
pub fn copy_bytes(a: &Vec<u8>) -> (r: Vec<u8>)
    ensures
        r@ == a@,
{
    let r = a.clone();
    assert(r@ =~= a@);
    r
}

/// Appends a copy of `src` to `dst`.
pub fn push_bytes(dst: &mut Vec<u8>, src: &Vec<u8>)
    ensures
        final(dst)@ == old(dst)@ + src@,
{
    let mut i: usize = 0;
    while i < src.len()
        invariant
            0 <= i <= src.len(),
            dst@ == old(dst)@ + src@.take(i as int),
        decreases src.len() - i,
    {
        dst.push(src[i]);
        assert(old(dst)@ + src@.take(i as int) + seq![src@[i as int]] =~= old(dst)@ + src@.take(
            i as int + 1,
        ));
        i += 1;
    }
    assert(old(dst)@ + src@.take(src@.len() as int) =~= old(dst)@ + src@);
}

/// True when `b` occurs in `s`.
pub open spec fn contains_byte(s: Seq<u8>, b: u8) -> bool {
    exists|i: int| 0 <= i < s.len() && s[i] == b
}

/// Copies the bytes of `a` between `from` (inclusive) and `to` (exclusive).
pub fn subrange_vec(a: &Vec<u8>, from: usize, to: usize) -> (r: Vec<u8>)
    requires
        0 <= from <= to <= a@.len(),
    ensures
        r@ == a@.subrange(from as int, to as int),
{
    let mut r: Vec<u8> = Vec::new();
    let mut i: usize = from;
    while i < to
        invariant
            from <= i <= to <= a@.len(),
            r@ == a@.subrange(from as int, i as int),
        decreases to - i,
    {
        r.push(a[i]);
        assert(a@.subrange(from as int, i as int) + seq![a@[i as int]] =~= a@.subrange(
            from as int,
            i as int + 1,
        ));
        i += 1;
    }
    r
}

/// The suffix of `path` after its last separator byte; the whole of `path`
/// when no separator occurs in it.
pub open spec fn last_component_spec(path: Seq<u8>, sep: u8) -> Seq<u8>
    decreases path.len(),
{
    if path.len() == 0 {
        path
    } else if path[path.len() - 1] == sep {
        Seq::empty()
    } else {
        last_component_spec(path.take(path.len() - 1), sep) + seq![path[path.len() - 1]]
    }
}

/// Returns the part of `path` after its last occurrence of `sep`.
pub fn last_component(path: &Vec<u8>, sep: u8) -> (r: Vec<u8>)
    ensures
        r@ == last_component_spec(path@, sep),
{
    let mut start: usize = path.len();
    while start > 0
        invariant_except_break
            0 <= start <= path.len(),
            forall|j: int| start <= j < path.len() ==> path@[j] != sep,
        ensures
            0 <= start <= path.len(),
            forall|j: int| start <= j < path.len() ==> path@[j] != sep,
            start > 0 ==> path@[start - 1] == sep,
        decreases start,
    {
        if path[start - 1] == sep {
            break;
        }
        start -= 1;
    }
    let mut r: Vec<u8> = Vec::new();
    let mut i: usize = start;
    while i < path.len()
        invariant
            start <= i <= path.len(),
            r@ == path@.subrange(start as int, i as int),
        decreases path.len() - i,
    {
        r.push(path[i]);
        assert(path@.subrange(start as int, i as int) + seq![path@[i as int]] =~= path@.subrange(
            start as int,
            i as int + 1,
        ));
        i += 1;
    }
    proof {
        lemma_last_component_suffix(path@, sep, start as int);
    }
    r
}

/// When every byte of `path` from `start` on differs from `sep`, and either
/// `start` is zero or the byte just before it is `sep`, the last component of
/// `path` is exactly the suffix that begins at `start`.
proof fn lemma_last_component_suffix(path: Seq<u8>, sep: u8, start: int)
    requires
        0 <= start <= path.len(),
        forall|j: int| start <= j < path.len() ==> path[j] != sep,
        start > 0 ==> path[start - 1] == sep,
    ensures
        last_component_spec(path, sep) == path.subrange(start, path.len() as int),
    decreases path.len(),
{
    if path.len() == 0 {
        assert(last_component_spec(path, sep) =~= path.subrange(start, path.len() as int));
    } else if path[path.len() - 1] == sep {
        assert(start == path.len());
        assert(last_component_spec(path, sep) =~= path.subrange(start, path.len() as int));
    } else {
        assert(start < path.len());
        let shorter = path.take(path.len() - 1);
        if start == path.len() {
        } else {
            lemma_last_component_suffix(shorter, sep, start);
            assert(last_component_spec(path, sep) == shorter.subrange(start, shorter.len() as int)
                + seq![path[path.len() - 1]]);
            assert(shorter.subrange(start, shorter.len() as int) + seq![path[path.len() - 1]]
                =~= path.subrange(start, path.len() as int));
        }
    }
}

} // verus!
