//! Small helpers on byte strings.

use vstd::prelude::*;

verus! {

/// Copies a byte string.
pub fn clone_bytes(data: &Vec<u8>) -> (copy: Vec<u8>)
    ensures
        copy@ == data@,
{
    let copy = data.clone();
    assert(copy@ =~= data@);
    copy
}

/// Compares two byte strings.
pub fn bytes_equal(left: &Vec<u8>, right: &Vec<u8>) -> (same: bool)
    ensures
        same == (left@ == right@),
{
    if left.len() != right.len() {
        return false;
    }
    let mut i: usize = 0;
    while i < left.len()
        invariant
            left.len() == right.len(),
            i <= left.len(),
            forall|j: int| 0 <= j < i ==> left@[j] == right@[j],
        decreases left.len() - i,
    {
        if left[i] != right[i] {
            return false;
        }
        i += 1;
    }
    assert(left@ =~= right@);
    true
}

/// Appends a byte string to another.
pub fn append_bytes(target: &mut Vec<u8>, source: &Vec<u8>)
    ensures
        final(target)@ == old(target)@ + source@,
{
    let ghost before = target@;
    let mut i: usize = 0;
    while i < source.len()
        invariant
            i <= source.len(),
            target@ == before + source@.subrange(0, i as int),
        decreases source.len() - i,
    {
        target.push(source[i]);
        assert(target@ =~= before + source@.subrange(0, i + 1));
        i += 1;
    }
    assert(source@.subrange(0, source@.len() as int) =~= source@);
}

/// Copies the bytes from index `from` up to, not including, index `to`.
pub fn copy_range(source: &Vec<u8>, from: usize, to: usize) -> (part: Vec<u8>)
    requires
        from <= to <= source@.len(),
    ensures
        part@ == source@.subrange(from as int, to as int),
{
    let mut part: Vec<u8> = Vec::new();
    let mut i: usize = from;
    while i < to
        invariant
            from <= i <= to,
            to <= source@.len(),
            part@ == source@.subrange(from as int, i as int),
        decreases to - i,
    {
        part.push(source[i]);
        assert(part@ =~= source@.subrange(from as int, i + 1));
        i += 1;
    }
    part
}

} // verus!
