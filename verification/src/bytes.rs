//! Small operations on byte strings.

use vstd::prelude::*;

verus! {

/// Appends `bytes`.
pub fn append(out: &mut Vec<u8>, bytes: &[u8])
    ensures
        final(out)@ == old(out)@ + bytes@,
{
    let mut i: usize = 0;
    while i < bytes.len()
        invariant
            i <= bytes.len(),
            out@ == old(out)@ + bytes@.take(i as int),
        decreases bytes.len() - i,
    {
        out.push(bytes[i]);
        assert(out@ =~= old(out)@ + bytes@.take(i + 1));
        i += 1;
    }
    assert(bytes@.take(bytes.len() as int) =~= bytes@);
}

/// Copies a byte string.
pub fn copy_bytes(bytes: &[u8]) -> (copy: Vec<u8>)
    ensures
        copy@ == bytes@,
{
    let mut copy: Vec<u8> = Vec::new();
    append(&mut copy, bytes);
    assert(copy@ =~= bytes@);
    copy
}

/// Whether `input` holds `expected` from position `pos` on; `false` also
/// where `pos` lies behind the end.
pub fn holds_at(input: &[u8], pos: usize, expected: &[u8]) -> (r: bool)
    ensures
        r == (pos <= input@.len() && expected@.is_prefix_of(input@.skip(pos as int))),
{
    if pos > input.len() || input.len() - pos < expected.len() {
        return false;
    }
    let ghost s = input@.skip(pos as int);
    let mut i: usize = 0;
    while i < expected.len()
        invariant
            i <= expected.len(),
            pos + expected.len() <= input.len(),
            s == input@.skip(pos as int),
            forall|j: int| 0 <= j < i ==> expected@[j] == s[j],
        decreases expected.len() - i,
    {
        assert(s[i as int] == input@[pos + i]);
        if input[pos + i] != expected[i] {
            assert(expected@[i as int] != s.subrange(0, expected@.len() as int)[i as int]);
            return false;
        }
        i += 1;
    }
    assert(expected@ =~= s.subrange(0, expected@.len() as int));
    true
}

/// Whether two byte strings are the same.
pub fn same_bytes(a: &[u8], b: &[u8]) -> (r: bool)
    ensures
        r == (a@ == b@),
{
    if a.len() != b.len() {
        return false;
    }
    assert(a@.skip(0) =~= a@);
    let r = holds_at(a, 0, b);
    proof {
        if r {
            assert(a@ =~= b@);
        }
    }
    r
}

/// A byte string is its own deep view.
pub proof fn lemma_bytes_deep_view(bytes: Vec<u8>)
    ensures
        bytes.deep_view() == bytes@,
{
    assert(bytes.deep_view() =~= bytes@);
}

} // verus!
