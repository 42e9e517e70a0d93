//! Small operations on texts, stated over their characters.

use vstd::prelude::*;
use vstd::utf8::{encode_utf8, encode_utf8_decode_utf8};

verus! {

/// Two texts with the same UTF-8 encoding have the same characters.
pub proof fn encoding_determines_text(first: Seq<char>, second: Seq<char>)
    requires
        encode_utf8(first) == encode_utf8(second),
    ensures
        first == second,
{
    encode_utf8_decode_utf8(first);
    encode_utf8_decode_utf8(second);
}

/// Whether two texts are the same.
pub fn same_text(first: &str, second: &str) -> (same: bool)
    ensures
        same == (first@ == second@),
{
    let a: &[u8] = first.as_bytes();
    let b: &[u8] = second.as_bytes();
    if a.len() != b.len() {
        return false;
    }
    let mut i: usize = 0;
    while i < a.len()
        invariant
            i <= a@.len(),
            a@.len() == b@.len(),
            a@ == encode_utf8(first@),
            b@ == encode_utf8(second@),
            forall|j: int| 0 <= j < i ==> a@[j] == b@[j],
        decreases a@.len() - i,
    {
        if a[i] != b[i] {
            return false;
        }
        i = i + 1;
    }
    proof {
        assert(a@ =~= b@);
        encoding_determines_text(first@, second@);
    }
    true
}

/// Whether a text begins with another.
pub fn starts_with(text: &str, prefix: &str) -> (begins: bool)
    ensures
        begins == prefix@.is_prefix_of(text@),
{
    let mut rest = text.chars();
    for expected in wanted: prefix.chars()
        invariant
            wanted.seq() == prefix@,
            wanted.index() <= text@.len(),
            vstd::std_specs::iter::IteratorSpec::remaining(&rest) == text@.skip(wanted.index() as int),
            forall|i: int| 0 <= i < wanted.index() ==> text@[i] == prefix@[i],
    {
        match rest.next() {
            Some(found) => {
                if found != expected {
                    return false;
                }
            },
            None => {
                return false;
            },
        }
    }
    assert(prefix@ =~= text@.subrange(0, prefix@.len() as int));
    true
}

} // verus!
