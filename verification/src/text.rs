//! Byte-exact comparison of texts.

use vstd::prelude::*;
use vstd::utf8::{decode_utf8, encode_utf8, encode_utf8_decode_utf8};

verus! {

/// `needle` stands in `hay` from position `at` on.
pub open spec fn occurs_at(hay: Seq<u8>, needle: Seq<u8>, at: int) -> bool {
    &&& 0 <= at
    &&& at + needle.len() <= hay.len()
    &&& hay.subrange(at, at + needle.len()) == needle
}

/// `needle` stands somewhere in `hay`.
pub open spec fn has_infix(hay: Seq<u8>, needle: Seq<u8>) -> bool {
    exists|at: int| occurs_at(hay, needle, at)
}

/// The UTF-8 encoding of `needle` stands somewhere in that of `hay`.
pub open spec fn text_contains(hay: Seq<char>, needle: Seq<char>) -> bool {
    has_infix(encode_utf8(hay), encode_utf8(needle))
}

/// Compares `needle` with the bytes of `hay` from `at` on.
fn matches_at(hay: &[u8], needle: &[u8], at: usize) -> (found: bool)
    requires
        at + needle@.len() <= hay@.len(),
    ensures
        found == occurs_at(hay@, needle@, at as int),
{
    let width: usize = needle.len();
    let total: usize = hay.len();
    let mut k: usize = 0;
    while k < width
        invariant
            k <= width == needle@.len(),
            at + width <= total == hay@.len(),
            forall|j: int| 0 <= j < k ==> hay@[at + j] == needle@[j],
        decreases width - k,
    {
        if hay[at + k] != needle[k] {
            return false;
        }
        k += 1;
    }
    assert(hay@.subrange(at as int, at + width) =~= needle@);
    true
}

/// Substring test on bytes.
pub fn contains_bytes(hay: &[u8], needle: &[u8]) -> (found: bool)
    ensures
        found == has_infix(hay@, needle@),
{
    let width: usize = needle.len();
    let total: usize = hay.len();
    if width > total {
        return false;
    }
    let last: usize = total - width;
    let mut at: usize = 0;
    while at <= last
        invariant
            width == needle@.len(),
            total == hay@.len(),
            last + width == total,
            at <= last,
            forall|j: int| 0 <= j < at ==> !occurs_at(hay@, needle@, j),
        decreases last - at,
    {
        if matches_at(hay, needle, at) {
            return true;
        }
        if at == last {
            return false;
        }
        at += 1;
    }
    false
}

/// Substring test on texts, byte for byte.
pub fn contains(hay: &str, needle: &str) -> (found: bool)
    ensures
        found == text_contains(hay@, needle@),
{
    contains_bytes(hay.as_bytes(), needle.as_bytes())
}

/// Two texts are equal exactly when their UTF-8 encodings are.
pub proof fn lemma_encoding_tells_apart(left: Seq<char>, right: Seq<char>)
    ensures
        (encode_utf8(left) == encode_utf8(right)) <==> left == right,
{
    encode_utf8_decode_utf8(left);
    encode_utf8_decode_utf8(right);
    if encode_utf8(left) == encode_utf8(right) {
        assert(decode_utf8(encode_utf8(left)) == decode_utf8(encode_utf8(right)));
    }
}

/// Equality of byte strings.
pub fn same_bytes(left: &[u8], right: &[u8]) -> (equal: bool)
    ensures
        equal == (left@ == right@),
{
    let width: usize = left.len();
    if width != right.len() {
        return false;
    }
    let mut k: usize = 0;
    while k < width
        invariant
            k <= width == left@.len() == right@.len(),
            forall|j: int| 0 <= j < k ==> left@[j] == right@[j],
        decreases width - k,
    {
        if left[k] != right[k] {
            return false;
        }
        k += 1;
    }
    assert(left@ =~= right@);
    true
}

/// Equality of texts, byte for byte.
pub fn same(left: &str, right: &str) -> (equal: bool)
    ensures
        equal == (left@ == right@),
{
    proof {
        lemma_encoding_tells_apart(left@, right@);
    }
    same_bytes(left.as_bytes(), right.as_bytes())
}

/// A copy of a list of pairs of texts.
pub fn copy_pairs(pairs: &Vec<(String, String)>) -> (copy: Vec<(String, String)>)
    ensures
        copy.deep_view() == pairs.deep_view(),
{
    let mut copy: Vec<(String, String)> = Vec::new();
    let mut k: usize = 0;
    while k < pairs.len()
        invariant
            k <= pairs@.len(),
            copy@.len() == k,
            forall|j: int| 0 <= j < k ==> copy@[j].deep_view() == pairs@[j].deep_view(),
        decreases pairs@.len() - k,
    {
        copy.push((pairs[k].0.clone(), pairs[k].1.clone()));
        k += 1;
    }
    copy
}

} // verus!
