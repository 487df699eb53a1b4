//! Byte strings.
//!
//! Command line arguments and paths are byte strings. They need not be valid
//! UTF-8, and nothing here assumes that they are.

use vstd::prelude::*;

verus! {

pub const NEWLINE: u8 = 10;

pub const DASH: u8 = 45;

pub const DOT: u8 = 46;

pub const SLASH: u8 = 47;

pub const COLON: u8 = 58;

pub const EQUALS: u8 = 61;

pub const AT: u8 = 64;

pub const UPPER_A: u8 = 65;

pub const UPPER_Z: u8 = 90;

pub const BACKSLASH: u8 = 92;

pub const LOWER_A: u8 = 97;

pub const LOWER_Z: u8 = 122;

/// The byte strings that a list of owned byte strings holds.
pub open spec fn contents(list: Seq<Vec<u8>>) -> Seq<Seq<u8>> {
    Seq::new(list.len(), |i: int| list[i]@)
}

/// The byte strings that a list of borrowed byte strings points at.
pub open spec fn ref_contents(list: Seq<&Vec<u8>>) -> Seq<Seq<u8>> {
    Seq::new(list.len(), |i: int| list[i]@)
}

/// Whether `needle` occurs in `haystack` as a contiguous run of bytes.
pub open spec fn has_infix(haystack: Seq<u8>, needle: Seq<u8>) -> bool {
    exists|i: int| occurs_at(haystack, needle, i)
}

/// Whether `needle` occurs in `haystack` starting at position `i`.
pub open spec fn occurs_at(haystack: Seq<u8>, needle: Seq<u8>, i: int) -> bool {
    &&& 0 <= i
    &&& i + needle.len() <= haystack.len()
    &&& haystack.subrange(i, i + needle.len()) == needle
}

/// An ASCII upper case letter as its lower case letter; any other byte as itself.
pub open spec fn lower(b: u8) -> u8 {
    if UPPER_A <= b <= UPPER_Z {
        (b + 32) as u8
    } else {
        b
    }
}

/// `s` with every ASCII upper case letter made lower case.
pub open spec fn lowered(s: Seq<u8>) -> Seq<u8> {
    s.map_values(|b: u8| lower(b))
}

/// Whether two byte strings are the same.
pub fn same(a: &[u8], b: &[u8]) -> (r: bool)
    ensures
        r == (a@ == b@),
{
    if a.len() != b.len() {
        return false;
    }
    let mut i: usize = 0;
    while i < a.len()
        invariant
            a.len() == b.len(),
            i <= a.len(),
            forall|j: int| 0 <= j < i ==> a@[j] == b@[j],
        decreases a.len() - i,
    {
        if a[i] != b[i] {
            return false;
        }
        i += 1;
    }
    assert(a@ =~= b@);
    true
}

/// Whether `s` begins with `prefix`.
pub fn starts_with(s: &[u8], prefix: &[u8]) -> (r: bool)
    ensures
        r == prefix@.is_prefix_of(s@),
{
    if s.len() < prefix.len() {
        return false;
    }
    let r = same(vstd::slice::slice_subrange(s, 0, prefix.len()), prefix);
    assert(s@.subrange(0, prefix@.len() as int) == s@.take(prefix@.len() as int));
    r
}

/// Whether `s` ends with `suffix`.
pub fn ends_with(s: &[u8], suffix: &[u8]) -> (r: bool)
    ensures
        r == suffix@.is_suffix_of(s@),
{
    if s.len() < suffix.len() {
        return false;
    }
    same(vstd::slice::slice_subrange(s, s.len() - suffix.len(), s.len()), suffix)
}

/// Whether `needle` occurs in `haystack`.
pub fn contains(haystack: &[u8], needle: &[u8]) -> (r: bool)
    ensures
        r == has_infix(haystack@, needle@),
{
    if haystack.len() < needle.len() {
        return false;
    }
    let last: usize = haystack.len() - needle.len();
    let mut i: usize = 0;
    loop
        invariant
            last == haystack.len() - needle.len(),
            i <= last,
            forall|j: int| 0 <= j < i ==> !occurs_at(haystack@, needle@, j),
        decreases last - i,
    {
        if same(vstd::slice::slice_subrange(haystack, i, i + needle.len()), needle) {
            assert(occurs_at(haystack@, needle@, i as int));
            return true;
        }
        if i == last {
            return false;
        }
        i += 1;
    }
}

/// Whether the byte `b` occurs in `s`.
pub fn contains_byte(s: &[u8], b: u8) -> (r: bool)
    ensures
        r == s@.contains(b),
{
    let mut i: usize = 0;
    while i < s.len()
        invariant
            i <= s.len(),
            forall|j: int| 0 <= j < i ==> s@[j] != b,
        decreases s.len() - i,
    {
        if s[i] == b {
            assert(s@.contains(s@[i as int]));
            return true;
        }
        i += 1;
    }
    false
}

/// The position of the last `b` in `s`, or -1 where `s` has none.
pub open spec fn last_index(s: Seq<u8>, b: u8) -> int
    decreases s.len(),
{
    if s.len() == 0 {
        -1
    } else if s.last() == b {
        s.len() - 1
    } else {
        last_index(s.drop_last(), b)
    }
}

/// `last_index` is a position of `s`, or -1.
pub proof fn lemma_last_index_bounds(s: Seq<u8>, b: u8)
    ensures
        -1 <= last_index(s, b) < s.len(),
        last_index(s, b) >= 0 ==> s[last_index(s, b)] == b,
    decreases s.len(),
{
    if s.len() > 0 && s.last() != b {
        lemma_last_index_bounds(s.drop_last(), b);
    }
}

/// The position after the last `b` in `s`, or 0 where `s` has none.
pub fn after_last(s: &[u8], b: u8) -> (r: usize)
    ensures
        r == last_index(s@, b) + 1,
        r <= s@.len(),
{
    let mut i: usize = s.len();
    assert(s@.take(s@.len() as int) == s@);
    while i > 0
        invariant
            i <= s@.len(),
            last_index(s@, b) == last_index(s@.take(i as int), b),
        decreases i,
    {
        if s[i - 1] == b {
            return i;
        }
        assert(s@.take(i as int).drop_last() == s@.take(i - 1));
        i -= 1;
    }
    i
}

/// The same bytes with the ASCII letters in lower case.
pub fn to_ascii_lowercase(s: &[u8]) -> (r: Vec<u8>)
    ensures
        r@ == lowered(s@),
{
    let mut r: Vec<u8> = Vec::new();
    let mut i: usize = 0;
    while i < s.len()
        invariant
            i <= s.len(),
            r@ == lowered(s@).take(i as int),
        decreases s.len() - i,
    {
        let b: u8 = s[i];
        let c: u8 = if UPPER_A <= b && b <= UPPER_Z {
            b + 32
        } else {
            b
        };
        r.push(c);
        i += 1;
    }
    assert(lowered(s@).take(s@.len() as int) == lowered(s@));
    r
}

/// An owned copy of a byte string.
pub fn copied(s: &[u8]) -> (r: Vec<u8>)
    ensures
        r@ == s@,
{
    vstd::slice::slice_to_vec(s)
}

/// Appends a copy of a byte string to a list.
pub fn push_copy(list: &mut Vec<Vec<u8>>, item: &[u8])
    ensures
        contents(final(list)@) == contents(old(list)@).push(item@),
{
    let ghost before = list@;
    list.push(copied(item));
    assert(contents(list@) =~= contents(before).push(item@));
}

} // verus!
