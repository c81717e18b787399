//! Discovery-index bucket derivation.
//!
//! A record's bucket is derived deterministically from its title: the first
//! three characters, case-folded, shard the discovery namespace so records
//! can be enumerated without one giant base address.

use vstd::prelude::*;

verus! {

/// ASCII case folding of one character; anything outside `'A'..='Z'` is kept
/// as it is.
pub open spec fn lower_char(c: char) -> char {
    if 'A' <= c && c <= 'Z' {
        (c as int + 32) as char
    } else {
        c
    }
}

/// A bucket of the discovery namespace: the case-folded three-character
/// title prefix that names the shard.
#[derive(Clone, Copy, PartialEq, Eq, Structural, Debug)]
pub struct BucketKey {
    pub c0: char,
    pub c1: char,
    pub c2: char,
}

/// The bucket a title lands in.
pub open spec fn bucket_of(s: Seq<char>) -> BucketKey
    recommends
        s.len() >= 3,
{
    BucketKey { c0: lower_char(s[0]), c1: lower_char(s[1]), c2: lower_char(s[2]) }
}

fn lower_char_x(c: char) -> (r: char)
    ensures
        r == lower_char(c),
{
    if c == 'A' {
        'a'
    } else if c == 'B' {
        'b'
    } else if c == 'C' {
        'c'
    } else if c == 'D' {
        'd'
    } else if c == 'E' {
        'e'
    } else if c == 'F' {
        'f'
    } else if c == 'G' {
        'g'
    } else if c == 'H' {
        'h'
    } else if c == 'I' {
        'i'
    } else if c == 'J' {
        'j'
    } else if c == 'K' {
        'k'
    } else if c == 'L' {
        'l'
    } else if c == 'M' {
        'm'
    } else if c == 'N' {
        'n'
    } else if c == 'O' {
        'o'
    } else if c == 'P' {
        'p'
    } else if c == 'Q' {
        'q'
    } else if c == 'R' {
        'r'
    } else if c == 'S' {
        's'
    } else if c == 'T' {
        't'
    } else if c == 'U' {
        'u'
    } else if c == 'V' {
        'v'
    } else if c == 'W' {
        'w'
    } else if c == 'X' {
        'x'
    } else if c == 'Y' {
        'y'
    } else if c == 'Z' {
        'z'
    } else {
        c
    }
}

/// Derives the discovery bucket for a title: its first three characters,
/// case-folded.
pub fn prefix_path(title: &str) -> (b: BucketKey)
    requires
        title@.len() >= 3,
    ensures
        b == bucket_of(title@),
{
    let c0 = lower_char_x(title.get_char(0));
    let c1 = lower_char_x(title.get_char(1));
    let c2 = lower_char_x(title.get_char(2));
    BucketKey { c0, c1, c2 }
}

/// Bucket derivation is insensitive to letter case: titles whose first three
/// characters agree up to case folding land in the same bucket.
pub proof fn lemma_bucket_case_insensitive(s: Seq<char>, t: Seq<char>)
    requires
        s.len() >= 3,
        t.len() >= 3,
        forall|i: int| 0 <= i < 3 ==> lower_char(s[i]) == lower_char(t[i]),
    ensures
        bucket_of(s) == bucket_of(t),
{
    assert(lower_char(s[0]) == lower_char(t[0]));
    assert(lower_char(s[1]) == lower_char(t[1]));
    assert(lower_char(s[2]) == lower_char(t[2]));
}

} // verus!
