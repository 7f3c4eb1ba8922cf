//! Texts by the size of their UTF-8 bytes.

use crate::text::slice;
use vstd::prelude::*;
use vstd::utf8::{encode_scalar, encode_utf8};

verus! {

/// The number of UTF-8 bytes of a character.
pub open spec fn char_width(c: char) -> nat {
    if (c as u32) < 0x80 {
        1
    } else if (c as u32) < 0x800 {
        2
    } else if (c as u32) < 0x1_0000 {
        3
    } else {
        4
    }
}

/// The number of UTF-8 bytes of a text.
pub open spec fn byte_len(s: Seq<char>) -> nat
    decreases s.len(),
{
    if s.len() == 0 {
        0
    } else {
        byte_len(s.drop_last()) + char_width(s.last())
    }
}

/// The longest beginning of a text within a number of bytes.
pub open spec fn byte_prefix(s: Seq<char>, max: nat) -> Seq<char>
    decreases s.len(),
{
    if byte_len(s) <= max || s.len() == 0 {
        s
    } else {
        byte_prefix(s.drop_last(), max)
    }
}

proof fn lemma_width(c: char)
    ensures
        encode_scalar(c as u32).len() == char_width(c),
        1 <= char_width(c) <= 4,
{
    vstd::utf8::char_is_scalar(c);
}

proof fn lemma_encoded_push(s: Seq<char>, c: char)
    ensures
        encode_utf8(s.push(c)).len() == encode_utf8(s).len() + char_width(c),
    decreases s.len(),
{
    lemma_width(c);
    if s.len() == 0 {
        assert(s.push(c).drop_first() =~= Seq::<char>::empty());
        assert(encode_utf8(Seq::<char>::empty()).len() == 0);
    } else {
        lemma_encoded_push(s.drop_first(), c);
        assert(s.push(c).drop_first() =~= s.drop_first().push(c));
    }
}

/// The size of a text is the length of its UTF-8 encoding.
pub proof fn byte_len_is_the_encoded_length(s: Seq<char>)
    ensures
        byte_len(s) == encode_utf8(s).len(),
    decreases s.len(),
{
    if s.len() > 0 {
        byte_len_is_the_encoded_length(s.drop_last());
        lemma_encoded_push(s.drop_last(), s.last());
        assert(s.drop_last().push(s.last()) =~= s);
    }
}

pub proof fn lemma_byte_len_bound(s: Seq<char>)
    ensures
        s.len() <= byte_len(s) <= 4 * s.len(),
    decreases s.len(),
{
    if s.len() > 0 {
        lemma_byte_len_bound(s.drop_last());
    }
}

/// A longer beginning has more bytes.
pub proof fn lemma_byte_len_grows(s: Seq<char>, a: int, b: int)
    requires
        0 <= a <= b <= s.len(),
    ensures
        byte_len(s.take(a)) + (b - a) <= byte_len(s.take(b)),
    decreases b - a,
{
    if a < b {
        lemma_byte_len_grows(s, a, b - 1);
        assert(s.take(b).drop_last() =~= s.take(b - 1));
    }
}

pub fn width_of(c: char) -> (r: usize)
    ensures
        r == char_width(c),
{
    let n: u32 = c as u32;
    if n < 0x80 {
        1
    } else if n < 0x800 {
        2
    } else if n < 0x1_0000 {
        3
    } else {
        4
    }
}

pub fn byte_length(s: &Vec<char>) -> (r: u128)
    ensures
        r == byte_len(s@),
{
    let n: usize = s.len();
    let mut total: u128 = 0;
    let mut i: usize = 0;
    proof {
        assert(s@.take(0) =~= Seq::<char>::empty());
    }
    while i < n
        invariant
            n == s@.len(),
            i <= n,
            total == byte_len(s@.take(i as int)),
            total <= 4 * i,
        decreases n - i,
    {
        proof {
            assert(s@.take(i + 1).drop_last() =~= s@.take(i as int));
        }
        total = total + width_of(s[i]) as u128;
        i = i + 1;
    }
    proof {
        assert(s@.take(n as int) =~= s@);
    }
    total
}

proof fn lemma_prefix(s: Seq<char>, max: nat, k: int)
    requires
        0 <= k <= s.len(),
        byte_len(s.take(k)) <= max,
        k < s.len() ==> byte_len(s.take(k + 1)) > max,
    ensures
        byte_prefix(s, max) == s.take(k),
    decreases s.len(),
{
    assert(s.take(s.len() as int) =~= s);
    if k == s.len() {
    } else {
        lemma_byte_len_grows(s, k + 1, s.len() as int);
        let shorter = s.drop_last();
        assert(shorter.take(k) =~= s.take(k));
        if k + 1 <= shorter.len() {
            assert(shorter.take(k + 1) =~= s.take(k + 1));
        }
        lemma_prefix(shorter, max, k);
    }
}

/// How many characters stand in the first `max` bytes.
pub fn floor_boundary(s: &Vec<char>, max: usize) -> (r: usize)
    ensures
        r <= s@.len(),
        byte_prefix(s@, max as nat) == s@.take(r as int),
        byte_len(s@.take(r as int)) <= max,
        r < s@.len() ==> byte_len(s@.take(r + 1)) > max,
{
    let n: usize = s.len();
    let mut total: usize = 0;
    let mut i: usize = 0;
    proof {
        assert(s@.take(0) =~= Seq::<char>::empty());
    }
    while i < n
        invariant
            n == s@.len(),
            i <= n,
            total == byte_len(s@.take(i as int)),
            total <= max,
        decreases n - i,
    {
        let width: usize = width_of(s[i]);
        proof {
            assert(s@.take(i + 1).drop_last() =~= s@.take(i as int));
        }
        if width > max - total {
            proof {
                lemma_prefix(s@, max as nat, i as int);
            }
            return i;
        }
        total = total + width;
        i = i + 1;
    }
    proof {
        lemma_prefix(s@, max as nat, n as int);
    }
    n
}

pub fn byte_prefix_of(s: &Vec<char>, max: usize) -> (r: Vec<char>)
    ensures
        r@ == byte_prefix(s@, max as nat),
{
    let end: usize = floor_boundary(s, max);
    let r = slice(s, 0, end);
    proof {
        assert(r@ =~= s@.take(end as int));
    }
    r
}

} // verus!
