//! What the operations on text give, said of the characters of the text.

use crate::text::{
    ascii_lower, ascii_lowercase, contains, contains_any, count_terms, digits_of, digits_value,
    ends_with, first_index, has_char, has_digit, hex, holds, is_control, is_digit, is_first,
    is_one_of, is_white_space, join, occurs_at, prefix, replaced, seek, signed_value, split,
    split_state, starts_with, strip, strip_end, strip_start, trim, trim_end, trim_start,
    unsigned_value, without_char, without_prefix,
};
use vstd::prelude::*;

verus! {

/// A text stands in another where a stretch of the other equals it.
pub proof fn contained_texts_are_stretches(s: Seq<char>, t: Seq<char>)
    ensures
        contains(s, t) <==> exists|i: int|
            0 <= i && i + t.len() <= s.len() && #[trigger] s.subrange(i, i + t.len()) == t,
        starts_with(s, t) <==> t.is_prefix_of(s),
        ends_with(s, t) <==> t.is_suffix_of(s),
{
    if contains(s, t) {
        let i = choose|i: int| occurs_at(s, t, i);
        assert(s.subrange(i, i + t.len()) =~= t);
    }
    if exists|i: int|
        0 <= i && i + t.len() <= s.len() && #[trigger] s.subrange(i, i + t.len()) == t {
        let i = choose|i: int|
            0 <= i && i + t.len() <= s.len() && #[trigger] s.subrange(i, i + t.len()) == t;
        assert forall|k: int| 0 <= k < t.len() implies s[i + k] == #[trigger] t[k] by {
            assert(s.subrange(i, i + t.len())[k] == s[i + k]);
        }
        assert(occurs_at(s, t, i));
    }
    if starts_with(s, t) {
        assert(s.subrange(0, t.len() as int) =~= t);
    }
    if t.is_prefix_of(s) {
        assert forall|k: int| 0 <= k < t.len() implies s[0 + k] == #[trigger] t[k] by {
            assert(s.subrange(0, t.len() as int)[k] == s[k]);
        }
    }
    let at = s.len() - t.len();
    if ends_with(s, t) {
        assert(s.subrange(at, s.len() as int) =~= t);
    }
    if t.is_suffix_of(s) {
        assert forall|k: int| 0 <= k < t.len() implies s[at + k] == #[trigger] t[k] by {
            assert(s.subrange(at, s.len() as int)[k] == s[at + k]);
        }
    }
}

/// Every stretch of a text stands in it, wherever it lies.
pub proof fn stretches_are_contained(before: Seq<char>, t: Seq<char>, behind: Seq<char>)
    ensures
        contains(before + t + behind, t),
        starts_with(t + behind, t),
        ends_with(before + t, t),
        contains(before, t) ==> contains(before + behind, t),
        contains(behind, t) ==> contains(before + behind, t),
{
    assert(occurs_at(before + t + behind, t, before.len() as int));
    if contains(before, t) {
        let i = choose|i: int| occurs_at(before, t, i);
        assert(occurs_at(before + behind, t, i));
    }
    if contains(behind, t) {
        let i = choose|i: int| occurs_at(behind, t, i);
        assert forall|k: int| 0 <= k < t.len() implies (before + behind)[before.len() + i + k]
            == #[trigger] t[k] by {
            assert(behind[i + k] == t[k]);
        }
        assert(occurs_at(before + behind, t, before.len() + i));
    }
}

/// A text that holds one of the terms is one that holds the first of them or one of
/// the others; the terms found are counted one by one.
pub proof fn terms_are_taken_one_by_one(value: Seq<char>, term: &str, terms: Seq<&str>)
    ensures
        contains_any(value, terms.push(term)) <==> contains(value, term@) || contains_any(
            value,
            terms,
        ),
        is_one_of(value, terms.push(term)) <==> value == term@ || is_one_of(value, terms),
        count_terms(value, terms) == terms.filter(|t: &str| contains(value, t@)).len(),
    decreases terms.len(),
{
    let more = terms.push(term);
    assert(more[terms.len() as int] == term);
    assert forall|i: int| 0 <= i < terms.len() implies more[i] == #[trigger] terms[i] by {}
    if contains_any(value, terms) {
        let i = choose|i: int| 0 <= i < terms.len() && contains(value, (#[trigger] terms[i])@);
        assert(contains(value, more[i]@));
    }
    if is_one_of(value, terms) {
        let i = choose|i: int| 0 <= i < terms.len() && (#[trigger] terms[i])@ == value;
        assert(more[i]@ == value);
    }
    reveal(Seq::filter);
    if terms.len() > 0 {
        terms_are_taken_one_by_one(value, terms.last(), terms.drop_last());
    }
}

/// The characters that count as white space, as control characters and as digits.
pub proof fn character_classes(c: char)
    ensures
        is_white_space(c) <==> (9 <= c as u32 <= 13 || c as u32 == 0x20 || c as u32 == 0x85
            || c as u32 == 0xA0 || c as u32 == 0x1680 || 0x2000 <= c as u32 <= 0x200A || c as u32
            == 0x2028 || c as u32 == 0x2029 || c as u32 == 0x202F || c as u32 == 0x205F || c as u32
            == 0x3000),
        is_control(c) <==> (c as u32) < 32 || 127 <= c as u32 <= 159,
        is_digit(c) <==> 48 <= c as u32 <= 57,
        65 <= c as u32 <= 90 ==> ascii_lower(c) as u32 == c as u32 + 32,
        !(65 <= c as u32 <= 90) ==> ascii_lower(c) == c,
{
}

/// Lowering a text in ASCII keeps its length and every character that is no capital,
/// and works on each character alone.
pub proof fn lowering_works_on_each_character(a: Seq<char>, b: Seq<char>)
    ensures
        ascii_lowercase(a + b) == ascii_lowercase(a) + ascii_lowercase(b),
        ascii_lowercase(a).len() == a.len(),
        ascii_lowercase(ascii_lowercase(a)) == ascii_lowercase(a),
        forall|i: int|
            0 <= i < a.len() && !(65 <= a[i] as u32 <= 90) ==> #[trigger] ascii_lowercase(a)[i]
                == a[i],
        forall|i: int|
            0 <= i < a.len() && 65 <= a[i] as u32 <= 90 ==> #[trigger] ascii_lowercase(a)[i] as u32
                == a[i] as u32 + 32,
{
    assert(ascii_lowercase(a + b) =~= ascii_lowercase(a) + ascii_lowercase(b));
    assert forall|i: int| 0 <= i < a.len() implies ascii_lowercase(ascii_lowercase(a))[i]
        == ascii_lowercase(a)[i] by {
        character_classes(a[i]);
        character_classes(ascii_lower(a[i]));
    }
    assert(ascii_lowercase(ascii_lowercase(a)) =~= ascii_lowercase(a));
    assert forall|i: int| 0 <= i < a.len() implies #[trigger] ascii_lowercase(a)[i] == ascii_lower(
        a[i],
    ) by {}
    assert forall|i: int|
        0 <= i < a.len() && 65 <= a[i] as u32 <= 90 implies #[trigger] ascii_lowercase(
        a,
    )[i] as u32 == a[i] as u32 + 32 by {
        character_classes(a[i]);
    }
}

proof fn lemma_trim_start(s: Seq<char>)
    ensures
        trim_start(s).is_suffix_of(s),
        trim_start(s).len() > 0 ==> !is_white_space(trim_start(s)[0]),
        forall|i: int| 0 <= i < s.len() - trim_start(s).len() ==> is_white_space(#[trigger] s[i]),
    decreases s.len(),
{
    if s.len() > 0 && is_white_space(s[0]) {
        let rest = s.drop_first();
        lemma_trim_start(rest);
        assert forall|i: int| 0 <= i < s.len() - trim_start(s).len() implies is_white_space(
            #[trigger] s[i],
        ) by {
            if i > 0 {
                assert(rest[i - 1] == s[i]);
            }
        }
        let at = s.len() - trim_start(s).len();
        assert(s.subrange(at, s.len() as int) =~= rest.subrange(at - 1, rest.len() as int));
    } else {
        assert(s.subrange(0, s.len() as int) =~= s);
    }
}

proof fn lemma_trim_end(s: Seq<char>)
    ensures
        trim_end(s).is_prefix_of(s),
        trim_end(s).len() > 0 ==> !is_white_space(trim_end(s).last()),
        forall|i: int| trim_end(s).len() <= i < s.len() ==> is_white_space(#[trigger] s[i]),
    decreases s.len(),
{
    if s.len() > 0 && is_white_space(s.last()) {
        let rest = s.drop_last();
        lemma_trim_end(rest);
        assert forall|i: int| trim_end(s).len() <= i < s.len() implies is_white_space(
            #[trigger] s[i],
        ) by {
            if i < rest.len() {
                assert(rest[i] == s[i]);
            }
        }
        assert(s.subrange(0, trim_end(s).len() as int) =~= rest.subrange(
            0,
            trim_end(s).len() as int,
        ));
    } else {
        assert(s.subrange(0, s.len() as int) =~= s);
    }
}

/// A trimmed text is the text without the white space around it: what was cut off is
/// white space, and neither end is.
pub proof fn trimming_cuts_the_white_space_around(s: Seq<char>)
    ensures
        trim(s).len() > 0 ==> !is_white_space(trim(s)[0]) && !is_white_space(trim(s).last()),
        exists|i: int|
            0 <= i && i + trim(s).len() <= s.len() && trim(s) == #[trigger] s.subrange(
                i,
                i + trim(s).len(),
            ) && (forall|k: int| 0 <= k < i ==> is_white_space(#[trigger] s[k])) && (forall|k: int|
                i + trim(s).len() <= k < s.len() ==> is_white_space(#[trigger] s[k])),
{
    lemma_trim_start(s);
    lemma_trim_end(trim_start(s));
    let rest = trim_start(s);
    let at = s.len() - rest.len();
    let end = at + trim(s).len();
    assert(s.subrange(at, end) =~= trim(s));
    assert forall|k: int| end <= k < s.len() implies is_white_space(#[trigger] s[k]) by {
        assert(rest[k - at] == s[k]);
    }
    if trim(s).len() > 0 {
        assert(trim(s)[0] == rest[0]);
    }
}

proof fn lemma_split_state(s: Seq<char>, sep: char, n: int)
    requires
        0 <= n <= s.len(),
    ensures
        join(split_state(s, sep, n).0.push(split_state(s, sep, n).1), seq![sep]) == s.take(n),
        forall|i: int|
            0 <= i < split_state(s, sep, n).0.len() ==> !(#[trigger] split_state(
                s,
                sep,
                n,
            ).0[i]).contains(sep),
        !split_state(s, sep, n).1.contains(sep),
    decreases n,
{
    let (done, open) = split_state(s, sep, n);
    if n == 0 {
        assert(done.push(open) =~= seq![Seq::<char>::empty()]);
        assert(s.take(0) =~= Seq::empty());
    } else {
        lemma_split_state(s, sep, n - 1);
        let (before, last) = split_state(s, sep, n - 1);
        let gap = seq![sep];
        assert(s.take(n) =~= s.take(n - 1).push(s[n - 1]));
        assert(done.push(open).drop_last() =~= done);
        assert(before.push(last).drop_last() =~= before);
        if s[n - 1] == sep {
            assert(open =~= Seq::empty());
            assert(join(done, gap) + gap + open =~= s.take(n - 1).push(sep));
            assert forall|i: int| 0 <= i < done.len() implies !(#[trigger] done[i]).contains(
                sep,
            ) by {
                if i < before.len() {
                    assert(done[i] == before[i]);
                }
            }
        } else {
            if before.len() > 0 {
                assert(join(before, gap) + gap + last.push(s[n - 1]) =~= (join(before, gap) + gap
                    + last).push(s[n - 1]));
            }
            assert forall|k: int| 0 <= k < open.len() implies open[k] != sep by {
                if k < last.len() {
                    assert(last.contains(last[k]));
                }
            }
        }
    }
}

/// The pieces of a text hold no separator, and with it between them they make the
/// text again.
pub proof fn pieces_joined_make_the_text(s: Seq<char>, sep: char)
    ensures
        join(split(s, sep), seq![sep]) == s,
        split(s, sep).len() > 0,
        forall|i: int| 0 <= i < split(s, sep).len() ==> !(#[trigger] split(s, sep)[i]).contains(sep),
{
    lemma_split_state(s, sep, s.len() as int);
    assert(s.take(s.len() as int) =~= s);
}

/// A joined list begins with its first part and goes on with the separator and the
/// rest, or ends with its last part behind the separator.
pub proof fn joined_parts_stand_in_order(parts: Seq<Seq<char>>, last: Seq<char>, sep: Seq<char>)
    ensures
        join(Seq::empty(), sep) == Seq::<char>::empty(),
        join(seq![last], sep) == last,
        parts.len() > 0 ==> join(parts.push(last), sep) == join(parts, sep) + sep + last,
        parts.len() > 0 ==> join(seq![last] + parts, sep) == last + sep + join(parts, sep),
    decreases parts.len(),
{
    assert(parts.push(last).drop_last() =~= parts);
    if parts.len() == 1 {
        let whole = seq![last] + parts;
        assert(whole.drop_last() =~= seq![last]);
        assert(whole.last() == parts[0]);
        assert(join(whole, sep) == join(whole.drop_last(), sep) + sep + whole.last());
    } else if parts.len() > 1 {
        let whole = seq![last] + parts;
        let rest = parts.drop_last();
        joined_parts_stand_in_order(rest, last, sep);
        assert(whole.drop_last() =~= seq![last] + rest);
        assert(whole.last() == parts.last());
        assert(join(whole, sep) =~= last + sep + (join(rest, sep) + sep + parts.last()));
    }
}

/// What is picked out of a text character by character is picked in its order.
pub proof fn characters_are_picked_in_order(s: Seq<char>, c: char)
    ensures
        digits_of(s) == s.filter(|d: char| 48 <= d as u32 <= 57),
        without_char(s, c) == s.filter(|d: char| d != c),
        has_char(s, c) <==> s.contains(c),
        has_digit(s) <==> digits_of(s).len() > 0,
    decreases s.len(),
{
    reveal(Seq::filter);
    if s.len() > 0 {
        characters_are_picked_in_order(s.drop_last(), c);
        if has_digit(s) {
            let i = choose|i: int| 0 <= i < s.len() && is_digit(#[trigger] s[i]);
            if i < s.len() - 1 {
                assert(s.drop_last()[i] == s[i]);
            }
        }
        if digits_of(s).len() > 0 {
            if is_digit(s.last()) {
                assert(is_digit(s[s.len() - 1]));
            } else {
                let i = choose|i: int|
                    0 <= i < s.drop_last().len() && is_digit(#[trigger] s.drop_last()[i]);
                assert(is_digit(s[i]));
            }
        }
    }
    if s.contains(c) {
        let i = choose|i: int| 0 <= i < s.len() && s[i] == c;
        assert(s[i] == c);
    }
}

/// The first `n` characters of a text, or all of them.
pub proof fn prefixes_are_the_front(s: Seq<char>, n: int)
    requires
        0 <= n,
    ensures
        prefix(s, n).is_prefix_of(s),
        prefix(s, n).len() == if s.len() <= n {
            s.len() as int
        } else {
            n
        },
{
}

/// Appending a digit multiplies a number by ten and adds the digit.
pub proof fn digits_count_in_tens(s: Seq<char>, c: char)
    requires
        48 <= c as u32 <= 57,
        forall|i: int| 0 <= i < s.len() ==> 48 <= #[trigger] s[i] as u32 <= 57,
    ensures
        unsigned_value(s.push(c)) == Some((digits_value(s) * 10 + (c as u32 - 48)) as nat),
        unsigned_value(seq![c]) == Some((c as u32 - 48) as nat),
        unsigned_value(Seq::<char>::empty()) is None,
{
    assert(s.push(c).drop_last() =~= s);
    assert(seq![c].drop_last() =~= Seq::empty());
    assert(digits_value(Seq::<char>::empty()) == 0);
    assert(digits_value(seq![c]) == digits_value(seq![c].drop_last()) * 10 + (c as u32 - 48));
}

proof fn lemma_hex_of_more(bytes: Seq<u8>, byte: u8)
    ensures
        hex(bytes.push(byte)).len() == hex(bytes).len() + 2,
        hex(bytes).is_prefix_of(hex(bytes.push(byte))),
{
    assert(bytes.push(byte).drop_last() =~= bytes);
    assert(hex(bytes).is_prefix_of(hex(bytes.push(byte))));
}

/// The two digits of a byte in hexadecimal denote it, the high one first.
pub proof fn hexadecimal_digits_denote_the_byte(bytes: Seq<u8>, byte: u8)
    ensures
        hex(bytes.push(byte)).len() == hex(bytes).len() + 2,
        hex(bytes).is_prefix_of(hex(bytes.push(byte))),
        ({
            let high = hex(bytes.push(byte))[hex(bytes).len() as int] as u32;
            let low = hex(bytes.push(byte))[hex(bytes).len() as int + 1] as u32;
            let high_value = if high < 97 {
                high - 48
            } else {
                high - 87
            };
            let low_value = if low < 97 {
                low - 48
            } else {
                low - 87
            };
            &&& 0 <= high_value < 16
            &&& 0 <= low_value < 16
            &&& byte == 16 * high_value + low_value
        }),
{
    lemma_hex_of_more(bytes, byte);
    assert(bytes.push(byte).drop_last() =~= bytes);
    assert(byte == 16 * (byte / 16) + byte % 16);
}

/// Replacing looks for the pattern from the front: where the text starts with it, the
/// replacement comes and the rest is treated the same; else the first character stays.
/// A text without the pattern stays as it is.
pub proof fn replacing_goes_from_left_to_right(s: Seq<char>, p: Seq<char>, w: Seq<char>)
    requires
        p.len() > 0,
    ensures
        replaced(p + s, p, w) == w + replaced(s, p, w),
        !contains(s, p) ==> replaced(s, p, w) == s,
        replaced(s, p, p) == s,
    decreases s.len(),
{
    assert(starts_with(p + s, p));
    assert((p + s).skip(p.len() as int) =~= s);
    if s.len() > 0 {
        let rest = s.drop_first();
        if starts_with(s, p) {
            assert(occurs_at(s, p, 0));
            replacing_goes_from_left_to_right(s.skip(p.len() as int), p, w);
            assert(p + s.skip(p.len() as int) =~= s);
        } else {
            if contains(rest, p) {
                let i = choose|i: int| occurs_at(rest, p, i);
                assert forall|k: int| 0 <= k < p.len() implies s[i + 1 + k] == #[trigger] p[k] by {
                    assert(rest[i + k] == p[k]);
                }
                assert(occurs_at(s, p, i + 1));
            }
            replacing_goes_from_left_to_right(rest, p, w);
            assert(seq![s[0]] + rest =~= s);
        }
    }
}

/// Searching from a place finds the first occurrence from there on, and finds one
/// exactly where there is one.
pub proof fn searching_finds_the_first_occurrence(s: Seq<char>, t: Seq<char>, pos: int, at: int)
    requires
        0 <= pos <= at,
        at + t.len() <= s.len(),
        s.subrange(at, at + t.len()) == t,
    ensures
        seek(s, t, pos) matches Some(i) && pos <= i <= at && i + t.len() <= s.len() && s.subrange(
            i,
            i + t.len(),
        ) == t,
        contains(s, t),
        pos == 0 ==> seek(s, t, pos) == Some(first_index(s, t)),
    decreases at - pos,
{
    assert forall|k: int| 0 <= k < t.len() implies s[at + k] == #[trigger] t[k] by {
        assert(s.subrange(at, at + t.len())[k] == s[at + k]);
    }
    assert(occurs_at(s, t, at));
    lemma_first_from(s, t, pos, at);
    let i = choose|i: int| crate::text::is_first_from(s, t, pos, i);
    assert(s.subrange(i, i + t.len()) =~= t);
    if pos == 0 {
        assert(is_first(s, t, i));
        let j = first_index(s, t);
        assert(is_first(s, t, j));
        if i < j {
            assert(!occurs_at(s, t, i));
        }
        if j < i {
            assert(!occurs_at(s, t, j));
        }
    }
}

proof fn lemma_first_from(s: Seq<char>, t: Seq<char>, pos: int, at: int)
    requires
        0 <= pos <= at,
        occurs_at(s, t, at),
    ensures
        exists|i: int| crate::text::is_first_from(s, t, pos, i),
    decreases at - pos,
{
    if forall|j: int| pos <= j < at ==> !#[trigger] occurs_at(s, t, j) {
        assert(crate::text::is_first_from(s, t, pos, at));
    } else {
        let j = choose|j: int| pos <= j < at && #[trigger] occurs_at(s, t, j);
        lemma_first_from(s, t, pos, j);
    }
}

/// A list of texts holds the texts that are in it.
pub proof fn lists_hold_their_texts(list: Seq<Seq<char>>, item: Seq<char>)
    ensures
        holds(list, item) <==> list.contains(item),
{
    if list.contains(item) {
        let i = choose|i: int| 0 <= i < list.len() && list[i] == item;
        assert(list[i] == item);
    }
}

/// A prefix is taken off as often as it stands at the front, and no more.
pub proof fn prefixes_are_taken_off(s: Seq<char>, p: Seq<char>)
    requires
        p.len() > 0,
    ensures
        without_prefix(p + s, p) == without_prefix(s, p),
        !p.is_prefix_of(s) ==> without_prefix(s, p) == s,
        !p.is_prefix_of(without_prefix(s, p)),
        without_prefix(s, p).is_suffix_of(s),
    decreases s.len(),
{
    assert(starts_with(p + s, p));
    assert((p + s).skip(p.len() as int) =~= s);
    contained_texts_are_stretches(s, p);
    if starts_with(s, p) {
        let rest = s.skip(p.len() as int);
        prefixes_are_taken_off(rest, p);
        let left = without_prefix(s, p);
        assert(s.subrange(s.len() - left.len(), s.len() as int) =~= rest.subrange(
            rest.len() - left.len(),
            rest.len() as int,
        ));
    } else {
        assert(s.subrange(0, s.len() as int) =~= s);
    }
}

proof fn lemma_strip_front(pre: Seq<char>, rest: Seq<char>, class: spec_fn(char) -> bool)
    requires
        forall|i: int| 0 <= i < pre.len() ==> class(#[trigger] pre[i]),
        rest.len() > 0 ==> !class(rest[0]),
    ensures
        strip_start(pre + rest, class) == rest,
    decreases pre.len(),
{
    let s = pre + rest;
    if pre.len() > 0 {
        assert(class(pre[0]) && s[0] == pre[0]);
        assert(s.drop_first() =~= pre.drop_first() + rest);
        lemma_strip_front(pre.drop_first(), rest, class);
    } else {
        assert(s =~= rest);
    }
}

proof fn lemma_strip_back(rest: Seq<char>, post: Seq<char>, class: spec_fn(char) -> bool)
    requires
        forall|i: int| 0 <= i < post.len() ==> class(#[trigger] post[i]),
        rest.len() > 0 ==> !class(rest.last()),
    ensures
        strip_end(rest + post, class) == rest,
    decreases post.len(),
{
    let s = rest + post;
    if post.len() > 0 {
        assert(class(post[post.len() - 1]) && s.last() == post.last());
        assert(s.drop_last() =~= rest + post.drop_last());
        lemma_strip_back(rest, post.drop_last(), class);
    } else {
        assert(s =~= rest);
    }
}

/// Stripping takes off what surrounds a text and leaves the text: what stands before
/// and behind a core that neither begins nor ends with such a character goes, and so
/// does white space around it where a text is trimmed.
pub proof fn stripping_leaves_the_core(
    pre: Seq<char>,
    core: Seq<char>,
    post: Seq<char>,
    class: spec_fn(char) -> bool,
)
    requires
        core.len() > 0,
        !class(core[0]),
        !class(core.last()),
        forall|i: int| 0 <= i < pre.len() ==> class(#[trigger] pre[i]),
        forall|i: int| 0 <= i < post.len() ==> class(#[trigger] post[i]),
    ensures
        strip(pre + core + post, class) == core,
        strip(pre + post, class) == Seq::<char>::empty(),
{
    assert(pre + core + post =~= pre + (core + post));
    lemma_strip_front(pre, core + post, class);
    lemma_strip_back(core, post, class);
    let none = Seq::<char>::empty();
    assert(pre + post =~= (pre + post) + none);
    assert forall|i: int| 0 <= i < (pre + post).len() implies class(#[trigger] (pre + post)[i]) by {
        if i < pre.len() {
            assert((pre + post)[i] == pre[i]);
        } else {
            assert((pre + post)[i] == post[i - pre.len()]);
        }
    }
    lemma_strip_front(pre + post, none, class);
    assert(strip_end(none, class) =~= none);
}

proof fn lemma_trim_is_strip(s: Seq<char>, class: spec_fn(char) -> bool)
    requires
        class == (|c: char| is_white_space(c)),
    ensures
        trim_start(s) == strip_start(s, class),
        trim_end(s) == strip_end(s, class),
    decreases s.len(),
{
    if s.len() > 0 {
        lemma_trim_is_strip(s.drop_first(), class);
        lemma_trim_is_strip(s.drop_last(), class);
    }
}

/// Trimming takes the white space off both ends and leaves what lies between.
pub proof fn trimming_leaves_the_core(pre: Seq<char>, core: Seq<char>, post: Seq<char>)
    requires
        core.len() > 0,
        !is_white_space(core[0]),
        !is_white_space(core.last()),
        forall|i: int| 0 <= i < pre.len() ==> is_white_space(#[trigger] pre[i]),
        forall|i: int| 0 <= i < post.len() ==> is_white_space(#[trigger] post[i]),
    ensures
        trim(pre + core + post) == core,
        trim(pre + post) == Seq::<char>::empty(),
{
    let class = |c: char| is_white_space(c);
    stripping_leaves_the_core(pre, core, post, class);
    lemma_trim_is_strip(pre + core + post, class);
    lemma_trim_is_strip(strip_start(pre + core + post, class), class);
    lemma_trim_is_strip(pre + post, class);
    lemma_trim_is_strip(strip_start(pre + post, class), class);
}

proof fn lemma_strip_start_suffix(s: Seq<char>, class: spec_fn(char) -> bool)
    ensures
        strip_start(s, class).is_suffix_of(s),
    decreases s.len(),
{
    if s.len() > 0 && class(s[0]) {
        let rest = s.drop_first();
        lemma_strip_start_suffix(rest, class);
        let out = strip_start(s, class);
        assert(s.subrange(s.len() - out.len(), s.len() as int) =~= rest.subrange(
            rest.len() - out.len(),
            rest.len() as int,
        ));
    } else {
        assert(s.subrange(0, s.len() as int) =~= s);
    }
}

proof fn lemma_strip_end_prefix(s: Seq<char>, class: spec_fn(char) -> bool)
    ensures
        strip_end(s, class).is_prefix_of(s),
    decreases s.len(),
{
    if s.len() > 0 && class(s.last()) {
        let rest = s.drop_last();
        lemma_strip_end_prefix(rest, class);
        let out = strip_end(s, class);
        assert(s.subrange(0, out.len() as int) =~= rest.subrange(0, out.len() as int));
    } else {
        assert(s.subrange(0, s.len() as int) =~= s);
    }
}

/// A stripped text is a stretch of the text.
pub proof fn stripped_texts_are_stretches(s: Seq<char>, class: spec_fn(char) -> bool)
    ensures
        exists|i: int|
            0 <= i && i + strip(s, class).len() <= s.len() && strip(s, class)
                == #[trigger] s.subrange(i, i + strip(s, class).len()),
{
    lemma_strip_start_suffix(s, class);
    lemma_strip_end_prefix(strip_start(s, class), class);
    let rest = strip_start(s, class);
    let at = s.len() - rest.len();
    assert(s.subrange(at, at + strip(s, class).len()) =~= strip(s, class));
}

/// A sign before the digits of a number says whether it is negative.
pub proof fn signs_come_before_the_digits(digits: Seq<char>)
    requires
        digits.len() > 0,
        digits[0] != '-',
        digits[0] != '+',
    ensures
        unsigned_value(digits) matches Some(n) ==> signed_value(digits) == Some(n as int)
            && signed_value(seq!['+'] + digits) == Some(n as int) && signed_value(
            seq!['-'] + digits,
        ) == Some(-(n as int)),
        unsigned_value(digits) is None ==> signed_value(digits) is None && signed_value(
            seq!['+'] + digits,
        ) is None && signed_value(seq!['-'] + digits) is None,
{
    assert((seq!['+'] + digits).skip(1) =~= digits);
    assert((seq!['-'] + digits).skip(1) =~= digits);
}

} // verus!
