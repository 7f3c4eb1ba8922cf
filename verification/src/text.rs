//! Text as sequences of characters: search, trimming, splitting and joining,
//! decimal and hexadecimal renderings.

use sha2::Digest;
use vstd::prelude::*;

verus! {

/// `String::push` appends one character.
pub assume_specification[ String::push ](s: &mut String, c: char)
    ensures
        final(s)@ == old(s)@.push(c),
;

/// What `str::to_lowercase` returns: the Unicode lowercase equivalent.
pub uninterp spec fn lowercase(text: Seq<char>) -> Seq<char>;

/// What `char::is_alphanumeric` returns: Unicode `Alphabetic` or a numeric category.
pub uninterp spec fn alphanumeric(c: char) -> bool;

/// What `sha2::Sha256::digest` returns for the bytes.
pub uninterp spec fn sha256(data: Seq<u8>) -> Seq<u8>;

/// `str::to_lowercase`; on ASCII text it maps `A`..`Z` to `a`..`z` and keeps the
/// rest, and no text has one of these capitals in lower case. What it does to
/// other text, and whether a second call changes anything, is not stated.
#[verifier::external_body]
pub(crate) fn unicode_lowercase(text: &str) -> (r: String)
    ensures
        r@ == lowercase(text@),
        all_ascii(text@) ==> r@ == ascii_lowercase(text@),
        no_ascii_capital(r@),
{
    text.to_lowercase()
}

/// `char::is_alphanumeric`; on ASCII it holds of letters and digits.
#[verifier::external_body]
pub(crate) fn char_is_alphanumeric(c: char) -> (r: bool)
    ensures
        r == alphanumeric(c),
        (c as u32) < 128 ==> r == (is_ascii_letter(c) || is_digit(c)),
{
    c.is_alphanumeric()
}

/// `sha2::Sha256::digest`: the 32 bytes of the SHA-256 digest.
#[verifier::external_body]
pub(crate) fn sha256_digest(data: &[u8]) -> (r: Vec<u8>)
    ensures
        r@ == sha256(data@),
        r@.len() == 32,
{
    sha2::Sha256::digest(data).to_vec()
}

/// The `White_Space` characters of Unicode.
pub open spec fn is_white_space(c: char) -> bool {
    let n = c as u32;
    ||| 9 <= n <= 13
    ||| n == 32
    ||| n == 0x85
    ||| n == 0xA0
    ||| n == 0x1680
    ||| 0x2000 <= n <= 0x200A
    ||| n == 0x2028
    ||| n == 0x2029
    ||| n == 0x202F
    ||| n == 0x205F
    ||| n == 0x3000
}

/// The control characters of Unicode (category `Cc`).
pub open spec fn is_control(c: char) -> bool {
    let n = c as u32;
    n <= 31 || 127 <= n <= 159
}

pub open spec fn is_digit(c: char) -> bool {
    48 <= c as u32 <= 57
}

pub open spec fn is_ascii_letter(c: char) -> bool {
    65 <= c as u32 <= 90 || 97 <= c as u32 <= 122
}

pub open spec fn all_ascii(s: Seq<char>) -> bool {
    forall|i: int| 0 <= i < s.len() ==> (#[trigger] s[i] as u32) < 128
}

pub open spec fn no_ascii_capital(s: Seq<char>) -> bool {
    forall|i: int| 0 <= i < s.len() ==> !(65 <= #[trigger] s[i] as u32 <= 90)
}

pub open spec fn ascii_lower(c: char) -> char {
    if 65 <= c as u32 <= 90 {
        (c as u32 + 32) as u8 as char
    } else {
        c
    }
}

pub open spec fn ascii_lowercase(s: Seq<char>) -> Seq<char> {
    Seq::new(s.len(), |i: int| ascii_lower(s[i]))
}

pub fn white_space(c: char) -> (r: bool)
    ensures
        r == is_white_space(c),
{
    let n: u32 = c as u32;
    (9 <= n && n <= 13) || n == 32 || n == 0x85 || n == 0xA0 || n == 0x1680 || (0x2000 <= n && n
        <= 0x200A) || n == 0x2028 || n == 0x2029 || n == 0x202F || n == 0x205F || n == 0x3000
}

pub fn control(c: char) -> (r: bool)
    ensures
        r == is_control(c),
{
    let n: u32 = c as u32;
    n <= 31 || (127 <= n && n <= 159)
}

pub fn digit(c: char) -> (r: bool)
    ensures
        r == is_digit(c),
{
    let n: u32 = c as u32;
    48 <= n && n <= 57
}

pub fn ascii_letter(c: char) -> (r: bool)
    ensures
        r == is_ascii_letter(c),
{
    let n: u32 = c as u32;
    (65 <= n && n <= 90) || (97 <= n && n <= 122)
}

/// The characters of a string slice.
pub fn chars_of(text: &str) -> (r: Vec<char>)
    ensures
        r@ == text@,
{
    let mut r: Vec<char> = Vec::new();
    for c in it: text.chars()
        invariant
            r@.len() == it.index(),
            forall|i: int| 0 <= i < r@.len() ==> r@[i] == it.seq()[i],
    {
        r.push(c);
    }
    r
}

/// A string of the given characters.
pub fn string_of(chars: &Vec<char>) -> (r: String)
    ensures
        r@ == chars@,
{
    let mut r = String::new();
    let mut i: usize = 0;
    while i < chars.len()
        invariant
            i <= chars@.len(),
            r@ == chars@.take(i as int),
        decreases chars@.len() - i,
    {
        r.push(chars[i]);
        proof {
            assert(chars@.take(i as int + 1) =~= chars@.take(i as int).push(chars@[i as int]));
        }
        i = i + 1;
    }
    proof {
        assert(chars@.take(chars@.len() as int) =~= chars@);
    }
    r
}

/// Whether two string slices hold the same characters.
pub fn same(a: &str, b: &str) -> (r: bool)
    ensures
        r == (a@ == b@),
{
    a.to_owned() == b.to_owned()
}

pub fn copy_chars(chars: &Vec<char>) -> (r: Vec<char>)
    ensures
        r@ == chars@,
{
    slice(chars, 0, chars.len())
}

/// The characters from `a` up to and without `b`.
pub fn slice(chars: &Vec<char>, a: usize, b: usize) -> (r: Vec<char>)
    requires
        a <= b <= chars@.len(),
    ensures
        r@ == chars@.subrange(a as int, b as int),
{
    let mut r: Vec<char> = Vec::new();
    let mut i: usize = a;
    while i < b
        invariant
            a <= i <= b <= chars@.len(),
            r@ == chars@.subrange(a as int, i as int),
        decreases b - i,
    {
        r.push(chars[i]);
        proof {
            assert(chars@.subrange(a as int, i as int + 1) =~= chars@.subrange(a as int, i as int).push(
                chars@[i as int],
            ));
        }
        i = i + 1;
    }
    r
}

/// `s` followed by `t`.
pub fn push_all(s: &mut Vec<char>, t: &Vec<char>)
    ensures
        final(s)@ == old(s)@ + t@,
{
    let ghost start = s@;
    let mut i: usize = 0;
    while i < t.len()
        invariant
            i <= t@.len(),
            s@ == start + t@.take(i as int),
        decreases t@.len() - i,
    {
        s.push(t[i]);
        proof {
            assert(t@.take(i as int + 1) =~= t@.take(i as int).push(t@[i as int]));
            assert(start + t@.take(i as int + 1) =~= (start + t@.take(i as int)).push(t@[i as int]));
        }
        i = i + 1;
    }
    proof {
        assert(t@.take(t@.len() as int) =~= t@);
    }
}

pub fn push_text(s: &mut Vec<char>, t: &str)
    ensures
        final(s)@ == old(s)@ + t@,
{
    let tv = chars_of(t);
    push_all(s, &tv);
}

/// `t` stands in `s` at index `i`.
pub open spec fn occurs_at(s: Seq<char>, t: Seq<char>, i: int) -> bool {
    &&& 0 <= i
    &&& i + t.len() <= s.len()
    &&& forall|k: int| 0 <= k < t.len() ==> s[i + k] == #[trigger] t[k]
}

/// `t` stands somewhere in `s`.
pub open spec fn contains(s: Seq<char>, t: Seq<char>) -> bool {
    exists|i: int| occurs_at(s, t, i)
}

pub open spec fn starts_with(s: Seq<char>, t: Seq<char>) -> bool {
    occurs_at(s, t, 0)
}

pub open spec fn ends_with(s: Seq<char>, t: Seq<char>) -> bool {
    occurs_at(s, t, s.len() - t.len())
}

pub fn match_at(s: &Vec<char>, t: &Vec<char>, i: usize) -> (r: bool)
    ensures
        r == occurs_at(s@, t@, i as int),
        t@.len() == 0 && i <= s@.len() ==> r,
{
    if i > s.len() || t.len() > s.len() - i {
        return false;
    }
    let mut k: usize = 0;
    while k < t.len()
        invariant
            k <= t@.len(),
            i + t@.len() <= s.len(),
            forall|j: int| 0 <= j < k ==> s@[i + j] == #[trigger] t@[j],
        decreases t@.len() - k,
    {
        if s[i + k] != t[k] {
            return false;
        }
        k = k + 1;
    }
    true
}

/// The first index from `from` on at which `t` stands in `s`.
pub fn find_from(s: &Vec<char>, t: &Vec<char>, from: usize) -> (r: Option<usize>)
    ensures
        match r {
            Some(i) => from <= i && occurs_at(s@, t@, i as int) && (forall|j: int|
                from <= j < i ==> !#[trigger] occurs_at(s@, t@, j)),
            None => forall|j: int| from <= j ==> !#[trigger] occurs_at(s@, t@, j),
        },
{
    let mut i: usize = from;
    while i <= s.len() && t.len() <= s.len() - i
        invariant
            from <= i,
            forall|j: int| from <= j < i ==> !#[trigger] occurs_at(s@, t@, j),
        decreases s@.len() + 1 - i,
    {
        if match_at(s, t, i) {
            return Some(i);
        }
        i = i + 1;
    }
    None
}

pub fn has(s: &Vec<char>, t: &str) -> (r: bool)
    ensures
        r == contains(s@, t@),
{
    let tv = chars_of(t);
    has_chars(s, &tv)
}

pub fn has_chars(s: &Vec<char>, t: &Vec<char>) -> (r: bool)
    ensures
        r == contains(s@, t@),
{
    match find_from(s, t, 0) {
        Some(i) => {
            assert(occurs_at(s@, t@, i as int));
            true
        },
        None => false,
    }
}

pub fn begins(s: &Vec<char>, t: &str) -> (r: bool)
    ensures
        r == starts_with(s@, t@),
{
    let tv = chars_of(t);
    match_at(s, &tv, 0)
}

pub fn ends(s: &Vec<char>, t: &str) -> (r: bool)
    ensures
        r == ends_with(s@, t@),
{
    let tv = chars_of(t);
    if tv.len() > s.len() {
        return false;
    }
    match_at(s, &tv, s.len() - tv.len())
}

pub fn equals(s: &Vec<char>, t: &str) -> (r: bool)
    ensures
        r == (s@ == t@),
{
    let tv = chars_of(t);
    same_chars(s, &tv)
}

pub fn same_chars(s: &Vec<char>, t: &Vec<char>) -> (r: bool)
    ensures
        r == (s@ == t@),
{
    if s.len() != t.len() {
        return false;
    }
    let r = match_at(s, t, 0);
    proof {
        if r {
            assert forall|k: int| 0 <= k < s@.len() implies s@[k] == t@[k] by {
                assert(s@[0 + k] == t@[k]);
            }
            assert(s@ =~= t@);
        }
    }
    r
}

pub fn lower_ascii(s: &Vec<char>) -> (r: Vec<char>)
    ensures
        r@ == ascii_lowercase(s@),
{
    let mut r: Vec<char> = Vec::new();
    let mut i: usize = 0;
    while i < s.len()
        invariant
            i <= s@.len(),
            r@.len() == i,
            forall|k: int| 0 <= k < i ==> r@[k] == ascii_lower(s@[k]),
        decreases s@.len() - i,
    {
        let c = s[i];
        let n: u32 = c as u32;
        if 65 <= n && n <= 90 {
            r.push((n + 32) as u8 as char);
        } else {
            r.push(c);
        }
        i = i + 1;
    }
    r
}

/// The Unicode lowercase form of a string slice, as characters.
pub fn lower(text: &str) -> (r: Vec<char>)
    ensures
        r@ == lowercase(text@),
        all_ascii(text@) ==> r@ == ascii_lowercase(text@),
        no_ascii_capital(r@),
{
    let lowered = unicode_lowercase(text);
    chars_of(lowered.as_str())
}

/// Without the white space at the front.
pub open spec fn trim_start(s: Seq<char>) -> Seq<char>
    decreases s.len(),
{
    if s.len() > 0 && is_white_space(s[0]) {
        trim_start(s.drop_first())
    } else {
        s
    }
}

/// Without the white space at the back.
pub open spec fn trim_end(s: Seq<char>) -> Seq<char>
    decreases s.len(),
{
    if s.len() > 0 && is_white_space(s.last()) {
        trim_end(s.drop_last())
    } else {
        s
    }
}

/// Without the white space at both ends.
pub open spec fn trim(s: Seq<char>) -> Seq<char> {
    trim_end(trim_start(s))
}

pub fn trimmed(s: &Vec<char>) -> (r: Vec<char>)
    ensures
        r@ == trim(s@),
{
    let mut i: usize = 0;
    proof {
        assert(s@.skip(0) =~= s@);
    }
    while i < s.len() && white_space(s[i])
        invariant
            i <= s@.len(),
            trim_start(s@) == trim_start(s@.skip(i as int)),
        decreases s@.len() - i,
    {
        proof {
            assert(s@.skip(i as int).drop_first() =~= s@.skip(i as int + 1));
        }
        i = i + 1;
    }
    let mut j: usize = s.len();
    proof {
        assert(s@.skip(i as int) =~= s@.subrange(i as int, j as int));
    }
    while j > i && white_space(s[j - 1])
        invariant
            i <= j <= s@.len(),
            trim_end(trim_start(s@)) == trim_end(s@.subrange(i as int, j as int)),
        decreases j,
    {
        proof {
            let cut = s@.subrange(i as int, j as int);
            assert(cut.drop_last() =~= s@.subrange(i as int, j as int - 1));
            assert(cut.last() == s@[j as int - 1]);
        }
        j = j - 1;
    }
    proof {
        let cut = s@.subrange(i as int, j as int);
        if j > i {
            assert(cut.last() == s@[j as int - 1]);
        }
    }
    slice(s, i, j)
}

pub fn trim_text(text: &str) -> (r: String)
    ensures
        r@ == trim(text@),
{
    let v = chars_of(text);
    let t = trimmed(&v);
    string_of(&t)
}

/// After the first `n` characters: the finished runs and the open one.
pub open spec fn run_state(s: Seq<char>, keep: Seq<bool>, n: int) -> (Seq<Seq<char>>, Seq<char>)
    decreases n,
{
    if n <= 0 {
        (Seq::empty(), Seq::empty())
    } else {
        let (done, open) = run_state(s, keep, n - 1);
        if keep[n - 1] {
            (done, open.push(s[n - 1]))
        } else if open.len() > 0 {
            (done.push(open), Seq::empty())
        } else {
            (done, open)
        }
    }
}

/// The maximal runs of the characters of `s` that `keep` marks, in order.
pub open spec fn runs(s: Seq<char>, keep: Seq<bool>) -> Seq<Seq<char>> {
    let (done, open) = run_state(s, keep, s.len() as int);
    if open.len() > 0 {
        done.push(open)
    } else {
        done
    }
}

/// The texts that a sequence of character vectors holds.
pub open spec fn texts(v: Seq<Vec<char>>) -> Seq<Seq<char>> {
    Seq::new(v.len(), |i: int| v[i]@)
}

/// The texts that a sequence of strings holds.
pub open spec fn strings(v: Seq<String>) -> Seq<Seq<char>> {
    Seq::new(v.len(), |i: int| v[i]@)
}

pub fn runs_of(s: &Vec<char>, keep: &Vec<bool>) -> (r: Vec<Vec<char>>)
    requires
        keep@.len() == s@.len(),
    ensures
        texts(r@) == runs(s@, keep@),
{
    let mut done: Vec<Vec<char>> = Vec::new();
    let mut open: Vec<char> = Vec::new();
    let mut i: usize = 0;
    while i < s.len()
        invariant
            i <= s@.len(),
            keep@.len() == s@.len(),
            texts(done@) == run_state(s@, keep@, i as int).0,
            open@ == run_state(s@, keep@, i as int).1,
        decreases s@.len() - i,
    {
        if keep[i] {
            open.push(s[i]);
        } else if open.len() > 0 {
            let ghost before = done@;
            let ghost word = open@;
            done.push(open);
            open = Vec::new();
            proof {
                assert(texts(done@) =~= texts(before).push(word));
                assert(open@ =~= Seq::<char>::empty());
            }
        }
        i = i + 1;
    }
    if open.len() > 0 {
        let ghost before = done@;
        let ghost word = open@;
        done.push(open);
        proof {
            assert(texts(done@) =~= texts(before).push(word));
        }
    }
    done
}

pub open spec fn non_space_marks(s: Seq<char>) -> Seq<bool> {
    Seq::new(s.len(), |i: int| !is_white_space(s[i]))
}

/// The words of a text: its maximal runs without white space.
pub open spec fn words(s: Seq<char>) -> Seq<Seq<char>> {
    runs(s, non_space_marks(s))
}

pub fn words_of(s: &Vec<char>) -> (r: Vec<Vec<char>>)
    ensures
        texts(r@) == words(s@),
{
    let mut keep: Vec<bool> = Vec::new();
    let mut i: usize = 0;
    while i < s.len()
        invariant
            i <= s@.len(),
            keep@.len() == i,
            forall|k: int| 0 <= k < i ==> keep@[k] == !is_white_space(s@[k]),
        decreases s@.len() - i,
    {
        keep.push(!white_space(s[i]));
        i = i + 1;
    }
    proof {
        assert(keep@ =~= non_space_marks(s@));
    }
    runs_of(s, &keep)
}

/// The parts one after the other with `sep` between two.
pub open spec fn join(parts: Seq<Seq<char>>, sep: Seq<char>) -> Seq<char>
    decreases parts.len(),
{
    if parts.len() == 0 {
        Seq::empty()
    } else if parts.len() == 1 {
        parts[0]
    } else {
        join(parts.drop_last(), sep) + sep + parts.last()
    }
}

pub fn join_chars(parts: &Vec<Vec<char>>, sep: &str) -> (r: Vec<char>)
    ensures
        r@ == join(texts(parts@), sep@),
{
    let sv = chars_of(sep);
    let mut r: Vec<char> = Vec::new();
    let mut i: usize = 0;
    while i < parts.len()
        invariant
            i <= parts@.len(),
            sv@ == sep@,
            r@ == join(texts(parts@).take(i as int), sep@),
        decreases parts@.len() - i,
    {
        proof {
            let next = texts(parts@).take(i as int + 1);
            assert(next.drop_last() =~= texts(parts@).take(i as int));
            assert(next.last() == parts@[i as int]@);
        }
        if i > 0 {
            push_all(&mut r, &sv);
            push_all(&mut r, &parts[i]);
        } else {
            r = copy_chars(&parts[i]);
        }
        i = i + 1;
    }
    proof {
        assert(texts(parts@).take(parts@.len() as int) =~= texts(parts@));
    }
    r
}

/// The words with one space between two.
pub open spec fn collapse(s: Seq<char>) -> Seq<char> {
    join(words(s), " "@)
}

pub fn collapsed(s: &Vec<char>) -> (r: Vec<char>)
    ensures
        r@ == collapse(s@),
{
    let parts = words_of(s);
    join_chars(&parts, " ")
}

/// After the first `n` characters: the finished pieces and the open one.
pub open spec fn split_state(s: Seq<char>, sep: char, n: int) -> (Seq<Seq<char>>, Seq<char>)
    decreases n,
{
    if n <= 0 {
        (Seq::empty(), Seq::empty())
    } else {
        let (done, open) = split_state(s, sep, n - 1);
        if s[n - 1] == sep {
            (done.push(open), Seq::empty())
        } else {
            (done, open.push(s[n - 1]))
        }
    }
}

/// The pieces of `s` between the characters `sep`, empty ones among them.
pub open spec fn split(s: Seq<char>, sep: char) -> Seq<Seq<char>> {
    let (done, open) = split_state(s, sep, s.len() as int);
    done.push(open)
}

pub fn split_of(s: &Vec<char>, sep: char) -> (r: Vec<Vec<char>>)
    ensures
        texts(r@) == split(s@, sep),
        r@.len() > 0,
{
    let mut done: Vec<Vec<char>> = Vec::new();
    let mut open: Vec<char> = Vec::new();
    let mut i: usize = 0;
    while i < s.len()
        invariant
            i <= s@.len(),
            texts(done@) == split_state(s@, sep, i as int).0,
            open@ == split_state(s@, sep, i as int).1,
        decreases s@.len() - i,
    {
        if s[i] == sep {
            let ghost before = done@;
            let ghost piece = open@;
            done.push(open);
            open = Vec::new();
            proof {
                assert(texts(done@) =~= texts(before).push(piece));
                assert(open@ =~= Seq::<char>::empty());
            }
        } else {
            open.push(s[i]);
        }
        i = i + 1;
    }
    let ghost before = done@;
    let ghost piece = open@;
    done.push(open);
    proof {
        assert(texts(done@) =~= texts(before).push(piece));
    }
    done
}

pub open spec fn digit_char(d: nat) -> char {
    (48 + d) as u8 as char
}

/// The decimal rendering of a number.
pub open spec fn decimal(n: nat) -> Seq<char>
    decreases n,
{
    if n < 10 {
        seq![digit_char(n)]
    } else {
        decimal(n / 10).push(digit_char(n % 10))
    }
}

pub fn decimal_of(n: u64) -> (r: Vec<char>)
    ensures
        r@ == decimal(n as nat),
{
    decimal_of_size(n as u128)
}

pub fn decimal_of_size(n: u128) -> (r: Vec<char>)
    ensures
        r@ == decimal(n as nat),
    decreases n,
{
    if n < 10 {
        let mut r: Vec<char> = Vec::new();
        r.push((48 + n) as u8 as char);
        proof {
            assert(r@ =~= seq![digit_char(n as nat)]);
        }
        r
    } else {
        let mut r = decimal_of_size(n / 10);
        r.push((48 + n % 10) as u8 as char);
        r
    }
}

pub open spec fn hex_digit(d: u8) -> char {
    if d < 10 {
        (48 + d) as u8 as char
    } else {
        (87 + d) as u8 as char
    }
}

/// Two lowercase hexadecimal digits per byte.
pub open spec fn hex(bytes: Seq<u8>) -> Seq<char>
    decreases bytes.len(),
{
    if bytes.len() == 0 {
        Seq::empty()
    } else {
        hex(bytes.drop_last()).push(hex_digit(bytes.last() / 16)).push(hex_digit(bytes.last() % 16))
    }
}

fn hex_char(d: u8) -> (r: char)
    requires
        d < 16,
    ensures
        r == hex_digit(d),
{
    if d < 10 {
        (48 + d) as char
    } else {
        (87 + d) as char
    }
}

pub fn hex_of(bytes: &Vec<u8>) -> (r: Vec<char>)
    ensures
        r@ == hex(bytes@),
{
    let mut r: Vec<char> = Vec::new();
    let mut i: usize = 0;
    while i < bytes.len()
        invariant
            i <= bytes@.len(),
            r@ == hex(bytes@.take(i as int)),
        decreases bytes@.len() - i,
    {
        let b: u8 = bytes[i];
        r.push(hex_char(b / 16));
        r.push(hex_char(b % 16));
        proof {
            let next = bytes@.take(i as int + 1);
            assert(next.drop_last() =~= bytes@.take(i as int));
            assert(next.last() == b);
        }
        i = i + 1;
    }
    proof {
        assert(bytes@.take(bytes@.len() as int) =~= bytes@);
    }
    r
}

/// The first `n` characters, all of them where there are fewer.
pub open spec fn prefix(s: Seq<char>, n: int) -> Seq<char> {
    if s.len() <= n {
        s
    } else {
        s.take(n)
    }
}

pub fn prefix_of(s: &Vec<char>, n: usize) -> (r: Vec<char>)
    ensures
        r@ == prefix(s@, n as int),
{
    if s.len() <= n {
        copy_chars(s)
    } else {
        proof {
            assert(s@.take(n as int) =~= s@.subrange(0, n as int));
        }
        slice(s, 0, n)
    }
}

/// The lowercase hexadecimal SHA-256 digest of the UTF-8 bytes of a text.
pub open spec fn sha256_text(text: Seq<char>) -> Seq<char> {
    hex(sha256(vstd::utf8::encode_utf8(text)))
}

/// Lowercase hexadecimal digits and nothing else.
pub open spec fn all_hex(s: Seq<char>) -> bool {
    forall|i: int|
        0 <= i < s.len() ==> is_digit(#[trigger] s[i]) || 97 <= s[i] as u32 <= 102
}

/// The text of a digest: 64 hexadecimal digits.
pub open spec fn is_digest_text(s: Seq<char>) -> bool {
    s.len() == 64 && all_hex(s)
}

pub proof fn hex_is_hexadecimal(bytes: Seq<u8>)
    ensures
        hex(bytes).len() == 2 * bytes.len(),
        all_hex(hex(bytes)),
    decreases bytes.len(),
{
    if bytes.len() > 0 {
        let before = hex(bytes.drop_last());
        hex_is_hexadecimal(bytes.drop_last());
        assert forall|i: int| 0 <= i < hex(bytes).len() implies is_digit(#[trigger] hex(bytes)[i])
            || 97 <= hex(bytes)[i] as u32 <= 102 by {
            if i < before.len() {
                assert(hex(bytes)[i] == before[i]);
            }
        }
    }
}

pub fn sha256_str(s: &str) -> (r: String)
    ensures
        r@ == sha256_text(s@),
        is_digest_text(r@),
{
    let digest = sha256_digest(s.as_bytes());
    proof {
        hex_is_hexadecimal(digest@);
    }
    let text = hex_of(&digest);
    string_of(&text)
}

/// One of the terms stands in the text.
pub open spec fn contains_any(value: Seq<char>, terms: Seq<&str>) -> bool {
    exists|i: int| 0 <= i < terms.len() && contains(value, #[trigger] terms[i]@)
}

pub fn any_term(value: &Vec<char>, terms: &[&str]) -> (r: bool)
    ensures
        r == contains_any(value@, terms@),
{
    let mut i: usize = 0;
    while i < terms.len()
        invariant
            i <= terms@.len(),
            forall|k: int| 0 <= k < i ==> !contains(value@, #[trigger] terms@[k]@),
        decreases terms@.len() - i,
    {
        if has(value, terms[i]) {
            assert(contains(value@, terms@[i as int]@));
            return true;
        }
        i = i + 1;
    }
    false
}

/// The text is one of the terms.
pub open spec fn is_one_of(value: Seq<char>, terms: Seq<&str>) -> bool {
    exists|i: int| 0 <= i < terms.len() && value == #[trigger] terms[i]@
}

pub fn one_of(value: &Vec<char>, terms: &[&str]) -> (r: bool)
    ensures
        r == is_one_of(value@, terms@),
{
    let mut i: usize = 0;
    while i < terms.len()
        invariant
            i <= terms@.len(),
            forall|k: int| 0 <= k < i ==> value@ != #[trigger] terms@[k]@,
        decreases terms@.len() - i,
    {
        if equals(value, terms[i]) {
            assert(value@ == terms@[i as int]@);
            return true;
        }
        i = i + 1;
    }
    false
}

/// How many of the terms stand in the text.
pub open spec fn count_terms(value: Seq<char>, terms: Seq<&str>) -> nat
    decreases terms.len(),
{
    if terms.len() == 0 {
        0
    } else {
        count_terms(value, terms.drop_last()) + if contains(value, terms.last()@) {
            1nat
        } else {
            0nat
        }
    }
}

pub fn terms_found(value: &Vec<char>, terms: &[&str]) -> (r: usize)
    ensures
        r == count_terms(value@, terms@),
        r <= terms@.len(),
{
    let mut n: usize = 0;
    let mut i: usize = 0;
    proof {
        assert(terms@.take(0) =~= Seq::<&str>::empty());
    }
    while i < terms.len()
        invariant
            i <= terms@.len(),
            n <= i,
            n == count_terms(value@, terms@.take(i as int)),
        decreases terms@.len() - i,
    {
        proof {
            let next = terms@.take(i as int + 1);
            assert(next.drop_last() =~= terms@.take(i as int));
            assert(next.last() == terms@[i as int]);
        }
        if has(value, terms[i]) {
            n = n + 1;
        }
        i = i + 1;
    }
    proof {
        assert(terms@.take(terms@.len() as int) =~= terms@);
    }
    n
}

/// `i` is the first index at which `t` stands in `s`.
pub open spec fn is_first(s: Seq<char>, t: Seq<char>, i: int) -> bool {
    occurs_at(s, t, i) && forall|j: int| 0 <= j < i ==> !#[trigger] occurs_at(s, t, j)
}

pub open spec fn first_index(s: Seq<char>, t: Seq<char>) -> int {
    choose|i: int| is_first(s, t, i)
}

/// The first index at which `t` stands in `s`.
pub fn find(s: &Vec<char>, t: &str) -> (r: Option<usize>)
    ensures
        match r {
            Some(i) => contains(s@, t@) && i == first_index(s@, t@) && i + t@.len() <= s.len(),
            None => !contains(s@, t@),
        },
{
    let tv = chars_of(t);
    let found = find_from(s, &tv, 0);
    proof {
        if let Some(i) = found {
            assert(is_first(s@, t@, i as int));
            let f = first_index(s@, t@);
            assert(is_first(s@, t@, f));
            if f < i {
                assert(!occurs_at(s@, t@, f));
            }
            if (i as int) < f {
                assert(!occurs_at(s@, t@, i as int));
            }
        }
    }
    found
}

/// The first index of a character.
pub fn find_char(s: &Vec<char>, c: char, from: usize) -> (r: Option<usize>)
    ensures
        match r {
            Some(i) => from <= i < s@.len() && s@[i as int] == c && (forall|j: int|
                from <= j < i ==> s@[j] != c),
            None => forall|j: int| from <= j < s@.len() ==> s@[j] != c,
        },
{
    let mut i: usize = from;
    while i < s.len()
        invariant
            from <= i,
            forall|j: int| from <= j < i && j < s@.len() ==> s@[j] != c,
        decreases s@.len() - i,
    {
        if s[i] == c {
            return Some(i);
        }
        i = i + 1;
    }
    None
}

pub open spec fn has_char(s: Seq<char>, c: char) -> bool {
    exists|i: int| 0 <= i < s.len() && s[i] == c
}

pub fn contains_char(s: &Vec<char>, c: char) -> (r: bool)
    ensures
        r == has_char(s@, c),
{
    match find_char(s, c, 0) {
        Some(i) => {
            assert(s@[i as int] == c);
            true
        },
        None => false,
    }
}

/// A decimal digit stands in the text.
pub open spec fn has_digit(s: Seq<char>) -> bool {
    exists|i: int| 0 <= i < s.len() && is_digit(#[trigger] s[i])
}

pub fn any_digit(s: &Vec<char>) -> (r: bool)
    ensures
        r == has_digit(s@),
{
    let mut i: usize = 0;
    while i < s.len()
        invariant
            i <= s@.len(),
            forall|k: int| 0 <= k < i ==> !is_digit(#[trigger] s@[k]),
        decreases s@.len() - i,
    {
        if digit(s[i]) {
            assert(is_digit(s@[i as int]));
            return true;
        }
        i = i + 1;
    }
    false
}

/// The decimal digits of a text, in order.
pub open spec fn digits_of(s: Seq<char>) -> Seq<char>
    decreases s.len(),
{
    if s.len() == 0 {
        s
    } else if is_digit(s.last()) {
        digits_of(s.drop_last()).push(s.last())
    } else {
        digits_of(s.drop_last())
    }
}

pub fn only_digits(s: &Vec<char>) -> (r: Vec<char>)
    ensures
        r@ == digits_of(s@),
{
    let mut r: Vec<char> = Vec::new();
    let mut i: usize = 0;
    proof {
        assert(s@.take(0) =~= Seq::<char>::empty());
        assert(r@ =~= digits_of(s@.take(0)));
    }
    while i < s.len()
        invariant
            i <= s@.len(),
            r@ == digits_of(s@.take(i as int)),
        decreases s@.len() - i,
    {
        proof {
            let next = s@.take(i as int + 1);
            assert(next.drop_last() =~= s@.take(i as int));
            assert(next.last() == s@[i as int]);
        }
        if digit(s[i]) {
            r.push(s[i]);
        }
        i = i + 1;
    }
    proof {
        assert(s@.take(s@.len() as int) =~= s@);
    }
    r
}

/// Without the characters of a class at the front.
pub open spec fn strip_start(s: Seq<char>, class: spec_fn(char) -> bool) -> Seq<char>
    decreases s.len(),
{
    if s.len() > 0 && class(s[0]) {
        strip_start(s.drop_first(), class)
    } else {
        s
    }
}

/// Without the characters of a class at the back.
pub open spec fn strip_end(s: Seq<char>, class: spec_fn(char) -> bool) -> Seq<char>
    decreases s.len(),
{
    if s.len() > 0 && class(s.last()) {
        strip_end(s.drop_last(), class)
    } else {
        s
    }
}

/// Without the characters of a class at both ends.
pub open spec fn strip(s: Seq<char>, class: spec_fn(char) -> bool) -> Seq<char> {
    strip_end(strip_start(s, class), class)
}

pub(crate) fn strip_marked(
    s: &Vec<char>,
    marks: &Vec<bool>,
    Ghost(class): Ghost<spec_fn(char) -> bool>,
) -> (r: Vec<char>)
    requires
        marks@.len() == s@.len(),
        forall|i: int| 0 <= i < s@.len() ==> #[trigger] marks@[i] == class(s@[i]),
    ensures
        r@ == strip(s@, class),
{
    let mut i: usize = 0;
    proof {
        assert(s@.skip(0) =~= s@);
    }
    while i < s.len() && marks[i]
        invariant
            i <= s@.len(),
            marks@.len() == s@.len(),
            forall|k: int| 0 <= k < s@.len() ==> #[trigger] marks@[k] == class(s@[k]),
            strip_start(s@, class) == strip_start(s@.skip(i as int), class),
        decreases s@.len() - i,
    {
        proof {
            assert(s@.skip(i as int).drop_first() =~= s@.skip(i as int + 1));
        }
        i = i + 1;
    }
    let mut j: usize = s.len();
    proof {
        assert(s@.skip(i as int) =~= s@.subrange(i as int, j as int));
    }
    while j > i && marks[j - 1]
        invariant
            i <= j <= s@.len(),
            marks@.len() == s@.len(),
            forall|k: int| 0 <= k < s@.len() ==> #[trigger] marks@[k] == class(s@[k]),
            strip(s@, class) == strip_end(s@.subrange(i as int, j as int), class),
        decreases j,
    {
        proof {
            let cut = s@.subrange(i as int, j as int);
            assert(cut.drop_last() =~= s@.subrange(i as int, j as int - 1));
            assert(cut.last() == s@[j as int - 1]);
        }
        j = j - 1;
    }
    proof {
        let cut = s@.subrange(i as int, j as int);
        if j > i {
            assert(cut.last() == s@[j as int - 1]);
        }
    }
    slice(s, i, j)
}

pub open spec fn all_digits(s: Seq<char>) -> bool {
    forall|i: int| 0 <= i < s.len() ==> is_digit(#[trigger] s[i])
}

/// The number that a sequence of decimal digits denotes.
pub open spec fn digits_value(s: Seq<char>) -> nat
    decreases s.len(),
{
    if s.len() == 0 {
        0
    } else {
        digits_value(s.drop_last()) * 10 + (s.last() as u32 - 48) as nat
    }
}

/// The number that a text of one or more decimal digits denotes.
pub open spec fn unsigned_value(s: Seq<char>) -> Option<nat> {
    if s.len() > 0 && all_digits(s) {
        Some(digits_value(s))
    } else {
        None
    }
}

proof fn lemma_digits_value_grows(s: Seq<char>, n: int)
    requires
        0 <= n <= s.len(),
        all_digits(s),
    ensures
        digits_value(s.take(n)) <= digits_value(s),
    decreases s.len(),
{
    if n < s.len() {
        let rest = s.drop_last();
        assert(rest.take(n) =~= s.take(n));
        lemma_digits_value_grows(rest, n);
        assert(is_digit(s[s.len() - 1]));
        assert(digits_value(rest) <= digits_value(rest) * 10) by (nonlinear_arith);
    } else {
        assert(s.take(n) =~= s);
    }
}

/// The number that the text denotes, where it is at most `max`.
pub fn parse_unsigned(s: &Vec<char>, max: u64) -> (r: Option<u64>)
    ensures
        match r {
            Some(v) => unsigned_value(s@) == Some(v as nat) && v <= max,
            None => match unsigned_value(s@) {
                Some(v) => v > max,
                None => true,
            },
        },
{
    if s.len() == 0 {
        return None;
    }
    let mut k: usize = 0;
    while k < s.len()
        invariant
            k <= s@.len(),
            forall|i: int| 0 <= i < k ==> is_digit(#[trigger] s@[i]),
        decreases s@.len() - k,
    {
        if !digit(s[k]) {
            assert(!is_digit(s@[k as int]));
            return None;
        }
        k = k + 1;
    }
    let mut value: u128 = 0;
    let mut i: usize = 0;
    proof {
        assert(s@.take(0) =~= Seq::<char>::empty());
    }
    while i < s.len()
        invariant
            i <= s@.len(),
            s@.len() > 0,
            all_digits(s@),
            value == digits_value(s@.take(i as int)),
            value <= max,
        decreases s@.len() - i,
    {
        proof {
            let next = s@.take(i as int + 1);
            assert(next.drop_last() =~= s@.take(i as int));
            assert(next.last() == s@[i as int]);
            assert(is_digit(s@[i as int]));
            lemma_digits_value_grows(s@, i as int + 1);
        }
        value = value * 10 + (s[i] as u32 - 48) as u128;
        if value > max as u128 {
            return None;
        }
        i = i + 1;
    }
    proof {
        assert(s@.take(s@.len() as int) =~= s@);
    }
    Some(value as u64)
}

/// The number that a text denotes, with or without a plus sign.
pub open spec fn number_of(s: Seq<char>) -> Option<nat> {
    if s.len() > 0 && s[0] == '+' {
        unsigned_value(s.skip(1))
    } else {
        unsigned_value(s)
    }
}

/// The number that the text denotes, with or without a plus sign, where it is at
/// most `max`.
pub fn parse_number(s: &Vec<char>, max: u64) -> (r: Option<u64>)
    ensures
        match r {
            Some(v) => number_of(s@) == Some(v as nat) && v <= max,
            None => match number_of(s@) {
                Some(v) => v > max,
                None => true,
            },
        },
{
    if s.len() > 0 && s[0] == '+' {
        let rest = slice(s, 1, s.len());
        proof {
            assert(rest@ =~= s@.skip(1));
        }
        parse_unsigned(&rest, max)
    } else {
        parse_unsigned(s, max)
    }
}

/// The number that an optional sign and one or more decimal digits denote.
pub open spec fn signed_value(s: Seq<char>) -> Option<int> {
    if s.len() > 0 && s[0] == '-' {
        match unsigned_value(s.skip(1)) {
            Some(v) => Some(-(v as int)),
            None => None,
        }
    } else if s.len() > 0 && s[0] == '+' {
        match unsigned_value(s.skip(1)) {
            Some(v) => Some(v as int),
            None => None,
        }
    } else {
        match unsigned_value(s) {
            Some(v) => Some(v as int),
            None => None,
        }
    }
}

/// The signed number that the text denotes, where it lies in `-limit - 1 ..= limit`.
pub fn parse_signed(s: &Vec<char>, limit: u64) -> (r: Option<i64>)
    requires
        limit <= i64::MAX,
    ensures
        match r {
            Some(v) => signed_value(s@) == Some(v as int) && -limit - 1 <= v <= limit,
            None => match signed_value(s@) {
                Some(v) => v > limit || v < -limit - 1,
                None => true,
            },
        },
{
    if s.len() > 0 && (s[0] == '-' || s[0] == '+') {
        let rest = slice(s, 1, s.len());
        proof {
            assert(rest@ =~= s@.skip(1));
        }
        let negative = s[0] == '-';
        let bound: u64 = if negative {
            limit + 1
        } else {
            limit
        };
        match parse_unsigned(&rest, bound) {
            Some(v) => if negative {
                Some((-(v as i128)) as i64)
            } else {
                Some(v as i64)
            },
            None => None,
        }
    } else {
        match parse_unsigned(s, limit) {
            Some(v) => Some(v as i64),
            None => None,
        }
    }
}

/// Printable ASCII without the space.
pub open spec fn all_graphic(s: Seq<char>) -> bool {
    forall|i: int| 0 <= i < s.len() ==> 33 <= (#[trigger] s[i] as u32) <= 126
}

pub proof fn lemma_graphic_concat(a: Seq<char>, b: Seq<char>)
    requires
        all_graphic(a),
        all_graphic(b),
    ensures
        all_graphic(a + b),
{
    assert forall|i: int| 0 <= i < (a + b).len() implies 33 <= (#[trigger] (a + b)[i] as u32)
        <= 126 by {
        if i < a.len() {
            assert((a + b)[i] == a[i]);
        } else {
            assert((a + b)[i] == b[i - a.len()]);
        }
    }
}

pub proof fn lemma_hex_graphic(bytes: Seq<u8>)
    ensures
        all_graphic(hex(bytes)),
        hex(bytes).len() == 2 * bytes.len(),
    decreases bytes.len(),
{
    if bytes.len() > 0 {
        lemma_hex_graphic(bytes.drop_last());
    }
}

pub proof fn lemma_decimal_graphic(n: nat)
    ensures
        all_graphic(decimal(n)),
        decimal(n).len() > 0,
    decreases n,
{
    if n >= 10 {
        lemma_decimal_graphic(n / 10);
    }
}

/// Without every leading repetition of a prefix.
pub open spec fn without_prefix(s: Seq<char>, p: Seq<char>) -> Seq<char>
    decreases s.len(),
{
    if p.len() > 0 && starts_with(s, p) {
        without_prefix(s.skip(p.len() as int), p)
    } else {
        s
    }
}

pub fn drop_prefix(s: &Vec<char>, p: &str) -> (r: Vec<char>)
    ensures
        r@ == without_prefix(s@, p@),
{
    let pv = chars_of(p);
    let mut i: usize = 0;
    proof {
        assert(s@.skip(0) =~= s@);
    }
    if pv.len() == 0 {
        return copy_chars(s);
    }
    while match_at(s, &pv, i)
        invariant
            i <= s@.len(),
            pv@ == p@,
            pv@.len() > 0,
            without_prefix(s@, p@) == without_prefix(s@.skip(i as int), p@),
        decreases s@.len() - i,
    {
        proof {
            let rest = s@.skip(i as int);
            assert(starts_with(rest, p@)) by {
                assert forall|k: int| 0 <= k < p@.len() implies rest[0 + k] == #[trigger] p@[k] by {
                    assert(s@[i + k] == pv@[k]);
                }
            }
            assert(rest.skip(p@.len() as int) =~= s@.skip(i + p@.len()));
        }
        assert(i + pv@.len() <= s.len());
        i = i + pv.len();
    }
    proof {
        let rest = s@.skip(i as int);
        if starts_with(rest, p@) {
            assert forall|k: int| 0 <= k < pv@.len() implies s@[i + k] == #[trigger] pv@[k] by {
                assert(rest[0 + k] == p@[k]);
            }
            assert(occurs_at(s@, pv@, i as int));
        }
        assert(rest =~= s@.subrange(i as int, s@.len() as int));
    }
    slice(s, i, s.len())
}

/// Without every occurrence of a character.
pub open spec fn without_char(s: Seq<char>, c: char) -> Seq<char>
    decreases s.len(),
{
    if s.len() == 0 {
        s
    } else if s.last() == c {
        without_char(s.drop_last(), c)
    } else {
        without_char(s.drop_last(), c).push(s.last())
    }
}

pub fn drop_char(s: &Vec<char>, c: char) -> (r: Vec<char>)
    ensures
        r@ == without_char(s@, c),
{
    let mut r: Vec<char> = Vec::new();
    let mut i: usize = 0;
    proof {
        assert(s@.take(0) =~= Seq::<char>::empty());
        assert(r@ =~= without_char(s@.take(0), c));
    }
    while i < s.len()
        invariant
            i <= s@.len(),
            r@ == without_char(s@.take(i as int), c),
        decreases s@.len() - i,
    {
        proof {
            let next = s@.take(i as int + 1);
            assert(next.drop_last() =~= s@.take(i as int));
            assert(next.last() == s@[i as int]);
        }
        if s[i] != c {
            r.push(s[i]);
        }
        i = i + 1;
    }
    proof {
        assert(s@.take(s@.len() as int) =~= s@);
    }
    r
}

/// A text list holds a text.
pub open spec fn holds(list: Seq<Seq<char>>, item: Seq<char>) -> bool {
    exists|i: int| 0 <= i < list.len() && #[trigger] list[i] == item
}

pub fn contains_text(list: &Vec<Vec<char>>, item: &Vec<char>) -> (r: bool)
    ensures
        r == holds(texts(list@), item@),
{
    let mut i: usize = 0;
    while i < list.len()
        invariant
            i <= list@.len(),
            forall|k: int| 0 <= k < i ==> #[trigger] texts(list@)[k] != item@,
        decreases list@.len() - i,
    {
        if same_chars(&list[i], item) {
            assert(texts(list@)[i as int] == item@);
            return true;
        }
        i = i + 1;
    }
    false
}

/// `i` is the first index from `pos` on at which `t` stands in `s`.
pub open spec fn is_first_from(s: Seq<char>, t: Seq<char>, pos: int, i: int) -> bool {
    &&& pos <= i
    &&& occurs_at(s, t, i)
    &&& forall|j: int| pos <= j < i ==> !#[trigger] occurs_at(s, t, j)
}

/// The first index from `pos` on at which `t` stands in `s`.
pub open spec fn seek(s: Seq<char>, t: Seq<char>, pos: int) -> Option<int> {
    if exists|i: int| is_first_from(s, t, pos, i) {
        Some(choose|i: int| is_first_from(s, t, pos, i))
    } else {
        None
    }
}

pub fn seek_from(s: &Vec<char>, t: &str, pos: usize) -> (r: Option<usize>)
    ensures
        match r {
            Some(i) => seek(s@, t@, pos as int) == Some(i as int) && pos <= i && i + t@.len()
                <= s.len(),
            None => seek(s@, t@, pos as int) is None,
        },
{
    let tv = chars_of(t);
    let found = find_from(s, &tv, pos);
    proof {
        match found {
            Some(i) => {
                assert(is_first_from(s@, t@, pos as int, i as int));
                let c = choose|c: int| is_first_from(s@, t@, pos as int, c);
                if c < i {
                    assert(!occurs_at(s@, t@, c));
                }
                if (i as int) < c {
                    assert(!occurs_at(s@, t@, i as int));
                }
            },
            None => {
                assert forall|i: int| !is_first_from(s@, t@, pos as int, i) by {
                    if pos <= i {
                        assert(!occurs_at(s@, t@, i));
                    }
                }
            },
        }
    }
    found
}

/// Every occurrence of `p` replaced by `w`, from left to right.
pub open spec fn replaced(s: Seq<char>, p: Seq<char>, w: Seq<char>) -> Seq<char>
    decreases s.len(),
{
    if s.len() == 0 || p.len() == 0 {
        s
    } else if starts_with(s, p) {
        w + replaced(s.skip(p.len() as int), p, w)
    } else {
        seq![s[0]] + replaced(s.drop_first(), p, w)
    }
}

pub fn replace(s: &Vec<char>, p: &str, w: &str) -> (r: Vec<char>)
    ensures
        r@ == replaced(s@, p@, w@),
{
    let pv = chars_of(p);
    let wv = chars_of(w);
    if pv.len() == 0 {
        return copy_chars(s);
    }
    let mut out: Vec<char> = Vec::new();
    let mut i: usize = 0;
    proof {
        assert(s@.skip(0) =~= s@);
        assert(out@ + replaced(s@, p@, w@) =~= replaced(s@, p@, w@));
    }
    while i < s.len()
        invariant
            i <= s@.len(),
            pv@ == p@,
            wv@ == w@,
            pv@.len() > 0,
            out@ + replaced(s@.skip(i as int), p@, w@) == replaced(s@, p@, w@),
        decreases s@.len() - i,
    {
        let ghost rest = s@.skip(i as int);
        let ghost before = out@;
        if match_at(s, &pv, i) {
            proof {
                assert(starts_with(rest, p@)) by {
                    assert forall|k: int| 0 <= k < p@.len() implies rest[0 + k] == #[trigger] p@[k] by {
                        assert(s@[i + k] == pv@[k]);
                    }
                }
                assert(rest.skip(p@.len() as int) =~= s@.skip(i + p@.len()));
            }
            push_all(&mut out, &wv);
            assert(i + pv@.len() <= s.len());
            i = i + pv.len();
            proof {
                assert(out@ + replaced(s@.skip(i as int), p@, w@) =~= before + (w@ + replaced(
                    s@.skip(i as int),
                    p@,
                    w@,
                )));
            }
        } else {
            proof {
                if starts_with(rest, p@) {
                    assert forall|k: int| 0 <= k < pv@.len() implies s@[i + k] == #[trigger] pv@[k] by {
                        assert(rest[0 + k] == p@[k]);
                    }
                    assert(occurs_at(s@, pv@, i as int));
                }
                assert(rest.drop_first() =~= s@.skip(i as int + 1));
                assert(rest[0] == s@[i as int]);
            }
            out.push(s[i]);
            i = i + 1;
            proof {
                assert(out@ + replaced(s@.skip(i as int), p@, w@) =~= before + (seq![rest[0]]
                    + replaced(s@.skip(i as int), p@, w@)));
            }
        }
    }
    proof {
        assert(s@.skip(i as int) =~= Seq::empty());
        assert(out@ + replaced(s@.skip(i as int), p@, w@) =~= out@);
    }
    out
}

/// The decimal digits of a number denote it.
pub proof fn lemma_decimal_parses(n: nat)
    ensures
        unsigned_value(decimal(n)) == Some(n),
        all_digits(decimal(n)),
        decimal(n).len() > 0,
    decreases n,
{
    if n >= 10 {
        lemma_decimal_parses(n / 10);
        let head = decimal(n / 10);
        assert(decimal(n).drop_last() =~= head);
        assert forall|i: int| 0 <= i < decimal(n).len() implies is_digit(#[trigger] decimal(n)[i]) by {
            if i < head.len() {
                assert(decimal(n)[i] == head[i]);
            }
        }
    } else {
        assert(decimal(n).drop_last() =~= Seq::empty());
        assert(digits_value(Seq::<char>::empty()) == 0);
        assert(decimal(n).last() == digit_char(n));
    }
    assert(decimal(n).last() == digit_char(n % 10));
    assert(digits_value(decimal(n)) == digits_value(decimal(n).drop_last()) * 10 + n % 10);
}

} // verus!
