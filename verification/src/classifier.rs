//! Recognises requests that must be grounded in mail or in the web.

use crate::spacing::{
    collapsed_texts_are_made_of, collapsed_texts_are_spaced_once, is_spaced_once,
    lower_case_keeps_the_spacing,
};
use crate::text::{
    all_ascii, any_digit, any_term, ascii_lowercase, chars_of, collapse, collapsed, contains,
    contains_any, equals, find, first_index, has_digit, is_digit, join, join_chars, lower,
    lowercase, no_ascii_capital, parse_signed, signed_value, slice, string_of, strip, strip_marked,
    texts, trim, trimmed, words, words_of,
};
use crate::types::{
    Classification, EvidenceIntent, EvidenceScope, IntentSummary, VerificationLevel,
};
use crate::weburl::{parsed_url, WebUrl};
use vstd::prelude::*;

verus! {

/// Folds an accented letter of the Slovak alphabet to its base letter, and a
/// hyphen or underscore to a space.
pub open spec fn fold(c: char) -> char {
    match c {
        '\u{e1}' | '\u{e4}' => 'a',
        '\u{10d}' => 'c',
        '\u{10f}' => 'd',
        '\u{e9}' => 'e',
        '\u{ed}' => 'i',
        '\u{13e}' | '\u{13a}' => 'l',
        '\u{148}' => 'n',
        '\u{f3}' | '\u{f4}' => 'o',
        '\u{155}' => 'r',
        '\u{161}' => 's',
        '\u{165}' => 't',
        '\u{fa}' => 'u',
        '\u{fd}' => 'y',
        '\u{17e}' => 'z',
        '-' | '_' => ' ',
        _ => c,
    }
}

fn folded(c: char) -> (r: char)
    ensures
        r == fold(c),
{
    match c {
        '\u{e1}' | '\u{e4}' => 'a',
        '\u{10d}' => 'c',
        '\u{10f}' => 'd',
        '\u{e9}' => 'e',
        '\u{ed}' => 'i',
        '\u{13e}' | '\u{13a}' => 'l',
        '\u{148}' => 'n',
        '\u{f3}' | '\u{f4}' => 'o',
        '\u{155}' => 'r',
        '\u{161}' => 's',
        '\u{165}' => 't',
        '\u{fa}' => 'u',
        '\u{fd}' => 'y',
        '\u{17e}' => 'z',
        '-' | '_' => ' ',
        _ => c,
    }
}

pub open spec fn fold_all(s: Seq<char>) -> Seq<char> {
    Seq::new(s.len(), |i: int| fold(s[i]))
}

/// Lower case, folded, with one space between words.
pub open spec fn normalized(value: Seq<char>) -> Seq<char> {
    collapse(fold_all(lowercase(value)))
}

/// Folded, with one space between words and the capitals of ASCII in lower case.
pub open spec fn ascii_normalized(value: Seq<char>) -> Seq<char> {
    collapse(fold_all(ascii_lowercase(value)))
}

/// A letter with a mark, or a character that joins two words.
pub open spec fn folds(c: char) -> bool {
    ||| c == 'á'
    ||| c == 'ä'
    ||| c == 'č'
    ||| c == 'ď'
    ||| c == 'é'
    ||| c == 'í'
    ||| c == 'ľ'
    ||| c == 'ĺ'
    ||| c == 'ň'
    ||| c == 'ó'
    ||| c == 'ô'
    ||| c == 'ŕ'
    ||| c == 'š'
    ||| c == 'ť'
    ||| c == 'ú'
    ||| c == 'ý'
    ||| c == 'ž'
    ||| c == '-'
    ||| c == '_'
}

/// Words with one space between two and none at either end, with nothing to fold
/// and no capital of ASCII.
pub open spec fn is_plain(value: Seq<char>) -> bool {
    &&& is_spaced_once(value)
    &&& forall|i: int| 0 <= i < value.len() ==> !folds(#[trigger] value[i])
    &&& no_ascii_capital(value)
}

proof fn lemma_fold(c: char)
    ensures
        fold(c) == c <==> !folds(c),
        !folds(fold(c)),
        !(65 <= c as u32 <= 90) ==> !(65 <= fold(c) as u32 <= 90),
        !folds(' '),
{
}

proof fn lemma_folded(lowered: Seq<char>)
    ensures
        is_spaced_once(collapse(fold_all(lowered))),
        forall|i: int|
            0 <= i < collapse(fold_all(lowered)).len() ==> !folds(
                #[trigger] collapse(fold_all(lowered))[i],
            ),
        no_ascii_capital(lowered) ==> no_ascii_capital(collapse(fold_all(lowered))),
        is_plain(lowered) ==> collapse(fold_all(lowered)) == lowered,
{
    let list = fold_all(lowered);
    let out = collapse(list);
    let plain = |c: char| !folds(c);
    let small = |c: char| !(65 <= c as u32 <= 90);
    collapsed_texts_are_spaced_once(list);
    assert forall|i: int| 0 <= i < list.len() implies plain(#[trigger] list[i]) by {
        lemma_fold(lowered[i]);
    }
    lemma_fold(' ');
    collapsed_texts_are_made_of(list, plain);
    assert forall|i: int| 0 <= i < out.len() implies !folds(#[trigger] out[i]) by {
        assert(plain(out[i]));
    }
    if no_ascii_capital(lowered) {
        assert forall|i: int| 0 <= i < list.len() implies small(#[trigger] list[i]) by {
            lemma_fold(lowered[i]);
            assert(!(65 <= lowered[i] as u32 <= 90));
        }
        collapsed_texts_are_made_of(list, small);
        assert forall|i: int| 0 <= i < out.len() implies !(65 <= #[trigger] out[i] as u32 <= 90) by {
            assert(small(out[i]));
        }
    }
    if is_plain(lowered) {
        assert forall|i: int| 0 <= i < lowered.len() implies list[i] == lowered[i] by {
            lemma_fold(lowered[i]);
        }
        assert(list =~= lowered);
    }
}

/// A normalized text has one space between words and none at either end, and
/// nothing in it is left to fold. Where nothing is left to lower either, it is
/// its own normal form.
pub proof fn normalized_texts_stay(value: Seq<char>)
    ensures
        is_spaced_once(normalized(value)),
        forall|i: int|
            0 <= i < normalized(value).len() ==> !folds(#[trigger] normalized(value)[i]),
        lowercase(normalized(value)) == normalized(value) ==> normalized(normalized(value))
            == normalized(value),
{
    lemma_folded(lowercase(value));
    let once = normalized(value);
    let list = fold_all(once);
    assert forall|i: int| 0 <= i < once.len() implies list[i] == once[i] by {
        lemma_fold(once[i]);
    }
    assert(list =~= once);
    collapsed_texts_are_spaced_once(once);
}

/// In ASCII a normalized text is plain, a plain text is its own normal form, and
/// capitals do not matter.
pub proof fn plain_texts_stay(value: Seq<char>)
    ensures
        is_plain(ascii_normalized(value)),
        is_plain(value) ==> ascii_normalized(value) == value,
        ascii_normalized(ascii_normalized(value)) == ascii_normalized(value),
        ascii_normalized(ascii_lowercase(value)) == ascii_normalized(value),
{
    let once = ascii_normalized(value);
    lower_case_keeps_the_spacing(value);
    lemma_folded(ascii_lowercase(value));
    assert(no_ascii_capital(ascii_lowercase(value)));
    assert(ascii_lowercase(once) =~= once);
    lemma_folded(once);
    if is_plain(value) {
        assert(ascii_lowercase(value) =~= value);
    }
}

fn normal_chars(value: &str) -> (r: Vec<char>)
    ensures
        r@ == normalized(value@),
        is_plain(r@),
        all_ascii(value@) ==> r@ == ascii_normalized(value@),
{
    let lowered = lower(value);
    proof {
        lemma_folded(lowered@);
    }
    let mut out: Vec<char> = Vec::new();
    let mut i: usize = 0;
    while i < lowered.len()
        invariant
            i <= lowered@.len(),
            out@.len() == i,
            forall|k: int| 0 <= k < i ==> out@[k] == fold(lowered@[k]),
        decreases lowered@.len() - i,
    {
        out.push(folded(lowered[i]));
        i = i + 1;
    }
    proof {
        assert(out@ =~= fold_all(lowered@));
    }
    collapsed(&out)
}

/// The normal form of a message. What is said of ASCII text alone is what
/// `str::to_lowercase` documents.
pub fn normalize(value: &str) -> (r: String)
    ensures
        r@ == normalized(value@),
        is_plain(r@),
        all_ascii(value@) ==> r@ == ascii_normalized(value@),
        all_ascii(value@) && is_plain(value@) ==> r@ == value@,
{
    let chars = normal_chars(value);
    proof {
        plain_texts_stay(value@);
    }
    string_of(&chars)
}

/// Whether one of the terms stands in the text.
pub fn has_any(value: &str, terms: &[&str]) -> (r: bool)
    ensures
        r == contains_any(value@, terms@),
{
    let chars = chars_of(value);
    any_term(&chars, terms)
}

/// A request that names mail.
pub open spec fn mail_terms() -> Seq<&'static str> {
    seq![
        "mail",
        "email",
        "e mail",
        "inbox",
        "posta",
        "sprava",
    ]
}

fn mail_in(value: &Vec<char>) -> (r: bool)
    ensures
        r == contains_any(value@, mail_terms()),
{
    let terms = ["mail", "email", "e mail", "inbox", "posta", "sprava"];
    proof {
        assert(terms@ =~= mail_terms());
    }
    any_term(value, &terms)
}

/// A request that can only be answered from the web.
pub open spec fn web_scope_terms() -> Seq<&'static str> {
    seq![
        "online",
        "web",
        "internet",
        "price",
        "weather",
        "population",
        "compare",
        "versus",
        "aktual",
        "dnes",
        "cena",
        "pocasie",
        "porovnaj",
        "medical",
        "medication",
        "treatment",
        "legal",
        "law",
        "financial",
        "investment",
        "zdravot",
        "liek",
        "pravne",
        "zakon",
        "financ",
        "investic",
    ]
}

fn web_scope_in(value: &Vec<char>) -> (r: bool)
    ensures
        r == contains_any(value@, web_scope_terms()),
{
    let terms = ["online", "web", "internet", "price", "weather", "population", "compare", "versus", "aktual", "dnes", "cena", "pocasie", "porovnaj", "medical", "medication", "treatment", "legal", "law", "financial", "investment", "zdravot", "liek", "pravne", "zakon", "financ", "investic"];
    proof {
        assert(terms@ =~= web_scope_terms());
    }
    any_term(value, &terms)
}

/// A request for a fact that changes or has consequences.
pub open spec fn web_fact_terms() -> Seq<&'static str> {
    seq![
        "current",
        "today",
        "latest",
        "online",
        "web",
        "internet",
        "price",
        "weather",
        "population",
        "compare",
        "versus",
        "aktual",
        "dnes",
        "cena",
        "pocasie",
        "porovnaj",
        "medical",
        "medication",
        "treatment",
        "legal",
        "law",
        "financial",
        "investment",
        "zdravot",
        "liek",
        "pravne",
        "zakon",
        "financ",
        "investic",
    ]
}

fn web_fact_in(value: &Vec<char>) -> (r: bool)
    ensures
        r == contains_any(value@, web_fact_terms()),
{
    let terms = ["current", "today", "latest", "online", "web", "internet", "price", "weather", "population", "compare", "versus", "aktual", "dnes", "cena", "pocasie", "porovnaj", "medical", "medication", "treatment", "legal", "law", "financial", "investment", "zdravot", "liek", "pravne", "zakon", "financ", "investic"];
    proof {
        assert(terms@ =~= web_fact_terms());
    }
    any_term(value, &terms)
}

/// A fact that one source alone does not settle.
pub open spec fn corroboration_terms() -> Seq<&'static str> {
    seq![
        "compare",
        "versus",
        " vs ",
        "current",
        "today",
        "latest",
        "weather",
        "prices",
        "price",
        "conflict",
        "medical",
        "medication",
        "treatment",
        "legal",
        "law",
        "financial",
        "investment",
        "consequential",
        "porovnaj",
        "aktual",
        "dnes",
        "pocasie",
        "ceny",
        "pravne",
        "financ",
        "zdravot",
        "liek",
        "zakon",
        "investic",
    ]
}

fn corroboration_in(value: &Vec<char>) -> (r: bool)
    ensures
        r == contains_any(value@, corroboration_terms()),
{
    let terms = ["compare", "versus", " vs ", "current", "today", "latest", "weather", "prices", "price", "conflict", "medical", "medication", "treatment", "legal", "law", "financial", "investment", "consequential", "porovnaj", "aktual", "dnes", "pocasie", "ceny", "pravne", "financ", "zdravot", "liek", "zakon", "investic"];
    proof {
        assert(terms@ =~= corroboration_terms());
    }
    any_term(value, &terms)
}

/// A request for what messages say.
pub open spec fn content_terms() -> Seq<&'static str> {
    seq![
        "read",
        "what is in",
        "what's in",
        "summar",
        "precitaj",
        "zhrn",
        "obsah",
    ]
}

fn content_in(value: &Vec<char>) -> (r: bool)
    ensures
        r == contains_any(value@, content_terms()),
{
    let terms = ["read", "what is in", "what's in", "summar", "precitaj", "zhrn", "obsah"];
    proof {
        assert(terms@ =~= content_terms());
    }
    any_term(value, &terms)
}

/// A request for the newest messages.
pub open spec fn latest_terms() -> Seq<&'static str> {
    seq![
        "latest",
        "recent",
        "last",
        "newest",
        "posledn",
        "najnov",
        "nedavn",
    ]
}

fn latest_in(value: &Vec<char>) -> (r: bool)
    ensures
        r == contains_any(value@, latest_terms()),
{
    let terms = ["latest", "recent", "last", "newest", "posledn", "najnov", "nedavn"];
    proof {
        assert(terms@ =~= latest_terms());
    }
    any_term(value, &terms)
}

/// Only messages that were not read yet.
pub open spec fn unread_terms() -> Seq<&'static str> {
    seq![
        "unread",
        "neprecitan",
    ]
}

fn unread_in(value: &Vec<char>) -> (r: bool)
    ensures
        r == contains_any(value@, unread_terms()),
{
    let terms = ["unread", "neprecitan"];
    proof {
        assert(terms@ =~= unread_terms());
    }
    any_term(value, &terms)
}

/// More than one message.
pub open spec fn plural_mail_terms() -> Seq<&'static str> {
    seq![
        "emails",
        "mails",
        "spravy",
        "emaily",
        "maily",
    ]
}

fn plural_mail_in(value: &Vec<char>) -> (r: bool)
    ensures
        r == contains_any(value@, plural_mail_terms()),
{
    let terms = ["emails", "mails", "spravy", "emaily", "maily"];
    proof {
        assert(terms@ =~= plural_mail_terms());
    }
    any_term(value, &terms)
}

/// A message.
pub open spec fn singular_mail_terms() -> Seq<&'static str> {
    seq![
        " email",
        "mail",
        "spravu",
        "message",
    ]
}

fn singular_mail_in(value: &Vec<char>) -> (r: bool)
    ensures
        r == contains_any(value@, singular_mail_terms()),
{
    let terms = [" email", "mail", "spravu", "message"];
    proof {
        assert(terms@ =~= singular_mail_terms());
    }
    any_term(value, &terms)
}

/// A request to treat content as quoted data.
pub open spec fn quoted_analysis_terms() -> Seq<&'static str> {
    seq![
        "analyze the instructions",
        "analyse the instructions",
        "analyze as quoted",
        "quote the instructions",
        "prompt injection",
        "analyzuj instrukcie",
        "analyzuj pokyny",
        "cituj instrukcie",
        "cituj pokyny",
    ]
}

fn quoted_analysis_in(value: &Vec<char>) -> (r: bool)
    ensures
        r == contains_any(value@, quoted_analysis_terms()),
{
    let terms = ["analyze the instructions", "analyse the instructions", "analyze as quoted", "quote the instructions", "prompt injection", "analyzuj instrukcie", "analyzuj pokyny", "cituj instrukcie", "cituj pokyny"];
    proof {
        assert(terms@ =~= quoted_analysis_terms());
    }
    any_term(value, &terms)
}

/// Punctuation that may surround a word.
pub open spec fn is_outer_punctuation(c: char) -> bool {
    match c {
        '.' | ',' | ';' | ':' | '!' | '?' | '(' | ')' | '[' | ']' | '{' | '}' | '<' | '>' | '"'
        | '\'' => true,
        _ => false,
    }
}

pub open spec fn outer_punctuation() -> spec_fn(char) -> bool {
    |c: char| is_outer_punctuation(c)
}

fn outer(c: char) -> (r: bool)
    ensures
        r == is_outer_punctuation(c),
{
    match c {
        '.' | ',' | ';' | ':' | '!' | '?' | '(' | ')' | '[' | ']' | '{' | '}' | '<' | '>' | '"'
        | '\'' => true,
        _ => false,
    }
}

fn strip_punctuation(s: &Vec<char>) -> (r: Vec<char>)
    ensures
        r@ == strip(s@, outer_punctuation()),
{
    let mut marks: Vec<bool> = Vec::new();
    let mut i: usize = 0;
    while i < s.len()
        invariant
            i <= s@.len(),
            marks@.len() == i,
            forall|k: int| 0 <= k < i ==> #[trigger] marks@[k] == is_outer_punctuation(s@[k]),
        decreases s@.len() - i,
    {
        marks.push(outer(s[i]));
        i = i + 1;
    }
    strip_marked(s, &marks, Ghost(outer_punctuation()))
}

/// The web address that a word is, apart from surrounding punctuation.
pub open spec fn word_url(word: Seq<char>) -> Option<WebUrl> {
    match parsed_url(strip(word, outer_punctuation())) {
        Some(url) => if url.scheme@ == "http"@ || url.scheme@ == "https"@ {
            Some(url)
        } else {
            None
        },
        None => None,
    }
}

/// The web addresses among the words, in order.
pub open spec fn urls_in(parts: Seq<Seq<char>>) -> Seq<WebUrl>
    decreases parts.len(),
{
    if parts.len() == 0 {
        Seq::empty()
    } else {
        match word_url(parts.last()) {
            Some(url) => urls_in(parts.drop_last()).push(url),
            None => urls_in(parts.drop_last()),
        }
    }
}

pub fn extract_http_urls(text: &str) -> (r: Vec<WebUrl>)
    ensures
        r@ == urls_in(words(text@)),
{
    let chars = chars_of(text);
    let parts = words_of(&chars);
    let ghost model = texts(parts@);
    let mut urls: Vec<WebUrl> = Vec::new();
    let mut i: usize = 0;
    proof {
        assert(urls@ =~= urls_in(model.take(0)));
    }
    while i < parts.len()
        invariant
            i <= parts@.len(),
            model == texts(parts@),
            urls@ == urls_in(model.take(i as int)),
        decreases parts@.len() - i,
    {
        proof {
            let next = model.take(i as int + 1);
            assert(next.drop_last() =~= model.take(i as int));
            assert(next.last() == parts@[i as int]@);
        }
        let core = strip_punctuation(&parts[i]);
        let candidate = string_of(&core);
        if let Some(url) = WebUrl::parse(candidate.as_str()) {
            let scheme = chars_of(url.scheme.as_str());
            if equals(&scheme, "http") || equals(&scheme, "https") {
                urls.push(url);
            }
        }
        i = i + 1;
    }
    proof {
        assert(model.take(parts@.len() as int) =~= model);
    }
    urls
}

/// Neither a digit nor a sign.
pub open spec fn outside_number() -> spec_fn(char) -> bool {
    |c: char| !is_digit(c) && c != '-' && c != '+'
}

/// The count that a word spells in digits, where it fits.
pub open spec fn word_count_value(word: Seq<char>) -> Option<i16> {
    let core = strip(word, outside_number());
    if core.len() > 0 && has_digit(core) {
        match signed_value(core) {
            Some(v) => if -32768 <= v <= 32767 {
                Some(v as i16)
            } else {
                None
            },
            None => None,
        }
    } else {
        None
    }
}

/// The first count among the words.
pub open spec fn first_count(parts: Seq<Seq<char>>) -> Option<i16>
    decreases parts.len(),
{
    if parts.len() == 0 {
        None
    } else {
        match word_count_value(parts[0]) {
            Some(v) => Some(v),
            None => first_count(parts.drop_first()),
        }
    }
}

fn count_in_word(word: &Vec<char>) -> (r: Option<i16>)
    ensures
        r == word_count_value(word@),
{
    let mut marks: Vec<bool> = Vec::new();
    let mut i: usize = 0;
    while i < word.len()
        invariant
            i <= word@.len(),
            marks@.len() == i,
            forall|k: int| 0 <= k < i ==> #[trigger] marks@[k] == outside_number()(word@[k]),
        decreases word@.len() - i,
    {
        let c = word[i];
        marks.push(!crate::text::digit(c) && c != '-' && c != '+');
        i = i + 1;
    }
    let core = strip_marked(word, &marks, Ghost(outside_number()));
    if core.len() == 0 || !any_digit(&core) {
        return None;
    }
    match parse_signed(&core, 32767) {
        Some(v) => Some(v as i16),
        None => None,
    }
}

pub fn explicit_count(normalized: &str) -> (r: Option<i16>)
    ensures
        r == first_count(words(normalized@)),
{
    let chars = chars_of(normalized);
    let parts = words_of(&chars);
    let ghost model = texts(parts@);
    let mut i: usize = 0;
    proof {
        assert(model.skip(0) =~= model);
    }
    while i < parts.len()
        invariant
            i <= parts@.len(),
            model == texts(parts@),
            model == words(normalized@),
            first_count(model) == first_count(model.skip(i as int)),
        decreases parts@.len() - i,
    {
        proof {
            assert(model.skip(i as int)[0] == parts@[i as int]@);
            assert(model.skip(i as int).drop_first() =~= model.skip(i as int + 1));
        }
        if let Some(v) = count_in_word(&parts[i]) {
            return Some(v);
        }
        i = i + 1;
    }
    None
}

/// One message: no plural stands in the text, and a singular does.
pub open spec fn singular(normalized: Seq<char>) -> bool {
    !contains_any(normalized, plural_mail_terms()) && contains_any(normalized, singular_mail_terms())
}

pub fn is_singular_mail(normalized: &str) -> (r: bool)
    ensures
        r == singular(normalized@),
{
    let chars = chars_of(normalized);
    !plural_mail_in(&chars) && singular_mail_in(&chars)
}

/// The words that introduce a sender, a subject or a thread.
pub open spec fn target_markers() -> Seq<&'static str> {
    seq![" from ", " od ", " subject ", " predmet ", " conversation ", " vlakno "]
}

/// What follows the first marker.
pub open spec fn after_marker(normalized: Seq<char>, marker: Seq<char>) -> Seq<char> {
    trim(normalized.skip(first_index(normalized, marker) + marker.len()))
}

/// The last `n` words of a request as a query.
pub open spec fn tail_query(original: Seq<char>, n: int) -> Seq<char> {
    let all = words(original);
    let tail = if n < all.len() {
        all.skip(all.len() - n)
    } else {
        all
    };
    lowercase(strip(join(tail, " "@), outer_punctuation()))
}

/// What a request for particular messages asks for, by the first marker that
/// gives a query. A marker with nothing behind it ends the search.
pub open spec fn target(original: Seq<char>, normalized: Seq<char>, markers: Seq<&str>) -> Option<
    Seq<char>,
>
    decreases markers.len(),
{
    if markers.len() == 0 {
        None
    } else {
        let marker = markers[0]@;
        let rest = target(original, normalized, markers.drop_first());
        if contains(normalized, marker) {
            let tail = after_marker(normalized, marker);
            let query = tail_query(original, words(tail).len() as int);
            if tail.len() == 0 {
                None
            } else if query.len() > 0 {
                Some(query)
            } else {
                rest
            }
        } else {
            rest
        }
    }
}

fn tail_words(original: &Vec<char>, n: usize) -> (r: Vec<char>)
    ensures
        r@ == tail_query(original@, n as int),
{
    let all = words_of(original);
    let ghost model = texts(all@);
    let start: usize = if n < all.len() {
        all.len() - n
    } else {
        0
    };
    let mut tail: Vec<Vec<char>> = Vec::new();
    let mut i: usize = start;
    while i < all.len()
        invariant
            start <= i <= all@.len(),
            tail@.len() == i - start,
            forall|k: int| 0 <= k < tail@.len() ==> (#[trigger] tail@[k])@ == all@[start + k]@,
        decreases all@.len() - i,
    {
        tail.push(crate::text::copy_chars(&all[i]));
        i = i + 1;
    }
    proof {
        if n < all@.len() {
            assert(texts(tail@) =~= model.skip(model.len() - n));
        } else {
            assert(texts(tail@) =~= model);
        }
    }
    let joined = join_chars(&tail, " ");
    let core = strip_punctuation(&joined);
    let text = string_of(&core);
    lower(text.as_str())
}

pub fn targeted_query(original: &str, normalized: &str) -> (r: Option<String>)
    ensures
        match r {
            Some(q) => target(original@, normalized@, target_markers()) == Some(q@),
            None => target(original@, normalized@, target_markers()) is None,
        },
{
    let source = chars_of(original);
    let text = chars_of(normalized);
    let markers = [" from ", " od ", " subject ", " predmet ", " conversation ", " vlakno "];
    proof {
        assert(markers@ =~= target_markers());
        assert(target_markers().skip(0) =~= target_markers());
    }
    let mut i: usize = 0;
    while i < 6
        invariant
            i <= 6,
            source@ == original@,
            text@ == normalized@,
            markers@ == target_markers(),
            target_markers().len() == 6,
            target(original@, normalized@, target_markers()) == target(
                original@,
                normalized@,
                target_markers().skip(i as int),
            ),
        decreases 6 - i,
    {
        proof {
            assert(target_markers().skip(i as int)[0] == markers@[i as int]);
            assert(target_markers().skip(i as int).drop_first() =~= target_markers().skip(i as int + 1));
        }
        let marker: &str = markers[i];
        let marker_chars = chars_of(marker);
        if let Some(index) = find(&text, marker) {
            let after = slice(&text, index + marker_chars.len(), text.len());
            proof {
                assert(after@ =~= text@.skip(index + marker@.len()));
            }
            let tail = trimmed(&after);
            if tail.len() == 0 {
                return None;
            }
            let count = words_of(&tail).len();
            proof {
                assert(words(tail@).len() == count);
            }
            let query = tail_words(&source, count);
            if query.len() > 0 {
                return Some(string_of(&query));
            }
        }
        i = i + 1;
    }
    None
}

pub fn is_web_fact(normalized: &str) -> (r: bool)
    ensures
        r == contains_any(normalized@, web_fact_terms()),
{
    let chars = chars_of(normalized);
    web_fact_in(&chars)
}

pub fn needs_corroboration(normalized: &str) -> (r: bool)
    ensures
        r == contains_any(normalized@, corroboration_terms()),
{
    let chars = chars_of(normalized);
    corroboration_in(&chars)
}

/// An intent with its texts as sequences of characters.
pub enum IntentModel {
    MailLatestHeaders { count: u8, unread_only: bool },
    MailLatestContent { count: u8, requested_count: u8, unread_only: bool },
    MailTargeted { query: Seq<char>, needs_content: bool },
    WebDirectPage { url: WebUrl },
    WebFact { query: Seq<char>, verification: VerificationLevel },
    Quoted { intent: Box<IntentModel> },
}

pub open spec fn intent_model(intent: EvidenceIntent) -> IntentModel
    decreases intent,
{
    match intent {
        EvidenceIntent::MailLatestHeaders { count, unread_only } => IntentModel::MailLatestHeaders {
            count,
            unread_only,
        },
        EvidenceIntent::MailLatestContent { count, requested_count, unread_only } => {
            IntentModel::MailLatestContent { count, requested_count, unread_only }
        },
        EvidenceIntent::MailTargeted { query, needs_content } => IntentModel::MailTargeted {
            query: query@,
            needs_content,
        },
        EvidenceIntent::WebDirectPage { url } => IntentModel::WebDirectPage { url },
        EvidenceIntent::WebFact { query, verification } => IntentModel::WebFact {
            query: query@,
            verification,
        },
        EvidenceIntent::AnalyzeQuotedEvidence { intent: inner } => IntentModel::Quoted {
            intent: Box::new(intent_model(*inner)),
        },
    }
}

impl View for EvidenceIntent {
    type V = IntentModel;

    open spec fn view(&self) -> IntentModel {
        intent_model(*self)
    }
}

/// A classification with its texts as sequences of characters.
pub enum ClassificationModel {
    Recognized(IntentModel),
    NeedsClarification { prompt: Seq<char>, alternatives: Seq<(Seq<char>, EvidenceScope)> },
    NotEvidenceIntent,
}

pub open spec fn alternatives_of(v: Seq<IntentSummary>) -> Seq<(Seq<char>, EvidenceScope)> {
    Seq::new(v.len(), |i: int| (v[i].label@, v[i].scope))
}

impl View for Classification {
    type V = ClassificationModel;

    open spec fn view(&self) -> ClassificationModel {
        match self {
            Classification::Recognized(intent) => ClassificationModel::Recognized(intent@),
            Classification::NeedsClarification { prompt, alternatives } => {
                ClassificationModel::NeedsClarification {
                    prompt: prompt@,
                    alternatives: alternatives_of(alternatives@),
                }
            },
            Classification::NotEvidenceIntent => ClassificationModel::NotEvidenceIntent,
        }
    }
}

pub open spec fn asks(
    prompt: Seq<char>,
    first: (Seq<char>, EvidenceScope),
    second: (Seq<char>, EvidenceScope),
) -> ClassificationModel {
    ClassificationModel::NeedsClarification { prompt, alternatives: seq![first, second] }
}

pub fn clarification(
    prompt: &str,
    first: (&str, EvidenceScope),
    second: (&str, EvidenceScope),
) -> (r: Classification)
    ensures
        r@ == asks(prompt@, (first.0@, first.1), (second.0@, second.1)),
{
    let mut alternatives: Vec<IntentSummary> = Vec::new();
    alternatives.push(IntentSummary { label: first.0.to_owned(), scope: first.1 });
    alternatives.push(IntentSummary { label: second.0.to_owned(), scope: second.1 });
    proof {
        assert(alternatives_of(alternatives@) =~= seq![
            (first.0@, first.1),
            (second.0@, second.1),
        ]);
    }
    Classification::NeedsClarification { prompt: prompt.to_owned(), alternatives }
}

/// An intent that reads content, and not only headers.
pub open spec fn reads_content(intent: IntentModel) -> bool {
    match intent {
        IntentModel::MailLatestContent { .. } => true,
        IntentModel::MailTargeted { needs_content, .. } => needs_content,
        IntentModel::WebDirectPage { .. } => true,
        IntentModel::WebFact { .. } => true,
        _ => false,
    }
}

pub open spec fn recognition(intent: IntentModel, normalized: Seq<char>) -> ClassificationModel {
    if contains_any(normalized, quoted_analysis_terms()) && reads_content(intent) {
        ClassificationModel::Recognized(IntentModel::Quoted { intent: Box::new(intent) })
    } else {
        ClassificationModel::Recognized(intent)
    }
}

fn recognized_in(intent: EvidenceIntent, normalized: &Vec<char>) -> (r: Classification)
    requires
        !(intent is AnalyzeQuotedEvidence),
    ensures
        r@ == recognition(intent@, normalized@),
{
    let content_intent = match &intent {
        EvidenceIntent::MailLatestContent { .. } => true,
        EvidenceIntent::MailTargeted { needs_content, .. } => *needs_content,
        EvidenceIntent::WebDirectPage { .. } => true,
        EvidenceIntent::WebFact { .. } => true,
        _ => false,
    };
    if quoted_analysis_in(normalized) && content_intent {
        Classification::Recognized(EvidenceIntent::AnalyzeQuotedEvidence { intent: Box::new(intent) })
    } else {
        Classification::Recognized(intent)
    }
}

/// A recognised intent, wrapped where the request asks for a quoted analysis.
pub fn recognized(intent: EvidenceIntent, normalized: &str) -> (r: Classification)
    requires
        !(intent is AnalyzeQuotedEvidence),
    ensures
        r@ == recognition(intent@, normalized@),
{
    let chars = chars_of(normalized);
    recognized_in(intent, &chars)
}

/// How many messages a request for the newest ones means, without a number.
pub open spec fn implied_count(normalized: Seq<char>) -> u8 {
    if singular(normalized) {
        1
    } else {
        3
    }
}

/// What a request that names mail means.
pub open spec fn mail_classification(original: Seq<char>, normalized: Seq<char>) -> ClassificationModel {
    let needs_content = contains_any(normalized, content_terms());
    match target(original, normalized, target_markers()) {
        Some(query) => recognition(IntentModel::MailTargeted { query, needs_content }, normalized),
        None => if !contains_any(normalized, latest_terms()) {
            ClassificationModel::NotEvidenceIntent
        } else {
            let stated = first_count(words(original));
            if stated is Some && stated->0 <= 0 {
                asks(
                    "How many emails should I inspect? Please choose a positive number."@,
                    ("One email"@, EvidenceScope::MailContent),
                    ("Three emails"@, EvidenceScope::MailContent),
                )
            } else {
                let requested = match stated {
                    Some(v) => if v <= 255 {
                        v as u8
                    } else {
                        255
                    },
                    None => implied_count(normalized),
                };
                let count = if requested <= 10 {
                    requested
                } else {
                    10
                };
                let unread_only = contains_any(normalized, unread_terms());
                recognition(
                    if needs_content {
                        IntentModel::MailLatestContent {
                            count,
                            requested_count: requested,
                            unread_only,
                        }
                    } else {
                        IntentModel::MailLatestHeaders { count, unread_only }
                    },
                    normalized,
                )
            }
        },
    }
}

/// What a request means: nothing to ground, a question back, or an intent.
pub open spec fn classification(request: Seq<char>) -> ClassificationModel {
    let text = trim(request);
    let plain = normalized(text);
    let mail = contains_any(plain, mail_terms());
    let urls = urls_in(words(text));
    if text.len() == 0 {
        ClassificationModel::NotEvidenceIntent
    } else if mail && (urls.len() == 1 || contains_any(plain, web_scope_terms())) {
        asks(
            "Should I inspect Mail or research the web first?"@,
            ("Inspect Mail"@, EvidenceScope::MailContent),
            ("Research the web"@, EvidenceScope::Web),
        )
    } else if urls.len() > 1 {
        asks(
            "Which web page should I inspect first?"@,
            ("Inspect the first page"@, EvidenceScope::Web),
            ("Inspect the second page"@, EvidenceScope::Web),
        )
    } else if urls.len() == 1 {
        recognition(IntentModel::WebDirectPage { url: urls[0] }, plain)
    } else if mail {
        mail_classification(text, plain)
    } else if contains_any(plain, web_fact_terms()) {
        recognition(
            IntentModel::WebFact {
                query: text,
                verification: if contains_any(plain, corroboration_terms()) {
                    VerificationLevel::Corroborated
                } else {
                    VerificationLevel::SingleAuthoritative
                },
            },
            plain,
        )
    } else {
        ClassificationModel::NotEvidenceIntent
    }
}

pub struct EvidenceIntentClassifier;

impl EvidenceIntentClassifier {
    /// What a request means.
    pub fn classify(&self, request: &str) -> (r: Classification)
        ensures
            r@ == classification(request@),
    {
        let source = chars_of(request);
        let core = trimmed(&source);
        if core.len() == 0 {
            return Classification::NotEvidenceIntent;
        }
        let text = string_of(&core);
        let plain = normal_chars(text.as_str());
        let mail = mail_in(&plain);
        let urls = extract_http_urls(text.as_str());
        if mail && (urls.len() == 1 || web_scope_in(&plain)) {
            return clarification(
                "Should I inspect Mail or research the web first?",
                ("Inspect Mail", EvidenceScope::MailContent),
                ("Research the web", EvidenceScope::Web),
            );
        }
        if urls.len() > 1 {
            return clarification(
                "Which web page should I inspect first?",
                ("Inspect the first page", EvidenceScope::Web),
                ("Inspect the second page", EvidenceScope::Web),
            );
        }
        if urls.len() == 1 {
            return recognized_in(EvidenceIntent::WebDirectPage { url: urls[0].clone() }, &plain);
        }
        if mail {
            return self.classify_mail(text.as_str(), &plain);
        }
        if web_fact_in(&plain) {
            let verification = if corroboration_in(&plain) {
                VerificationLevel::Corroborated
            } else {
                VerificationLevel::SingleAuthoritative
            };
            return recognized_in(EvidenceIntent::WebFact { query: text, verification }, &plain);
        }
        Classification::NotEvidenceIntent
    }

    fn classify_mail(&self, original: &str, normalized: &Vec<char>) -> (r: Classification)
        ensures
            r@ == mail_classification(original@, normalized@),
    {
        let needs_content = content_in(normalized);
        let plain = string_of(normalized);
        if let Some(query) = targeted_query(original, plain.as_str()) {
            return recognized_in(
                EvidenceIntent::MailTargeted { query, needs_content },
                normalized,
            );
        }
        if !latest_in(normalized) {
            return Classification::NotEvidenceIntent;
        }
        let stated = explicit_count(original);
        let requested_count: u8 = match stated {
            Some(value) => {
                if value <= 0 {
                    return clarification(
                        "How many emails should I inspect? Please choose a positive number.",
                        ("One email", EvidenceScope::MailContent),
                        ("Three emails", EvidenceScope::MailContent),
                    );
                }
                if value <= 255 {
                    value as u8
                } else {
                    255
                }
            },
            None => if !plural_mail_in(normalized) && singular_mail_in(normalized) {
                1
            } else {
                3
            },
        };
        let count: u8 = if requested_count <= 10 {
            requested_count
        } else {
            10
        };
        let unread_only = unread_in(normalized);
        let intent = if needs_content {
            EvidenceIntent::MailLatestContent { count, requested_count, unread_only }
        } else {
            EvidenceIntent::MailLatestHeaders { count, unread_only }
        };
        recognized_in(intent, normalized)
    }
}

/// A quoted analysis wraps one intent that reads content, and never another
/// quoted analysis.
pub proof fn quoted_analysis_wraps_once(request: Seq<char>)
    ensures
        match classification(request) {
            ClassificationModel::Recognized(IntentModel::Quoted { intent }) => reads_content(*intent)
                && !(*intent is Quoted),
            _ => true,
        },
{
}

/// A recognised count of messages is positive and at most ten.
pub proof fn recognized_counts_are_bounded(request: Seq<char>)
    ensures
        match classification(request) {
            ClassificationModel::Recognized(IntentModel::MailLatestHeaders { count, .. }) => 1
                <= count <= 10,
            ClassificationModel::Recognized(
                IntentModel::MailLatestContent { count, requested_count, .. },
            ) => 1 <= count <= 10 && count <= requested_count,
            _ => true,
        },
{
}

} // verus!
