//! Scanning of markup without a document tree: visible text, search result
//! pages, links, and the escaping of text that is shown as data.

use crate::text::{
    ascii_letter, ascii_lowercase, begins, chars_of, collapse, collapsed, copy_chars, digit,
    has_char, is_ascii_letter, is_digit, is_one_of, lower_ascii, one_of, prefix, prefix_of,
    push_all, push_text, replace, replaced, same_chars, seek, seek_from, slice, split, split_of,
    starts_with, string_of, texts, trim, trimmed,
};
use crate::types::ValidatedReference;
use crate::weburl::{normalize_url, normalized, resolved, WebUrl};
use vstd::prelude::*;
use vstd::utf8::{decode_utf8, encode_utf8, valid_utf8};

verus! {

/// What `String::from_utf8_lossy` makes of bytes.
pub uninterp spec fn lossy_text(bytes: Seq<u8>) -> Seq<char>;

/// `String::from_utf8_lossy`: bytes that are valid UTF-8 are kept as they are,
/// and what is not is replaced by the replacement character.
#[verifier::external_body]
pub(crate) fn utf8_lossy(bytes: &[u8]) -> (r: String)
    ensures
        r@ == lossy_text(bytes@),
        valid_utf8(bytes@) ==> encode_utf8(r@) == bytes@,
{
    String::from_utf8_lossy(bytes).into_owned()
}

/// Bytes that are valid UTF-8 are read as the text that they encode.
pub open spec fn keeps_utf8(bytes: Seq<u8>) -> bool {
    valid_utf8(bytes) ==> lossy_text(bytes) == decode_utf8(bytes) && encode_utf8(lossy_text(bytes))
        == bytes
}

/// Bytes as text.
pub fn text_of_bytes(bytes: &[u8]) -> (r: String)
    ensures
        r@ == lossy_text(bytes@),
        keeps_utf8(bytes@),
{
    let text = utf8_lossy(bytes);
    proof {
        vstd::utf8::encode_utf8_decode_utf8(text@);
    }
    text
}

/// The body of a response as text.
pub fn body_text(bytes: &Vec<u8>) -> (r: String)
    ensures
        r@ == lossy_text(bytes@),
        keeps_utf8(bytes@),
{
    text_of_bytes(bytes.as_slice())
}

/// The part of a chunk before the first closing bracket: the tag.
pub open spec fn tag_part(chunk: Seq<char>) -> Seq<char> {
    match seek(chunk, ">"@, 0) {
        Some(end) => chunk.take(end),
        None => chunk,
    }
}

/// The part of a chunk behind the tag.
pub open spec fn after_tag(chunk: Seq<char>) -> Seq<char> {
    match seek(chunk, ">"@, 0) {
        Some(end) => chunk.skip(end + 1),
        None => Seq::empty(),
    }
}

pub open spec fn without_slashes(s: Seq<char>) -> Seq<char>
    decreases s.len(),
{
    if s.len() > 0 && s[0] == '/' {
        without_slashes(s.drop_first())
    } else {
        s
    }
}

/// The leading ASCII letters and digits.
pub open spec fn leading_word(s: Seq<char>) -> Seq<char>
    decreases s.len(),
{
    if s.len() > 0 && (is_ascii_letter(s[0]) || is_digit(s[0])) {
        seq![s[0]] + leading_word(s.drop_first())
    } else {
        Seq::empty()
    }
}

pub open spec fn tag_name(tag: Seq<char>) -> Seq<char> {
    ascii_lowercase(leading_word(without_slashes(tag)))
}

/// Elements whose content is not shown.
pub open spec fn hidden_tags() -> Seq<&'static str> {
    seq!["script", "style", "noscript"]
}

/// The text so far, and the hidden element that is open.
pub struct VisibleState {
    pub out: Seq<char>,
    pub hidden: Option<Seq<char>>,
}

/// After the first `n` chunks between opening brackets.
pub open spec fn visible_state(chunks: Seq<Seq<char>>, n: int) -> VisibleState
    decreases n,
{
    if n <= 0 {
        VisibleState { out: Seq::empty(), hidden: None }
    } else if n == 1 {
        VisibleState { out: chunks[0], hidden: None }
    } else {
        let before = visible_state(chunks, n - 1);
        let tag = tag_part(chunks[n - 1]);
        let name = tag_name(tag);
        let closing = tag.len() > 0 && tag[0] == '/';
        match before.hidden {
            Some(open) => if closing && name == open {
                VisibleState { out: before.out, hidden: None }
            } else {
                before
            },
            None => if is_one_of(name, hidden_tags()) && !closing && !(tag.len() > 0 && tag.last()
                == '/') {
                VisibleState { out: before.out, hidden: Some(name) }
            } else {
                VisibleState { out: before.out + " "@ + after_tag(chunks[n - 1]), hidden: None }
            },
        }
    }
}

/// The character references that are resolved, one after the other.
pub open spec fn resolve_references(s: Seq<char>) -> Seq<char> {
    replaced(
        replaced(
            replaced(
                replaced(
                    replaced(
                        replaced(
                            replaced(replaced(s, "&nbsp;"@, " "@), "&quot;"@, "\""@),
                            "&#39;"@,
                            "'"@,
                        ),
                        "&#039;"@,
                        "'"@,
                    ),
                    "&#x27;"@,
                    "'"@,
                ),
                "&lt;"@,
                "<"@,
            ),
            "&gt;"@,
            ">"@,
        ),
        "&amp;"@,
        "&"@,
    )
}

/// The visible text of markup, with one space between words.
pub open spec fn visible_text(html: Seq<char>) -> Seq<char> {
    let chunks = split(html, '<');
    collapse(resolve_references(visible_state(chunks, chunks.len() as int).out))
}

fn tag_parts(chunk: &Vec<char>) -> (r: (Vec<char>, Vec<char>))
    ensures
        r.0@ == tag_part(chunk@),
        r.1@ == after_tag(chunk@),
{
    match seek_from(chunk, ">", 0) {
        Some(end) => {
            proof {
                reveal_strlit(">");
                assert(chunk@.take(end as int) =~= chunk@.subrange(0, end as int));
                assert(chunk@.skip(end as int + 1) =~= chunk@.subrange(
                    end as int + 1,
                    chunk@.len() as int,
                ));
            }
            (slice(chunk, 0, end), slice(chunk, end + 1, chunk.len()))
        },
        None => {
            let empty: Vec<char> = Vec::new();
            proof {
                assert(empty@ =~= Seq::empty());
            }
            (copy_chars(chunk), empty)
        },
    }
}

fn name_of(tag: &Vec<char>) -> (r: Vec<char>)
    ensures
        r@ == tag_name(tag@),
{
    let mut i: usize = 0;
    proof {
        assert(tag@.skip(0) =~= tag@);
    }
    while i < tag.len() && tag[i] == '/'
        invariant
            i <= tag@.len(),
            without_slashes(tag@) == without_slashes(tag@.skip(i as int)),
        decreases tag@.len() - i,
    {
        proof {
            assert(tag@.skip(i as int).drop_first() =~= tag@.skip(i as int + 1));
        }
        i = i + 1;
    }
    let ghost bare = tag@.skip(i as int);
    let mut word: Vec<char> = Vec::new();
    let mut j: usize = i;
    proof {
        assert(word@ + leading_word(bare) =~= leading_word(bare));
    }
    while j < tag.len() && (ascii_letter(tag[j]) || digit(tag[j]))
        invariant
            i <= j <= tag@.len(),
            bare == tag@.skip(i as int),
            word@ + leading_word(tag@.skip(j as int)) == leading_word(bare),
        decreases tag@.len() - j,
    {
        let ghost before = word@;
        word.push(tag[j]);
        proof {
            let rest = tag@.skip(j as int);
            assert(rest.drop_first() =~= tag@.skip(j as int + 1));
            assert(rest[0] == tag@[j as int]);
            assert(word@ + leading_word(tag@.skip(j as int + 1)) =~= before + (seq![rest[0]]
                + leading_word(tag@.skip(j as int + 1))));
        }
        j = j + 1;
    }
    proof {
        assert(word@ + leading_word(tag@.skip(j as int)) =~= word@);
    }
    lower_ascii(&word)
}

fn resolve(s: &Vec<char>) -> (r: Vec<char>)
    ensures
        r@ == resolve_references(s@),
{
    let a = replace(s, "&nbsp;", " ");
    let b = replace(&a, "&quot;", "\"");
    let c = replace(&b, "&#39;", "'");
    let d = replace(&c, "&#039;", "'");
    let e = replace(&d, "&#x27;", "'");
    let f = replace(&e, "&lt;", "<");
    let g = replace(&f, "&gt;", ">");
    replace(&g, "&amp;", "&")
}

fn visible_chars(html: &Vec<char>) -> (r: Vec<char>)
    ensures
        r@ == visible_text(html@),
{
    let chunks = split_of(html, '<');
    let ghost model = texts(chunks@);
    let mut out: Vec<char> = copy_chars(&chunks[0]);
    let mut hidden: Option<Vec<char>> = None;
    let mut i: usize = 1;
    let names = ["script", "style", "noscript"];
    proof {
        assert(names@ =~= hidden_tags());
    }
    while i < chunks.len()
        invariant
            1 <= i <= chunks@.len(),
            model == texts(chunks@),
            names@ == hidden_tags(),
            out@ == visible_state(model, i as int).out,
            match hidden {
                Some(name) => visible_state(model, i as int).hidden == Some(name@),
                None => visible_state(model, i as int).hidden is None,
            },
        decreases chunks@.len() - i,
    {
        let (tag, text) = tag_parts(&chunks[i]);
        let name = name_of(&tag);
        let closing = tag.len() > 0 && tag[0] == '/';
        proof {
            assert(model[i as int] == chunks@[i as int]@);
        }
        match hidden {
            Some(open) => {
                if closing && same_chars(&name, &open) {
                    hidden = None;
                } else {
                    hidden = Some(open);
                }
            },
            None => {
                if one_of(&name, &names) && !closing && !(tag.len() > 0 && tag[tag.len() - 1]
                    == '/') {
                    hidden = Some(name);
                } else {
                    let ghost before = out@;
                    push_text(&mut out, " ");
                    push_all(&mut out, &text);
                    hidden = None;
                    proof {
                        assert(out@ =~= before + " "@ + text@);
                    }
                }
            },
        }
        i = i + 1;
    }
    let resolved_text = resolve(&out);
    collapsed(&resolved_text)
}

pub fn html_to_text(html: &str) -> (r: String)
    ensures
        r@ == visible_text(html@),
{
    let chars = chars_of(html);
    let text = visible_chars(&chars);
    string_of(&text)
}

/// The value of a hexadecimal digit.
pub open spec fn hex_value(b: u8) -> Option<u8> {
    if 48 <= b <= 57 {
        Some((b - 48) as u8)
    } else if 97 <= b <= 102 {
        Some((b - 87) as u8)
    } else if 65 <= b <= 70 {
        Some((b - 55) as u8)
    } else {
        None
    }
}

/// The byte that two characters denote: two digits, or a sign and one.
pub open spec fn hex_pair(a: u8, b: u8) -> Option<u8> {
    match (hex_value(a), hex_value(b)) {
        (Some(x), Some(y)) => Some((x * 16 + y) as u8),
        (None, Some(y)) => if a == 43 {
            Some(y)
        } else {
            None
        },
        _ => None,
    }
}

/// Percent escapes and plus signs resolved from `i` on.
pub open spec fn decoded_from(bytes: Seq<u8>, i: int) -> Seq<u8>
    decreases bytes.len() - i,
{
    if i < 0 || i >= bytes.len() {
        Seq::empty()
    } else if bytes[i] == 37 && i + 2 < bytes.len() && hex_pair(bytes[i + 1], bytes[i + 2]) is Some {
        seq![hex_pair(bytes[i + 1], bytes[i + 2])->0] + decoded_from(bytes, i + 3)
    } else {
        seq![
            if bytes[i] == 43 {
                32u8
            } else {
                bytes[i]
            },
        ] + decoded_from(bytes, i + 1)
    }
}

/// The bytes that a text with escapes stands for.
pub open spec fn decoded_bytes(value: Seq<char>) -> Seq<u8> {
    decoded_from(encode_utf8(value), 0)
}

pub open spec fn percent_decoded(value: Seq<char>) -> Seq<char> {
    lossy_text(decoded_bytes(value))
}

fn hex_of_byte(b: u8) -> (r: Option<u8>)
    ensures
        r == hex_value(b),
        match r {
            Some(v) => v < 16,
            None => true,
        },
{
    if 48 <= b && b <= 57 {
        Some(b - 48)
    } else if 97 <= b && b <= 102 {
        Some(b - 87)
    } else if 65 <= b && b <= 70 {
        Some(b - 55)
    } else {
        None
    }
}

fn pair_value(a: u8, b: u8) -> (r: Option<u8>)
    ensures
        r == hex_pair(a, b),
{
    match (hex_of_byte(a), hex_of_byte(b)) {
        (Some(x), Some(y)) => Some(x * 16 + y),
        (None, Some(y)) => if a == 43 {
            Some(y)
        } else {
            None
        },
        _ => None,
    }
}

pub fn percent_decode(value: &str) -> (r: String)
    ensures
        r@ == percent_decoded(value@),
        keeps_utf8(decoded_bytes(value@)),
{
    let bytes = value.as_bytes();
    let mut out: Vec<u8> = Vec::new();
    let mut i: usize = 0;
    proof {
        assert(out@ + decoded_from(bytes@, 0) =~= decoded_from(bytes@, 0));
    }
    while i < bytes.len()
        invariant
            i <= bytes@.len(),
            out@ + decoded_from(bytes@, i as int) == decoded_from(bytes@, 0),
        decreases bytes@.len() - i,
    {
        let ghost before = out@;
        let mut step: usize = 1;
        if bytes[i] == 37 && bytes.len() - i > 2 {
            if let Some(b) = pair_value(bytes[i + 1], bytes[i + 2]) {
                out.push(b);
                step = 3;
            }
        }
        if step == 1 {
            out.push(
                if bytes[i] == 43 {
                    32
                } else {
                    bytes[i]
                },
            );
        }
        proof {
            assert(out@ + decoded_from(bytes@, i + step) =~= before + (seq![out@.last()]
                + decoded_from(bytes@, i + step)));
        }
        i = i + step;
    }
    proof {
        assert(out@ + decoded_from(bytes@, i as int) =~= out@);
    }
    text_of_bytes(out.as_slice())
}

/// Up to the first character `c`.
pub open spec fn before_char(s: Seq<char>, c: char) -> Seq<char>
    decreases s.len(),
{
    if s.len() == 0 || s[0] == c {
        Seq::empty()
    } else {
        seq![s[0]] + before_char(s.drop_first(), c)
    }
}

fn up_to_char(s: &Vec<char>, from: usize, c: char) -> (r: Vec<char>)
    requires
        from <= s@.len(),
    ensures
        r@ == before_char(s@.skip(from as int), c),
{
    let mut out: Vec<char> = Vec::new();
    let mut i: usize = from;
    let ghost whole = before_char(s@.skip(from as int), c);
    proof {
        assert(out@ + before_char(s@.skip(i as int), c) =~= whole);
    }
    while i < s.len() && s[i] != c
        invariant
            from <= i <= s@.len(),
            out@ + before_char(s@.skip(i as int), c) == whole,
        decreases s@.len() - i,
    {
        let ghost before = out@;
        out.push(s[i]);
        proof {
            let rest = s@.skip(i as int);
            assert(rest.drop_first() =~= s@.skip(i as int + 1));
            assert(rest[0] == s@[i as int]);
            assert(out@ + before_char(s@.skip(i as int + 1), c) =~= before + (seq![rest[0]]
                + before_char(s@.skip(i as int + 1), c)));
        }
        i = i + 1;
    }
    proof {
        assert(out@ + before_char(s@.skip(i as int), c) =~= out@);
    }
    out
}

/// The escaped address that a redirect of the result page carries.
pub open spec fn carried_address(href: Seq<char>) -> Option<Seq<char>> {
    match seek(href, "uddg="@, 0) {
        Some(at) => Some(before_char(href.skip(at + 5), '&')),
        None => None,
    }
}

/// The address behind a link of the result page: the one that a redirect
/// carries, or the link itself with a scheme.
pub open spec fn ddg_href(href: Seq<char>) -> Seq<char> {
    match carried_address(href) {
        Some(escaped) => percent_decoded(escaped),
        None => if starts_with(href, "//"@) {
            "https://"@ + href.skip(2)
        } else {
            href
        },
    }
}

pub fn normalize_ddg_href(href: &str) -> (r: String)
    ensures
        r@ == ddg_href(href@),
        carried_address(href@) matches Some(escaped) ==> keeps_utf8(decoded_bytes(escaped)),
{
    let chars = chars_of(href);
    proof {
        reveal_strlit("uddg=");
        reveal_strlit("//");
    }
    match seek_from(&chars, "uddg=", 0) {
        Some(at) => {
            let encoded = up_to_char(&chars, at + 5, '&');
            let text = string_of(&encoded);
            percent_decode(text.as_str())
        },
        None => {
            if begins(&chars, "//") {
                let rest = slice(&chars, 2, chars.len());
                proof {
                    assert(rest@ =~= chars@.skip(2));
                }
                let mut out = chars_of("https://");
                push_all(&mut out, &rest);
                string_of(&out)
            } else {
                href.to_owned()
            }
        },
    }
}

/// One result of the result page.
pub struct ResultModel {
    pub title: Seq<char>,
    pub url: Seq<char>,
    pub snippet: Seq<char>,
}

/// The text between the end of the tag at `from` and `close`.
pub open spec fn inner_text(s: Seq<char>, tag_end: int, close: int) -> Seq<char> {
    if tag_end < close {
        visible_text(s.subrange(tag_end + 1, close))
    } else {
        Seq::empty()
    }
}

/// The snippet that follows a result.
pub open spec fn snippet_after(s: Seq<char>, from: int) -> Seq<char> {
    match seek(s, "result-snippet"@, from) {
        Some(at) => match (seek(s, ">"@, at), seek(s, "</td>"@, at)) {
            (Some(tag_end), Some(close)) => inner_text(s, tag_end, close),
            _ => Seq::empty(),
        },
        None => Seq::empty(),
    }
}

pub open spec fn result_anchor() -> Seq<char> {
    "<a rel=\"nofollow\" href=\""@
}

/// The results of the page from `pos` on, at most `room` of them. A result
/// without title or address is passed over.
pub open spec fn results_from(s: Seq<char>, pos: int, room: nat) -> Seq<ResultModel>
    decreases s.len() - pos,
{
    if room == 0 || pos < 0 {
        Seq::empty()
    } else {
        match seek(s, result_anchor(), pos) {
            Some(anchor) => {
                let after = anchor + result_anchor().len();
                match (seek(s, "\""@, after), seek(s, ">"@, after), seek(s, "</a>"@, after)) {
                    (Some(quote), Some(tag_end), Some(close)) => {
                        let item = ResultModel {
                            title: inner_text(s, tag_end, close),
                            url: ddg_href(s.subrange(after, quote)),
                            snippet: snippet_after(s, after),
                        };
                        proof {
                            reveal_strlit("</a>");
                        }
                        if item.url.len() > 0 && item.title.len() > 0 {
                            seq![item] + results_from(s, close + 4, (room - 1) as nat)
                        } else {
                            results_from(s, close + 4, room)
                        }
                    },
                    _ => Seq::empty(),
                }
            },
            None => Seq::empty(),
        }
    }
}

pub open spec fn result_models(v: Seq<(String, String, String)>) -> Seq<ResultModel> {
    Seq::new(
        v.len(),
        |i: int| ResultModel { title: v[i].0@, url: v[i].1@, snippet: v[i].2@ },
    )
}

fn inner_chars(s: &Vec<char>, tag_end: usize, close: usize) -> (r: Vec<char>)
    requires
        close <= s@.len(),
    ensures
        r@ == inner_text(s@, tag_end as int, close as int),
{
    if tag_end < close {
        let inner = slice(s, tag_end + 1, close);
        visible_chars(&inner)
    } else {
        let empty: Vec<char> = Vec::new();
        proof {
            assert(empty@ =~= Seq::empty());
        }
        empty
    }
}

fn snippet_chars(s: &Vec<char>, from: usize) -> (r: Vec<char>)
    ensures
        r@ == snippet_after(s@, from as int),
{
    let empty: Vec<char> = Vec::new();
    proof {
        assert(empty@ =~= Seq::empty());
    }
    match seek_from(s, "result-snippet", from) {
        Some(at) => match (seek_from(s, ">", at), seek_from(s, "</td>", at)) {
            (Some(tag_end), Some(close)) => inner_chars(s, tag_end, close),
            _ => empty,
        },
        None => empty,
    }
}

pub fn parse_ddg_lite(html: &str, max: usize) -> (r: Vec<(String, String, String)>)
    ensures
        result_models(r@) == results_from(html@, 0, max as nat),
{
    let s = chars_of(html);
    let mut out: Vec<(String, String, String)> = Vec::new();
    let mut pos: usize = 0;
    proof {
        assert(result_models(out@) + results_from(s@, 0, max as nat) =~= results_from(
            s@,
            0,
            max as nat,
        ));
        reveal_strlit("<a rel=\"nofollow\" href=\"");
        reveal_strlit("\"");
        reveal_strlit(">");
        reveal_strlit("</a>");
    }
    while out.len() < max
        invariant
            s@ == html@,
            pos <= s@.len(),
            out@.len() <= max,
            "\""@.len() == 1,
            ">"@.len() == 1,
            "</a>"@.len() == 4,
            result_anchor().len() > 0,
            result_models(out@) + results_from(s@, pos as int, (max - out@.len()) as nat)
                == results_from(s@, 0, max as nat),
        decreases s@.len() - pos,
    {
        let ghost room = (max - out@.len()) as nat;
        let ghost before = out@;
        let found = seek_from(&s, "<a rel=\"nofollow\" href=\"", pos);
        let anchor: usize = match found {
            Some(a) => a,
            None => {
                proof {
                    assert(results_from(s@, pos as int, room) =~= Seq::empty());
                    assert(result_models(out@) + Seq::empty() =~= result_models(out@));
                }
                return out;
            },
        };
        let anchor_text = chars_of("<a rel=\"nofollow\" href=\"");
        let after: usize = anchor + anchor_text.len();
        match (seek_from(&s, "\"", after), seek_from(&s, ">", after), seek_from(&s, "</a>", after)) {
            (Some(quote), Some(tag_end), Some(close)) => {
                let href_chars = slice(&s, after, quote);
                let href = string_of(&href_chars);
                let title = inner_chars(&s, tag_end, close);
                let snippet = snippet_chars(&s, after);
                let url = normalize_ddg_href(href.as_str());
                let url_chars = chars_of(url.as_str());
                if url_chars.len() > 0 && title.len() > 0 {
                    let title_text = string_of(&title);
                    let snippet_text = string_of(&snippet);
                    out.push((title_text, url, snippet_text));
                    proof {
                        let item = ResultModel { title: title@, url: url@, snippet: snippet@ };
                        assert(result_models(out@) =~= result_models(before).push(item));
                        let tail = results_from(s@, close as int + 4, (room - 1) as nat);
                        assert(result_models(out@) + tail =~= result_models(before) + (seq![item]
                            + tail));
                    }
                }
                pos = close + 4;
            },
            _ => {
                proof {
                    assert(results_from(s@, pos as int, room) =~= Seq::empty());
                    assert(result_models(out@) + Seq::empty() =~= result_models(out@));
                }
                return out;
            },
        }
    }
    proof {
        assert(results_from(s@, pos as int, 0) =~= Seq::empty());
        assert(result_models(out@) + Seq::empty() =~= result_models(out@));
    }
    out
}

/// The value of an attribute whose opening is `pattern`, up to `quote`.
pub open spec fn attribute(tag: Seq<char>, pattern: Seq<char>, quote: Seq<char>) -> Option<Seq<char>> {
    match seek(tag, pattern, 0) {
        Some(at) => match seek(tag, quote, at + pattern.len()) {
            Some(end) => Some(tag.subrange(at + pattern.len(), end)),
            None => None,
        },
        None => None,
    }
}

/// The link of an anchor tag, in double or single quotes.
pub open spec fn href_of(tag: Seq<char>) -> Option<Seq<char>> {
    match attribute(tag, "href=\""@, "\""@) {
        Some(value) => Some(value),
        None => attribute(tag, "href='"@, "'"@),
    }
}

/// A link that leads nowhere else.
pub open spec fn is_local_link(href: Seq<char>) -> bool {
    starts_with(href, "#"@) || starts_with(href, "javascript:"@) || starts_with(href, "mailto:"@)
}

/// The longest label of a link.
pub open spec fn link_label(inner: Seq<char>) -> Seq<char> {
    trim(prefix(visible_text(inner), 60))
}

/// A link of a page: the canonical address, and its label.
pub struct LinkModel {
    pub url: WebUrl,
    pub label: Seq<char>,
}

pub open spec fn has_link(links: Seq<LinkModel>, url: Seq<char>) -> bool {
    exists|i: int| 0 <= i < links.len() && (#[trigger] links[i]).url.text@ == url
}

/// The address of a link on a page, where it is a web address.
pub open spec fn link_target(base: WebUrl, tag: Seq<char>) -> Option<WebUrl> {
    match href_of(tag) {
        Some(href) => if is_local_link(href) {
            None
        } else {
            match resolved(base.text@, href) {
                Some(url) => normalized(url),
                None => None,
            }
        },
        None => None,
    }
}

/// The links found so far and those from `pos` on, at most `max`, each
/// address once.
pub open spec fn links_from(
    s: Seq<char>,
    base: WebUrl,
    pos: int,
    found: Seq<LinkModel>,
    max: nat,
) -> Seq<LinkModel>
    decreases s.len() - pos,
{
    if found.len() >= max || pos < 0 {
        found
    } else {
        match seek(s, "<a "@, pos) {
            Some(anchor) => match (seek(s, ">"@, anchor), seek(s, "</a>"@, anchor)) {
                (Some(tag_end), Some(close)) => {
                    let inner = if tag_end < close {
                        s.subrange(tag_end + 1, close)
                    } else {
                        Seq::empty()
                    };
                    let label = link_label(inner);
                    let next = match link_target(base, s.subrange(anchor, tag_end)) {
                        Some(url) => if label.len() == 0 || has_link(found, url.text@) {
                            found
                        } else {
                            found.push(LinkModel { url, label })
                        },
                        None => found,
                    };
                    proof {
                        reveal_strlit("</a>");
                    }
                    links_from(s, base, close + 4, next, max)
                },
                _ => found,
            },
            None => found,
        }
    }
}

/// The links of a page with a host.
pub open spec fn page_links(html: Seq<char>, base: WebUrl, max: nat) -> Seq<LinkModel> {
    if base.host is None {
        Seq::empty()
    } else {
        links_from(html, base, 0, Seq::empty(), max)
    }
}

pub open spec fn link_models(v: Seq<ValidatedReference>) -> Seq<LinkModel> {
    Seq::new(v.len(), |i: int| LinkModel { url: v[i].url, label: v[i].label@ })
}

fn attribute_chars(tag: &Vec<char>, pattern: &str, quote: &str) -> (r: Option<Vec<char>>)
    ensures
        match r {
            Some(v) => attribute(tag@, pattern@, quote@) == Some(v@),
            None => attribute(tag@, pattern@, quote@) is None,
        },
{
    let pattern_chars = chars_of(pattern);
    match seek_from(tag, pattern, 0) {
        Some(at) => {
            let start: usize = at + pattern_chars.len();
            match seek_from(tag, quote, start) {
                Some(end) => Some(slice(tag, start, end)),
                None => None,
            }
        },
        None => None,
    }
}

fn target_of(base: &WebUrl, tag: &Vec<char>) -> (r: Option<WebUrl>)
    ensures
        r == link_target(*base, tag@),
{
    let href = match attribute_chars(tag, "href=\"", "\"") {
        Some(value) => Some(value),
        None => attribute_chars(tag, "href='", "'"),
    };
    match href {
        Some(value) => {
            if begins(&value, "#") || begins(&value, "javascript:") || begins(&value, "mailto:") {
                return None;
            }
            let text = string_of(&value);
            match base.join(text.as_str()) {
                Some(url) => match normalize_url(&url) {
                    Ok(u) => Some(u),
                    Err(_) => None,
                },
                None => None,
            }
        },
        None => None,
    }
}

fn knows_link(links: &Vec<ValidatedReference>, url: &WebUrl) -> (r: bool)
    ensures
        r == has_link(link_models(links@), url.text@),
{
    let mut i: usize = 0;
    while i < links.len()
        invariant
            i <= links@.len(),
            forall|k: int| 0 <= k < i ==> (#[trigger] link_models(links@)[k]).url.text@ != url.text@,
        decreases links@.len() - i,
    {
        if links[i].url.same(url) {
            assert(link_models(links@)[i as int].url.text@ == url.text@);
            return true;
        }
        i = i + 1;
    }
    false
}

pub fn extract_validated_links(html: &str, base: &WebUrl, max: usize) -> (r: Vec<ValidatedReference>)
    ensures
        link_models(r@) == page_links(html@, *base, max as nat),
{
    let mut links: Vec<ValidatedReference> = Vec::new();
    proof {
        assert(link_models(links@) =~= Seq::empty());
    }
    if base.host.is_none() {
        return links;
    }
    let s = chars_of(html);
    let mut pos: usize = 0;
    proof {
        reveal_strlit("<a ");
        reveal_strlit(">");
        reveal_strlit("</a>");
    }
    while links.len() < max
        invariant
            s@ == html@,
            base.host is Some,
            pos <= s@.len(),
            "<a "@.len() == 3,
            ">"@.len() == 1,
            "</a>"@.len() == 4,
            links_from(s@, *base, pos as int, link_models(links@), max as nat) == page_links(
                html@,
                *base,
                max as nat,
            ),
        decreases s@.len() - pos,
    {
        let anchor: usize = match seek_from(&s, "<a ", pos) {
            Some(a) => a,
            None => {
                return links;
            },
        };
        match (seek_from(&s, ">", anchor), seek_from(&s, "</a>", anchor)) {
            (Some(tag_end), Some(close)) => {
                let tag = slice(&s, anchor, tag_end);
                let inner = if tag_end < close {
                    slice(&s, tag_end + 1, close)
                } else {
                    let empty: Vec<char> = Vec::new();
                    proof {
                        assert(empty@ =~= Seq::empty());
                    }
                    empty
                };
                let visible = visible_chars(&inner);
                let head = prefix_of(&visible, 60);
                let label = trimmed(&head);
                let ghost before = links@;
                if let Some(url) = target_of(base, &tag) {
                    if label.len() > 0 && !knows_link(&links, &url) {
                        let text = string_of(&label);
                        links.push(ValidatedReference { url, label: text });
                        proof {
                            assert(link_models(links@) =~= link_models(before).push(
                                LinkModel { url, label: label@ },
                            ));
                        }
                    }
                }
                pos = close + 4;
            },
            _ => {
                return links;
            },
        }
    }
    links
}

/// A character as it is shown inside markup.
pub open spec fn escaped_char(c: char) -> Seq<char> {
    if c == '&' {
        "&amp;"@
    } else if c == '<' {
        "&lt;"@
    } else if c == '>' {
        "&gt;"@
    } else {
        seq![c]
    }
}

/// A text with the characters of markup escaped.
pub open spec fn escaped(s: Seq<char>) -> Seq<char>
    decreases s.len(),
{
    if s.len() == 0 {
        s
    } else {
        escaped(s.drop_last()) + escaped_char(s.last())
    }
}

pub fn escape_chars(value: &str) -> (r: Vec<char>)
    ensures
        r@ == escaped(value@),
{
    let s = chars_of(value);
    let mut out: Vec<char> = Vec::new();
    let mut i: usize = 0;
    proof {
        assert(s@.take(0) =~= Seq::empty());
        assert(out@ =~= escaped(s@.take(0)));
    }
    while i < s.len()
        invariant
            i <= s@.len(),
            out@ == escaped(s@.take(i as int)),
        decreases s@.len() - i,
    {
        let ghost before = out@;
        proof {
            let next = s@.take(i as int + 1);
            assert(next.drop_last() =~= s@.take(i as int));
            assert(next.last() == s@[i as int]);
        }
        if s[i] == '&' {
            push_text(&mut out, "&amp;");
        } else if s[i] == '<' {
            push_text(&mut out, "&lt;");
        } else if s[i] == '>' {
            push_text(&mut out, "&gt;");
        } else {
            out.push(s[i]);
            proof {
                assert(before.push(s@[i as int]) =~= before + seq![s@[i as int]]);
            }
        }
        i = i + 1;
    }
    proof {
        assert(s@.take(s@.len() as int) =~= s@);
    }
    out
}

pub fn escape_untrusted_text(value: &str) -> (r: String)
    ensures
        r@ == escaped(value@),
{
    let chars = escape_chars(value);
    string_of(&chars)
}

/// Escaped text opens and closes no tag: it cannot leave the block of
/// untrusted data that it stands in.
pub proof fn escaped_text_holds_no_tags(s: Seq<char>)
    ensures
        !has_char(escaped(s), '<'),
        !has_char(escaped(s), '>'),
    decreases s.len(),
{
    if s.len() > 0 {
        escaped_text_holds_no_tags(s.drop_last());
        reveal_strlit("&amp;");
        reveal_strlit("&lt;");
        reveal_strlit("&gt;");
        let head = escaped(s.drop_last());
        let tail = escaped_char(s.last());
        assert(forall|i: int| 0 <= i < tail.len() ==> tail[i] != '<' && tail[i] != '>');
        assert forall|i: int| 0 <= i < escaped(s).len() implies #[trigger] escaped(s)[i] != '<'
            && escaped(s)[i] != '>' by {
            if i < head.len() {
                assert(escaped(s)[i] == head[i]);
                assert(!has_char(head, '<'));
            } else {
                assert(escaped(s)[i] == tail[i - head.len()]);
            }
        }
    }
}

} // verus!
