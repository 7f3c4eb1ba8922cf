//! Texts as they are shown for debugging: shortened, on one line, and without
//! credentials.

use crate::bytes::{byte_len, byte_length, byte_prefix, byte_prefix_of};
use crate::json::{parse_json, parsed_json, text_field, Json};
use crate::text::{
    ascii_lowercase, begins, chars_of, collapse, collapsed, contains, decimal, decimal_of, has,
    join, join_chars, lower_ascii, push_all, push_text, same, slice, split, split_of, starts_with,
    string_of, texts, words, words_of,
};
use vstd::prelude::*;

verus! {

/// The size beyond which the log of traces is rotated.
pub const MAX_TRACE_LOG_BYTES: u64 = 5_242_880;

/// A text on one line, cut after a number of bytes.
pub open spec fn preview(s: Seq<char>, max: nat) -> Seq<char> {
    let compact = collapse(s);
    if byte_len(compact) <= max {
        compact
    } else {
        byte_prefix(compact, max) + "…"@
    }
}

pub fn preview_text(s: &str, max: usize) -> (r: String)
    ensures
        r@ == preview(s@, max as nat),
{
    let chars = chars_of(s);
    let compact = collapsed(&chars);
    if byte_length(&compact) <= max as u128 {
        string_of(&compact)
    } else {
        let mut out = byte_prefix_of(&compact, max);
        push_text(&mut out, "…");
        string_of(&out)
    }
}

/// A text cut after the characters that fit into a number of bytes, where it is
/// longer.
pub open spec fn cut(s: Seq<char>, max: nat) -> Seq<char> {
    if byte_len(s) > max {
        byte_prefix(s, max) + "…"@
    } else {
        s
    }
}

/// The beginning of an output. No character is split.
pub fn output_snippet(s: &str, max: usize) -> (r: String)
    ensures
        r@ == cut(s@, max as nat),
{
    let chars = chars_of(s);
    if byte_length(&chars) > max as u128 {
        let mut out = byte_prefix_of(&chars, max);
        push_text(&mut out, "…");
        string_of(&out)
    } else {
        string_of(&chars)
    }
}

/// A word that may hold a credential.
pub open spec fn is_credential(word: Seq<char>) -> bool {
    let lowered = ascii_lowercase(word);
    ||| starts_with(lowered, "bearer"@)
    ||| starts_with(lowered, "sk-"@)
    ||| contains(lowered, "api_key"@)
    ||| contains(lowered, "authorization:"@)
}

pub open spec fn redacted_word(word: Seq<char>) -> Seq<char> {
    if is_credential(word) {
        "[REDACTED]"@
    } else {
        word
    }
}

pub open spec fn redacted_words(list: Seq<Seq<char>>) -> Seq<Seq<char>> {
    Seq::new(list.len(), |i: int| redacted_word(list[i]))
}

/// A text without the words that may hold a credential.
pub open spec fn redacted(s: Seq<char>) -> Seq<char> {
    join(redacted_words(words(s)), " "@)
}

fn redact_word(word: &Vec<char>) -> (r: Vec<char>)
    ensures
        r@ == redacted_word(word@),
{
    let lowered = lower_ascii(word);
    if begins(&lowered, "bearer") || begins(&lowered, "sk-") || has(&lowered, "api_key") || has(
        &lowered,
        "authorization:",
    ) {
        chars_of("[REDACTED]")
    } else {
        crate::text::copy_chars(word)
    }
}

pub fn redact_debug_text(s: &str) -> (r: String)
    ensures
        r@ == redacted(s@),
{
    let chars = chars_of(s);
    let parts = words_of(&chars);
    let mut kept: Vec<Vec<char>> = Vec::new();
    let mut i: usize = 0;
    while i < parts.len()
        invariant
            i <= parts@.len(),
            kept@.len() == i,
            forall|j: int| 0 <= j < i ==> #[trigger] kept@[j]@ == redacted_word(parts@[j]@),
        decreases parts@.len() - i,
    {
        kept.push(redact_word(&parts[i]));
        i = i + 1;
    }
    proof {
        assert(texts(kept@) =~= redacted_words(texts(parts@)));
    }
    let out = join_chars(&kept, " ");
    string_of(&out)
}

/// No word of a redacted text is one that may hold a credential.
pub proof fn redaction_leaves_no_credential(s: Seq<char>, i: int)
    requires
        0 <= i < redacted_words(words(s)).len(),
    ensures
        !is_credential(redacted_words(words(s))[i]),
{
    reveal_strlit("[REDACTED]");
    reveal_strlit("bearer");
    reveal_strlit("sk-");
    reveal_strlit("api_key");
    reveal_strlit("authorization:");
    let mark = "[REDACTED]"@;
    let lowered = ascii_lowercase(mark);
    assert(lowered.len() == 10);
    assert(lowered[0] == '[');
    assert forall|k: int| !#[trigger] crate::text::occurs_at(lowered, "api_key"@, k) by {
        if crate::text::occurs_at(lowered, "api_key"@, k) {
            assert(lowered[k + 3] == "api_key"@[3]);
            assert(lowered[k + 3] != '_');
        }
    }
    assert forall|k: int| !#[trigger] crate::text::occurs_at(lowered, "authorization:"@, k) by {}
    assert(!starts_with(lowered, "bearer"@)) by {
        if starts_with(lowered, "bearer"@) {
            assert(lowered[0] == "bearer"@[0]);
        }
    }
    assert(!starts_with(lowered, "sk-"@)) by {
        if starts_with(lowered, "sk-"@) {
            assert(lowered[0] == "sk-"@[0]);
        }
    }
}

/// A layer of a prompt.
#[derive(Debug, PartialEq, Eq)]
pub struct PromptLayer {
    pub name: String,
    pub role: String,
    pub included: bool,
    pub chars: u128,
    pub preview: String,
}

/// The names of the layers that were used.
pub open spec fn included_names(layers: Seq<PromptLayer>) -> Seq<Seq<char>>
    decreases layers.len(),
{
    if layers.len() == 0 {
        Seq::empty()
    } else {
        let before = included_names(layers.drop_last());
        if layers.last().included {
            before.push(layers.last().name@)
        } else {
            before
        }
    }
}

fn names_included(layers: &Vec<PromptLayer>) -> (r: Vec<Vec<char>>)
    ensures
        texts(r@) == included_names(layers@),
{
    let mut names: Vec<Vec<char>> = Vec::new();
    let mut i: usize = 0;
    proof {
        assert(layers@.take(0) =~= Seq::<PromptLayer>::empty());
        assert(texts(names@) =~= included_names(layers@.take(0)));
    }
    while i < layers.len()
        invariant
            i <= layers@.len(),
            texts(names@) == included_names(layers@.take(i as int)),
        decreases layers@.len() - i,
    {
        let ghost next = layers@.take(i + 1);
        proof {
            assert(next.drop_last() =~= layers@.take(i as int));
            assert(next.last() == layers@[i as int]);
        }
        if layers[i].included {
            let ghost before = names@;
            names.push(chars_of(layers[i].name.as_str()));
            proof {
                assert(texts(names@) =~= texts(before).push(layers@[i as int].name@));
            }
        }
        i = i + 1;
    }
    proof {
        assert(layers@.take(layers@.len() as int) =~= layers@);
    }
    names
}

pub open spec fn recall_note(candidates: nat) -> Seq<char> {
    if candidates == 0 {
        "no past-chat candidates"@
    } else {
        decimal(candidates) + " past-chat candidates not injected"@
    }
}

pub open spec fn attempts_note(attempts: Option<u64>) -> Seq<char> {
    match attempts {
        Some(n) => "; mail search attempts="@ + decimal(n as nat),
        None => ""@,
    }
}

pub open spec fn trace_preview(
    layers: Seq<PromptLayer>,
    candidates: nat,
    attempts: Option<u64>,
) -> Seq<char> {
    preview(
        join(included_names(layers), ", "@) + "; "@ + recall_note(candidates) + attempts_note(
            attempts,
        ),
        180,
    )
}

/// A line about a prompt: its layers, the turns that it could have recalled, and
/// how often mail was searched for it.
pub fn debug_trace_preview(
    layers: &Vec<PromptLayer>,
    candidates: u64,
    attempts: Option<u64>,
) -> (r: String)
    ensures
        r@ == trace_preview(layers@, candidates as nat, attempts),
{
    let names = names_included(layers);
    let mut out = join_chars(&names, ", ");
    push_text(&mut out, "; ");
    if candidates == 0 {
        push_text(&mut out, "no past-chat candidates");
    } else {
        let mut note = decimal_of(candidates);
        push_text(&mut note, " past-chat candidates not injected");
        push_all(&mut out, &note);
    }
    match attempts {
        Some(n) => {
            let mut note = chars_of("; mail search attempts=");
            push_all(&mut note, &decimal_of(n));
            push_all(&mut out, &note);
        },
        None => push_text(&mut out, ""),
    }
    let line = string_of(&out);
    preview_text(line.as_str(), 180)
}

/// The log is full and is rotated before the next entry.
pub fn trace_log_is_full(size: u64) -> (r: bool)
    ensures
        r == (size > MAX_TRACE_LOG_BYTES),
{
    size > MAX_TRACE_LOG_BYTES
}

/// A line without the carriage return at its end.
pub open spec fn bare_line(s: Seq<char>) -> Seq<char> {
    if s.len() > 0 && s.last() == '\r' {
        s.drop_last()
    } else {
        s
    }
}

/// The lines of a text; nothing stands after the last line break.
pub open spec fn lines(s: Seq<char>) -> Seq<Seq<char>> {
    let parts = split(s, '\n');
    let full = if parts.last().len() == 0 {
        parts.drop_last()
    } else {
        parts
    };
    Seq::new(full.len(), |i: int| bare_line(full[i]))
}

/// The lines that hold JSON.
pub open spec fn json_lines(list: Seq<Seq<char>>) -> Seq<Json>
    decreases list.len(),
{
    if list.len() == 0 {
        Seq::empty()
    } else {
        let before = json_lines(list.drop_last());
        match parsed_json(list.last()) {
            Some(value) => before.push(value),
            None => before,
        }
    }
}

fn lines_of(s: &Vec<char>) -> (r: Vec<Vec<char>>)
    ensures
        texts(r@) == lines(s@),
{
    let parts = split_of(s, '\n');
    let ghost all = split(s@, '\n');
    let last: usize = parts.len() - 1;
    proof {
        assert(all[last as int] == parts@[last as int]@);
    }
    let count: usize = if parts[last].len() == 0 {
        last
    } else {
        parts.len()
    };
    let mut out: Vec<Vec<char>> = Vec::new();
    let mut i: usize = 0;
    while i < count
        invariant
            count <= parts@.len(),
            i <= count,
            out@.len() == i,
            forall|j: int| 0 <= j < i ==> #[trigger] out@[j]@ == bare_line(parts@[j]@),
        decreases count - i,
    {
        let line = &parts[i];
        let n: usize = line.len();
        if n > 0 && line[n - 1] == '\r' {
            let bare = slice(line, 0, n - 1);
            proof {
                assert(bare@ =~= bare_line(line@));
            }
            out.push(bare);
        } else {
            out.push(crate::text::copy_chars(line));
        }
        i = i + 1;
    }
    proof {
        assert forall|j: int| 0 <= j < count implies #[trigger] texts(out@)[j] == lines(
            s@,
        )[j] by {
            assert(out@[j]@ == bare_line(parts@[j]@));
            assert(all[j] == parts@[j]@);
        }
        assert(texts(out@) =~= lines(s@));
    }
    out
}

/// The records of a log, one in a line; a line that is not JSON is passed over.
pub fn debug_records(content: &str) -> (r: Vec<Json>)
    ensures
        r@ == json_lines(lines(content@)),
{
    let chars = chars_of(content);
    let list = lines_of(&chars);
    let ghost all = lines(content@);
    let mut records: Vec<Json> = Vec::new();
    let mut i: usize = 0;
    proof {
        assert(all.take(0) =~= Seq::<Seq<char>>::empty());
        assert(records@ =~= json_lines(all.take(0)));
    }
    while i < list.len()
        invariant
            i <= list@.len(),
            texts(list@) == all,
            records@ == json_lines(all.take(i as int)),
        decreases list@.len() - i,
    {
        let ghost next = all.take(i + 1);
        proof {
            assert(next.drop_last() =~= all.take(i as int));
            assert(next.last() == list@[i as int]@);
        }
        let line = string_of(&list[i]);
        match parse_json(line.as_str()) {
            Some(value) => records.push(value),
            None => {},
        }
        i = i + 1;
    }
    proof {
        assert(all.take(all.len() as int) =~= all);
    }
    records
}

/// The record holds this text in a field.
pub open spec fn has_text(record: Json, key: Seq<char>, text: Seq<char>) -> bool {
    text_field(record, key) == Some(text)
}

fn holds_text(record: &Json, key: &str, text: &str) -> (r: bool)
    ensures
        r == has_text(*record, key@, text@),
{
    match record.get_text(key) {
        Some(found) => same(found, text),
        None => false,
    }
}

/// The place of the last record with this text in a field.
pub fn last_record(records: &Vec<Json>, key: &str, text: &str) -> (r: Option<usize>)
    ensures
        match r {
            Some(place) => {
                &&& place < records@.len()
                &&& has_text(records@[place as int], key@, text@)
                &&& forall|j: int|
                    place < j < records@.len() ==> !has_text(#[trigger] records@[j], key@, text@)
            },
            None => forall|j: int|
                0 <= j < records@.len() ==> !has_text(#[trigger] records@[j], key@, text@),
        },
{
    let mut i: usize = records.len();
    while i > 0
        invariant
            i <= records@.len(),
            forall|j: int|
                i <= j < records@.len() ==> !has_text(#[trigger] records@[j], key@, text@),
        decreases i,
    {
        i = i - 1;
        if holds_text(&records[i], key, text) {
            return Some(i);
        }
    }
    None
}

/// The places of the records with this text in a field.
pub open spec fn record_places(
    records: Seq<Json>,
    key: Seq<char>,
    text: Seq<char>,
    n: int,
) -> Seq<int>
    decreases n,
{
    if n <= 0 {
        Seq::empty()
    } else {
        let before = record_places(records, key, text, n - 1);
        if has_text(records[n - 1], key, text) {
            before.push(n - 1)
        } else {
            before
        }
    }
}

pub fn matching_records(records: &Vec<Json>, key: &str, text: &str) -> (r: Vec<usize>)
    ensures
        crate::order::indices(r@) == record_places(
            records@,
            key@,
            text@,
            records@.len() as int,
        ),
{
    let mut places: Vec<usize> = Vec::new();
    let mut i: usize = 0;
    proof {
        assert(crate::order::indices(places@) =~= record_places(records@, key@, text@, 0));
    }
    while i < records.len()
        invariant
            i <= records@.len(),
            crate::order::indices(places@) == record_places(records@, key@, text@, i as int),
        decreases records@.len() - i,
    {
        if holds_text(&records[i], key, text) {
            let ghost before = places@;
            places.push(i);
            proof {
                assert(crate::order::indices(places@) =~= crate::order::indices(before).push(
                    i as int,
                ));
            }
        }
        i = i + 1;
    }
    places
}

} // verus!
