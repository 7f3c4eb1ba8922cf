//! Passages of readable text: normal forms, boilerplate and bounded splitting.

use crate::relevance::{
    ascii_word_marks, ascii_words, lower_words_are_runs, term_char, word_char,
};
use crate::spacing::{
    all_in, are_words, class_marks, class_runs, is_spaced, joined_words_are_spaced, none_in,
    runs_are_words, runs_keep_every_character, runs_of_parts, runs_of_word, spaced_texts_stay,
    visible, words_are_visible_runs, words_ignore_the_space_between,
};
use crate::text::{
    all_ascii, alphanumeric, any_term, ascii_lowercase, char_is_alphanumeric, chars_of, collapse,
    collapsed, contains_any, contains_char, copy_chars, count_terms, has_char, is_ascii_letter,
    is_digit, is_white_space, join, join_chars, lower, lower_ascii, lowercase, push_all, runs, runs_of, slice,
    string_of, strings, terms_found, texts, words, words_of,
};
use crate::types::ExtractionLowQualityReason;
use vstd::prelude::*;

verus! {

pub const MAX_PASSAGE_CHARS: usize = 1200;

pub const MAX_EXTRACTED_PASSAGES: usize = 64;

/// What was read on a page.
#[derive(Debug, PartialEq, Eq)]
pub struct MainContent {
    pub passages: Vec<String>,
    pub useful_text_length: u64,
    pub boilerplate_ratio_basis_points: u16,
}

/// One space between words.
pub fn normalize_visible_text(text: &str) -> (r: String)
    ensures
        r@ == collapse(text@),
{
    let chars = chars_of(text);
    let spaced = collapsed(&chars);
    string_of(&spaced)
}

pub open spec fn alphanumeric_marks(s: Seq<char>) -> Seq<bool> {
    Seq::new(s.len(), |i: int| alphanumeric(s[i]))
}

/// The letters and digits of a text in lower case: two texts with the same key
/// say the same.
pub open spec fn dedup_key(text: Seq<char>) -> Seq<char> {
    join(runs(lowercase(text), alphanumeric_marks(lowercase(text))), " "@)
}

/// The key of a text in ASCII: its words of letters and digits in lower case, with
/// one space between two.
pub open spec fn ascii_dedup_key(text: Seq<char>) -> Seq<char> {
    join(ascii_words(ascii_lowercase(text)), " "@)
}

/// A letter or digit, as `char::is_alphanumeric` has it.
pub open spec fn key_char() -> spec_fn(char) -> bool {
    |c: char| alphanumeric(c)
}

/// A key is made of words of letters and digits with one space between two and
/// none at either end. Where nothing in it is left to lower, and a space is none
/// of them, it is its own key.
pub proof fn dedup_keys_stay(text: Seq<char>)
    ensures
        is_spaced(dedup_key(text), key_char(), ' '),
        lowercase(dedup_key(text)) == dedup_key(text) && !alphanumeric(' ') ==> dedup_key(
            dedup_key(text),
        ) == dedup_key(text),
{
    reveal_strlit(" ");
    assert(" "@ =~= seq![' ']);
    let lowered = lowercase(text);
    let key = dedup_key(text);
    assert(alphanumeric_marks(lowered) =~= class_marks(lowered, key_char()));
    assert(alphanumeric_marks(key) =~= class_marks(key, key_char()));
    runs_are_words(lowered, key_char(), |c: char| true);
    joined_words_are_spaced(class_runs(lowered, key_char()), key_char(), ' ');
    if !alphanumeric(' ') {
        spaced_texts_stay(key, key_char(), ' ');
    }
}

/// In ASCII a key is made of words of lower-case letters and digits with one space
/// between two and none at either end, and it is its own key.
pub proof fn ascii_dedup_keys_stay(text: Seq<char>)
    ensures
        is_spaced(ascii_dedup_key(text), term_char(), ' '),
        is_spaced(text, term_char(), ' ') ==> ascii_dedup_key(text) == text,
        ascii_dedup_key(ascii_dedup_key(text)) == ascii_dedup_key(text),
{
    reveal_strlit(" ");
    assert(" "@ =~= seq![' ']);
    let key = ascii_dedup_key(text);
    lower_words_are_runs(text);
    joined_words_are_spaced(ascii_words(ascii_lowercase(text)), term_char(), ' ');
    lemma_key_of_key(key);
    if is_spaced(text, term_char(), ' ') {
        lemma_key_of_key(text);
    }
}

proof fn lemma_key_of_key(key: Seq<char>)
    requires
        is_spaced(key, term_char(), ' '),
    ensures
        ascii_dedup_key(key) == key,
{
    reveal_strlit(" ");
    assert(" "@ =~= seq![' ']);
    assert forall|i: int| 0 <= i < key.len() implies ascii_lowercase(key)[i] == key[i] by {
        assert(term_char()(key[i]) || key[i] == ' ');
    }
    assert(ascii_lowercase(key) =~= key);
    lower_words_are_runs(key);
    assert(is_spaced(key, word_char(), ' ')) by {
        assert forall|i: int| 0 <= i < key.len() implies word_char()(#[trigger] key[i]) || key[i]
            == ' ' by {
            assert(term_char()(key[i]) || key[i] == ' ');
        }
        assert forall|i: int, j: int|
            0 <= i < key.len() && j == i + 1 && j < key.len() implies word_char()(#[trigger] key[i])
            || word_char()(#[trigger] key[j]) by {
            assert(term_char()(key[i]) || term_char()(key[j]));
        }
        if key.len() > 0 {
            assert(term_char()(key[0]) && term_char()(key.last()));
        }
    }
    spaced_texts_stay(key, word_char(), ' ');
}

/// Neither capitals nor what stands between the words of a text, or around them,
/// show in its key.
pub proof fn dedup_keys_ignore_case_and_separators(
    first: Seq<char>,
    gap: Seq<char>,
    second: Seq<char>,
)
    requires
        gap.len() > 0,
        none_in(gap, word_char()),
    ensures
        ascii_dedup_key(ascii_lowercase(first)) == ascii_dedup_key(first),
        ascii_dedup_key(first + gap + second) == ascii_dedup_key(first + " "@ + second),
        ascii_dedup_key(gap + second) == ascii_dedup_key(second),
        ascii_dedup_key(first + gap) == ascii_dedup_key(first),
{
    reveal_strlit(" ");
    let a = ascii_lowercase(first);
    let b = ascii_lowercase(second);
    let g = ascii_lowercase(gap);
    let empty = Seq::<char>::empty();
    assert(ascii_lowercase(a) =~= a);
    assert forall|i: int| 0 <= i < g.len() implies !word_char()(#[trigger] g[i]) by {
        assert(!word_char()(gap[i]));
    }
    assert(ascii_lowercase(first + gap + second) =~= a + g + b);
    assert(ascii_lowercase(first + " "@ + second) =~= a + " "@ + b);
    assert(ascii_lowercase(gap + second) =~= empty + g + b);
    assert(ascii_lowercase(first + gap) =~= a + g + empty);
    lower_words_are_runs(first);
    lower_words_are_runs(second);
    lower_words_are_runs(first + gap + second);
    lower_words_are_runs(first + " "@ + second);
    lower_words_are_runs(gap + second);
    lower_words_are_runs(first + gap);
    runs_of_parts(a, g, b, word_char());
    runs_of_parts(a, " "@, b, word_char());
    runs_of_parts(empty, g, b, word_char());
    runs_of_parts(a, g, empty, word_char());
    runs_of_word(empty, word_char());
    assert(Seq::<Seq<char>>::empty() + ascii_words(b) =~= ascii_words(b));
    assert(ascii_words(a) + Seq::<Seq<char>>::empty() =~= ascii_words(a));
}

/// The key of a text. What is said of ASCII text alone is what
/// `str::to_lowercase` and `char::is_alphanumeric` document.
pub fn dedup_chars(text: &str) -> (r: Vec<char>)
    ensures
        r@ == dedup_key(text@),
        all_ascii(text@) ==> r@ == ascii_dedup_key(text@),
        is_spaced(r@, key_char(), ' '),
{
    let lowered = lower(text);
    let mut marks: Vec<bool> = Vec::new();
    let mut i: usize = 0;
    while i < lowered.len()
        invariant
            i <= lowered@.len(),
            marks@ =~= alphanumeric_marks(lowered@).take(i as int),
            forall|k: int|
                0 <= k < i && (lowered@[k] as u32) < 128 ==> #[trigger] alphanumeric_marks(
                    lowered@,
                )[k] == (is_ascii_letter(lowered@[k]) || is_digit(lowered@[k])),
        decreases lowered@.len() - i,
    {
        marks.push(char_is_alphanumeric(lowered[i]));
        i = i + 1;
    }
    proof {
        assert(marks@ =~= alphanumeric_marks(lowered@));
        dedup_keys_stay(text@);
        if all_ascii(text@) {
            assert forall|k: int| 0 <= k < lowered@.len() implies alphanumeric_marks(lowered@)[k]
                == ascii_word_marks(lowered@)[k] by {
                assert((text@[k] as u32) < 128);
                assert((lowered@[k] as u32) < 128);
            }
            assert(alphanumeric_marks(lowered@) =~= ascii_word_marks(lowered@));
        }
    }
    let parts = runs_of(&lowered, &marks);
    join_chars(&parts, " ")
}

pub fn normalized_dedup_text(text: &str) -> (r: String)
    ensures
        r@ == dedup_key(text@),
        all_ascii(text@) ==> r@ == ascii_dedup_key(text@),
        is_spaced(r@, key_char(), ' '),
{
    let key = dedup_chars(text);
    string_of(&key)
}

pub open spec fn cookie_phrases() -> Seq<&'static str> {
    seq![
        "accept all cookies",
        "accept cookies",
        "reject cookies",
        "cookie settings",
        "cookie preferences",
        "manage consent",
        "privacy choices",
        "we use cookies",
    ]
}

pub open spec fn navigation_phrases() -> Seq<&'static str> {
    seq![
        "home",
        "main page",
        "menu",
        "products",
        "services",
        "departments",
        "careers",
        "contact",
        "sign in",
        "log in",
        "random article",
        "privacy",
        "privacy policy",
        "terms",
        "terms of use",
        "sitemap",
        "skip to content",
    ]
}

/// A consent notice, or a short list of navigation entries without a sentence.
pub open spec fn is_boilerplate_text(text: Seq<char>) -> bool {
    let lowered = ascii_lowercase(text);
    ||| contains_any(lowered, cookie_phrases())
    ||| !has_char(text, '.') && !has_char(text, '!') && !has_char(text, '?') && words(text).len()
        <= 60 && count_terms(lowered, navigation_phrases()) >= 3
}

pub fn text_is_cookie_or_menu_boilerplate(text: &str) -> (r: bool)
    ensures
        r == is_boilerplate_text(text@),
{
    let chars = chars_of(text);
    let lowered = lower_ascii(&chars);
    let cookies = [
        "accept all cookies",
        "accept cookies",
        "reject cookies",
        "cookie settings",
        "cookie preferences",
        "manage consent",
        "privacy choices",
        "we use cookies",
    ];
    let navigation = [
        "home",
        "main page",
        "menu",
        "products",
        "services",
        "departments",
        "careers",
        "contact",
        "sign in",
        "log in",
        "random article",
        "privacy",
        "privacy policy",
        "terms",
        "terms of use",
        "sitemap",
        "skip to content",
    ];
    proof {
        assert(cookies@ =~= cookie_phrases());
        assert(navigation@ =~= navigation_phrases());
    }
    if any_term(&lowered, &cookies) {
        return true;
    }
    if contains_char(&chars, '.') || contains_char(&chars, '!') || contains_char(&chars, '?') {
        return false;
    }
    let parts = words_of(&chars);
    proof {
        assert(texts(parts@).len() == parts@.len());
    }
    parts.len() <= 60 && terms_found(&lowered, &navigation) >= 3
}

/// A word cut into pieces of `size` characters.
pub open spec fn pieces(word: Seq<char>, size: int) -> Seq<Seq<char>>
    decreases word.len(),
{
    if word.len() == 0 || size <= 0 {
        Seq::empty()
    } else if word.len() <= size {
        seq![word]
    } else {
        seq![word.take(size)] + pieces(word.skip(size), size)
    }
}

/// The chunks closed so far, and the open one.
pub struct ChunkState {
    pub chunks: Seq<Seq<char>>,
    pub current: Seq<char>,
}

/// The closed chunks with the open one behind them, where it holds a word.
pub open spec fn closed(state: ChunkState) -> Seq<Seq<char>> {
    if state.current.len() == 0 {
        state.chunks
    } else {
        state.chunks.push(state.current)
    }
}

/// After the first `n` words: a word joins the open chunk where it fits, and an
/// overlong word is cut.
pub open spec fn chunk_state(parts: Seq<Seq<char>>, n: int, size: int) -> ChunkState
    decreases n,
{
    if n <= 0 {
        ChunkState { chunks: Seq::empty(), current: Seq::empty() }
    } else {
        let before = chunk_state(parts, n - 1, size);
        let word = parts[n - 1];
        if word.len() > size {
            ChunkState { chunks: closed(before) + pieces(word, size), current: Seq::empty() }
        } else if before.current.len() > 0 && before.current.len() + 1 + word.len() > size {
            ChunkState { chunks: closed(before), current: word }
        } else if before.current.len() > 0 {
            ChunkState { chunks: before.chunks, current: before.current + " "@ + word }
        } else {
            ChunkState { chunks: before.chunks, current: word }
        }
    }
}

/// A block as chunks of bounded length, cut between words where that is possible.
pub open spec fn block_chunks(block: Seq<char>) -> Seq<Seq<char>> {
    if block.len() <= MAX_PASSAGE_CHARS {
        seq![block]
    } else {
        let parts = words(block);
        closed(chunk_state(parts, parts.len() as int, MAX_PASSAGE_CHARS as int))
    }
}

fn push_pieces(out: &mut Vec<Vec<char>>, word: &Vec<char>, size: usize)
    requires
        size > 0,
    ensures
        texts(final(out)@) == texts(old(out)@) + pieces(word@, size as int),
{
    let mut i: usize = 0;
    let ghost before = texts(out@);
    proof {
        assert(word@.skip(0) =~= word@);
        assert(texts(out@) + pieces(word@, size as int) =~= before + pieces(word@, size as int));
    }
    while word.len() - i > size
        invariant
            i <= word@.len(),
            size > 0,
            texts(out@) + pieces(word@.skip(i as int), size as int) == before + pieces(
                word@,
                size as int,
            ),
        decreases word@.len() - i,
    {
        let ghost earlier = out@;
        let piece = slice(word, i, i + size);
        proof {
            let rest = word@.skip(i as int);
            assert(rest.take(size as int) =~= piece@);
            assert(rest.skip(size as int) =~= word@.skip(i + size));
        }
        out.push(piece);
        proof {
            assert(texts(out@) =~= texts(earlier).push(piece@));
            let tail = pieces(word@.skip(i + size), size as int);
            assert(texts(out@) + tail =~= texts(earlier) + (seq![piece@] + tail));
        }
        i = i + size;
    }
    let ghost earlier = out@;
    if i < word.len() {
        let piece = slice(word, i, word.len());
        proof {
            assert(word@.skip(i as int) =~= piece@);
        }
        out.push(piece);
        proof {
            assert(texts(out@) =~= texts(earlier).push(piece@));
            assert(texts(out@) =~= texts(earlier) + seq![piece@]);
        }
    } else {
        proof {
            assert(texts(out@) + Seq::empty() =~= texts(out@));
        }
    }
}

pub fn block_chunk_chars(block: &Vec<char>) -> (r: Vec<Vec<char>>)
    ensures
        texts(r@) == block_chunks(block@),
{
    let mut chunks: Vec<Vec<char>> = Vec::new();
    if block.len() <= MAX_PASSAGE_CHARS {
        let whole = copy_chars(block);
        chunks.push(whole);
        proof {
            assert(texts(chunks@) =~= seq![block@]);
        }
        return chunks;
    }
    let parts = words_of(block);
    let ghost model = words(block@);
    let ghost size = MAX_PASSAGE_CHARS as int;
    let mut current: Vec<char> = Vec::new();
    let mut i: usize = 0;
    proof {
        assert(texts(chunks@) =~= Seq::empty());
        assert(current@ =~= Seq::empty());
        assert(texts(parts@).len() == parts@.len());
    }
    while i < parts.len()
        invariant
            i <= parts@.len(),
            model == texts(parts@),
            size == MAX_PASSAGE_CHARS,
            texts(chunks@) == chunk_state(model, i as int, size).chunks,
            current@ == chunk_state(model, i as int, size).current,
            current@.len() <= MAX_PASSAGE_CHARS,
        decreases parts@.len() - i,
    {
        let ghost before = chunk_state(model, i as int, size);
        let ghost earlier = chunks@;
        proof {
            assert(model[i as int] == parts@[i as int]@);
        }
        let long = parts[i].len() > MAX_PASSAGE_CHARS;
        if current.len() > 0 && (long || current.len() + 1 + parts[i].len() > MAX_PASSAGE_CHARS) {
            chunks.push(current);
            current = Vec::new();
            proof {
                assert(texts(chunks@) =~= texts(earlier).push(before.current));
            }
        }
        if long {
            push_pieces(&mut chunks, &parts[i], MAX_PASSAGE_CHARS);
            proof {
                assert(current@ =~= Seq::empty());
            }
        } else {
            if current.len() > 0 {
                crate::text::push_text(&mut current, " ");
                proof {
                    reveal_strlit(" ");
                }
            }
            let ghost open = current@;
            push_all(&mut current, &parts[i]);
            proof {
                assert(open + parts@[i as int]@ =~= if open.len() == 0 {
                    parts@[i as int]@
                } else {
                    before.current + " "@ + parts@[i as int]@
                });
            }
        }
        i = i + 1;
    }
    if current.len() > 0 {
        let ghost earlier = chunks@;
        let ghost last = current@;
        chunks.push(current);
        proof {
            assert(texts(chunks@) =~= texts(earlier).push(last));
        }
    }
    chunks
}

pub fn split_long_block(block: &str) -> (r: Vec<String>)
    ensures
        strings(r@) == block_chunks(block@),
{
    let chars = chars_of(block);
    let chunks = block_chunk_chars(&chars);
    strings_of(&chunks)
}

pub fn strings_of(list: &Vec<Vec<char>>) -> (r: Vec<String>)
    ensures
        strings(r@) == texts(list@),
{
    let mut out: Vec<String> = Vec::new();
    let mut i: usize = 0;
    while i < list.len()
        invariant
            i <= list@.len(),
            out@.len() == i,
            forall|k: int| 0 <= k < i ==> (#[trigger] out@[k])@ == list@[k]@,
        decreases list@.len() - i,
    {
        out.push(string_of(&list[i]));
        i = i + 1;
    }
    proof {
        assert(strings(out@) =~= texts(list@));
    }
    out
}

/// The chunks of all blocks.
pub open spec fn all_chunks(blocks: Seq<Seq<char>>) -> Seq<Seq<char>>
    decreases blocks.len(),
{
    if blocks.len() == 0 {
        Seq::empty()
    } else {
        all_chunks(blocks.drop_last()) + block_chunks(blocks.last())
    }
}

pub open spec fn first_texts(list: Seq<Seq<char>>, n: int) -> Seq<Seq<char>> {
    if list.len() <= n {
        list
    } else {
        list.take(n)
    }
}

/// The first chunks of all blocks, as many as a page may have.
pub open spec fn bounded_passages(blocks: Seq<Seq<char>>) -> Seq<Seq<char>> {
    first_texts(all_chunks(blocks), MAX_EXTRACTED_PASSAGES as int)
}

proof fn lemma_chunks_grow(blocks: Seq<Seq<char>>, n: int)
    requires
        0 <= n <= blocks.len(),
    ensures
        all_chunks(blocks.take(n)).len() <= all_chunks(blocks).len(),
        all_chunks(blocks).take(all_chunks(blocks.take(n)).len() as int) == all_chunks(
            blocks.take(n),
        ),
    decreases blocks.len() - n,
{
    if n == blocks.len() {
        assert(blocks.take(n) =~= blocks);
        assert(all_chunks(blocks).take(all_chunks(blocks).len() as int) =~= all_chunks(blocks));
    } else {
        lemma_chunks_grow(blocks, n + 1);
        let next = blocks.take(n + 1);
        assert(next.drop_last() =~= blocks.take(n));
        let shorter = all_chunks(blocks.take(n));
        let longer = all_chunks(next);
        assert(longer.take(shorter.len() as int) =~= shorter);
        assert(all_chunks(blocks).take(shorter.len() as int) =~= longer.take(
            shorter.len() as int,
        ));
    }
}

pub fn bounded_passage_chars(blocks: &Vec<Vec<char>>) -> (r: Vec<Vec<char>>)
    ensures
        texts(r@) == bounded_passages(texts(blocks@)),
{
    let mut out: Vec<Vec<char>> = Vec::new();
    let ghost model = texts(blocks@);
    let mut i: usize = 0;
    proof {
        assert(model.take(0) =~= Seq::empty());
        assert(texts(out@) =~= Seq::empty());
    }
    while i < blocks.len() && out.len() < MAX_EXTRACTED_PASSAGES
        invariant
            i <= blocks@.len(),
            model == texts(blocks@),
            texts(out@) == first_texts(
                all_chunks(model.take(i as int)),
                MAX_EXTRACTED_PASSAGES as int,
            ),
        decreases blocks@.len() - i,
    {
        let chunks = block_chunk_chars(&blocks[i]);
        let ghost start = texts(out@);
        let ghost added = texts(chunks@);
        proof {
            let next = model.take(i as int + 1);
            assert(next.drop_last() =~= model.take(i as int));
            assert(next.last() == blocks@[i as int]@);
            assert(all_chunks(next) == start + added);
            assert(texts(out@).len() == out@.len());
        }
        let mut k: usize = 0;
        proof {
            assert(start + added.take(0) =~= start);
        }
        while k < chunks.len() && out.len() < MAX_EXTRACTED_PASSAGES
            invariant
                k <= chunks@.len(),
                added == texts(chunks@),
                texts(out@) == start + added.take(k as int),
                out@.len() <= MAX_EXTRACTED_PASSAGES,
            decreases chunks@.len() - k,
        {
            let ghost earlier = out@;
            let chunk = copy_chars(&chunks[k]);
            out.push(chunk);
            proof {
                assert(texts(out@) =~= texts(earlier).push(added[k as int]));
                assert(start + added.take(k as int + 1) =~= (start + added.take(k as int)).push(
                    added[k as int],
                ));
            }
            k = k + 1;
        }
        proof {
            assert(texts(out@).len() == out@.len());
            assert(texts(out@) =~= first_texts(start + added, MAX_EXTRACTED_PASSAGES as int));
        }
        i = i + 1;
    }
    proof {
        assert(texts(out@).len() == out@.len());
        if i < blocks@.len() {
            let part = all_chunks(model.take(i as int));
            lemma_chunks_grow(model, i as int);
            assert(first_texts(part, MAX_EXTRACTED_PASSAGES as int) =~= first_texts(
                all_chunks(model),
                MAX_EXTRACTED_PASSAGES as int,
            ));
        } else {
            assert(model.take(i as int) =~= model);
        }
    }
    out
}

pub fn split_bounded_passages(blocks: &Vec<Vec<char>>) -> (r: Vec<String>)
    ensures
        strings(r@) == bounded_passages(texts(blocks@)),
{
    let chunks = bounded_passage_chars(blocks);
    strings_of(&chunks)
}

/// A page with too little text to be read as evidence.
pub open spec fn low_quality(useful_text_length: u64) -> Option<ExtractionLowQualityReason> {
    if useful_text_length < 60 {
        Some(ExtractionLowQualityReason::TooLittleUsefulText)
    } else {
        None
    }
}

pub fn extraction_low_quality_reason(content: &MainContent) -> (r: Option<
    ExtractionLowQualityReason,
>)
    ensures
        r == low_quality(content.useful_text_length),
{
    if content.useful_text_length < 60 {
        Some(ExtractionLowQualityReason::TooLittleUsefulText)
    } else {
        None
    }
}

pub open spec fn all_within(list: Seq<Seq<char>>, size: int) -> bool {
    forall|i: int| 0 <= i < list.len() ==> (#[trigger] list[i]).len() <= size
}

proof fn lemma_pieces_within(word: Seq<char>, size: int)
    requires
        size > 0,
    ensures
        all_within(pieces(word, size), size),
    decreases word.len(),
{
    if word.len() > size {
        lemma_pieces_within(word.skip(size), size);
    }
}

proof fn lemma_state_within(parts: Seq<Seq<char>>, n: int, size: int)
    requires
        size > 0,
    ensures
        all_within(chunk_state(parts, n, size).chunks, size),
        chunk_state(parts, n, size).current.len() <= size,
    decreases n,
{
    if n > 0 {
        lemma_state_within(parts, n - 1, size);
        reveal_strlit(" ");
        let before = chunk_state(parts, n - 1, size);
        let word = parts[n - 1];
        assert(all_within(closed(before), size));
        if word.len() > size {
            lemma_pieces_within(word, size);
            let list = chunk_state(parts, n, size).chunks;
            assert forall|i: int| 0 <= i < list.len() implies (#[trigger] list[i]).len() <= size by {
                if i < closed(before).len() {
                    assert(list[i] == closed(before)[i]);
                } else {
                    assert(list[i] == pieces(word, size)[i - closed(before).len()]);
                }
            }
        }
    }
}

/// No chunk of a block is longer than a passage may be.
pub proof fn chunks_are_bounded(block: Seq<char>)
    ensures
        all_within(block_chunks(block), MAX_PASSAGE_CHARS as int),
{
    let parts = words(block);
    lemma_state_within(parts, parts.len() as int, MAX_PASSAGE_CHARS as int);
}

/// A page gives a bounded number of passages, each of bounded length.
pub proof fn passages_are_bounded(blocks: Seq<Seq<char>>)
    ensures
        bounded_passages(blocks).len() <= MAX_EXTRACTED_PASSAGES,
        all_within(bounded_passages(blocks), MAX_PASSAGE_CHARS as int),
{
    lemma_all_within(blocks);
}

proof fn lemma_all_within(blocks: Seq<Seq<char>>)
    ensures
        all_within(all_chunks(blocks), MAX_PASSAGE_CHARS as int),
    decreases blocks.len(),
{
    if blocks.len() > 0 {
        lemma_all_within(blocks.drop_last());
        chunks_are_bounded(blocks.last());
        let head = all_chunks(blocks.drop_last());
        let tail = block_chunks(blocks.last());
        let list = all_chunks(blocks);
        assert forall|i: int| 0 <= i < list.len() implies (#[trigger] list[i]).len()
            <= MAX_PASSAGE_CHARS by {
            if i < head.len() {
                assert(list[i] == head[i]);
            } else {
                assert(list[i] == tail[i - head.len()]);
            }
        }
    }
}

/// A word that is cut is cut from the front into full pieces and a last one, and
/// the pieces one after the other are the word.
pub proof fn pieces_make_the_word(word: Seq<char>, size: int)
    requires
        size > 0,
    ensures
        pieces(word, size).flatten() == word,
        forall|i: int|
            0 <= i < pieces(word, size).len() ==> 0 < (#[trigger] pieces(word, size)[i]).len()
                <= size,
        forall|i: int|
            0 <= i < pieces(word, size).len() - 1 ==> (#[trigger] pieces(word, size)[i]).len()
                == size,
    decreases word.len(),
{
    let list = pieces(word, size);
    if word.len() == 0 {
        assert(list.flatten() =~= word);
    } else if word.len() <= size {
        seq![word].lemma_flatten_one_element();
    } else {
        let rest = pieces(word.skip(size), size);
        pieces_make_the_word(word.skip(size), size);
        assert(list.drop_first() =~= rest);
        assert(list.flatten() =~= word.take(size) + word.skip(size));
        assert(word.take(size) + word.skip(size) =~= word);
        assert forall|i: int| 0 <= i < list.len() implies 0 < (#[trigger] list[i]).len()
            <= size by {
            if i > 0 {
                assert(list[i] == rest[i - 1]);
            }
        }
        assert forall|i: int| 0 <= i < list.len() - 1 implies (#[trigger] list[i]).len() == size by {
            if i > 0 {
                assert(list[i] == rest[i - 1]);
            }
        }
    }
}

proof fn lemma_words_of_longer_list(list: Seq<Seq<char>>, last: Seq<char>)
    ensures
        words(join(list.push(last), " "@)) == words(join(list, " "@)) + words(last),
{
    reveal_strlit(" ");
    let whole = list.push(last);
    assert(whole.drop_last() =~= list);
    if list.len() == 0 {
        lemma_words_of_nothing();
        assert(words(join(list, " "@)) + words(last) =~= words(last));
    } else {
        words_ignore_the_space_between(join(list, " "@), " "@, last);
    }
}

proof fn lemma_words_of_nothing()
    ensures
        words(Seq::<char>::empty()) == Seq::<Seq<char>>::empty(),
{
    words_are_visible_runs(Seq::empty());
    runs_of_word(Seq::empty(), visible());
}

proof fn lemma_words_of_one(word: Seq<char>)
    requires
        word.len() > 0,
        all_in(word, visible()),
    ensures
        words(word) == seq![word],
{
    words_are_visible_runs(word);
    runs_of_word(word, visible());
}

proof fn lemma_state_keeps_words(parts: Seq<Seq<char>>, n: int, size: int)
    requires
        0 <= n <= parts.len(),
        are_words(parts, visible()),
        forall|i: int| 0 <= i < parts.len() ==> (#[trigger] parts[i]).len() <= size,
    ensures
        words(join(chunk_state(parts, n, size).chunks, " "@)) + words(
            chunk_state(parts, n, size).current,
        ) == parts.take(n),
    decreases n,
{
    let state = chunk_state(parts, n, size);
    if n == 0 {
        lemma_words_of_nothing();
        assert(words(join(state.chunks, " "@)) + words(state.current) =~= parts.take(0));
    } else {
        lemma_state_keeps_words(parts, n - 1, size);
        reveal_strlit(" ");
        let before = chunk_state(parts, n - 1, size);
        let word = parts[n - 1];
        lemma_words_of_one(word);
        lemma_words_of_nothing();
        assert(parts.take(n) =~= parts.take(n - 1) + seq![word]);
        let head = words(join(before.chunks, " "@));
        if before.current.len() > 0 {
            lemma_words_of_longer_list(before.chunks, before.current);
            words_ignore_the_space_between(before.current, " "@, word);
            assert(head + (words(before.current) + seq![word]) =~= head + words(before.current)
                + seq![word]);
        } else {
            assert(before.current =~= Seq::empty());
            assert(head + words(before.current) =~= head);
        }
    }
}

/// Splitting keeps the words: where no word of a block is longer than a passage may
/// be, the words of the chunks, chunk after chunk, are exactly the words of the
/// block in their order.
pub proof fn splitting_keeps_the_words(block: Seq<char>)
    requires
        forall|i: int| 0 <= i < words(block).len() ==> (#[trigger] words(block)[i]).len() <= 1200,
    ensures
        words(join(block_chunks(block), " "@)) == words(block),
        block_chunks(block).map_values(|chunk: Seq<char>| words(chunk)).flatten() == words(block),
{
    let parts = words(block);
    let list = block_chunks(block);
    if block.len() > MAX_PASSAGE_CHARS {
        words_are_visible_runs(block);
        runs_are_words(block, visible(), |c: char| true);
        let n = parts.len() as int;
        lemma_state_keeps_words(parts, n, MAX_PASSAGE_CHARS as int);
        assert(parts.take(n) =~= parts);
        let state = chunk_state(parts, n, MAX_PASSAGE_CHARS as int);
        lemma_words_of_longer_list(state.chunks, state.current);
        if state.current.len() == 0 {
            assert(state.current =~= Seq::empty());
            lemma_words_of_nothing();
            assert(words(join(state.chunks, " "@)) + words(state.current) =~= words(
                join(state.chunks, " "@),
            ));
        }
    }
    lemma_words_chunk_by_chunk(list);
}

proof fn lemma_words_chunk_by_chunk(list: Seq<Seq<char>>)
    ensures
        list.map_values(|chunk: Seq<char>| words(chunk)).flatten() == words(join(list, " "@)),
    decreases list.len(),
{
    let each = |chunk: Seq<char>| words(chunk);
    let mapped = list.map_values(each);
    if list.len() == 0 {
        lemma_words_of_nothing();
        assert(mapped.flatten() =~= Seq::empty());
    } else {
        let rest = list.drop_last();
        lemma_words_chunk_by_chunk(rest);
        lemma_words_of_longer_list(rest, list.last());
        assert(rest.push(list.last()) =~= list);
        assert(rest.map_values(each).push(words(list.last())) =~= mapped);
        rest.map_values(each).lemma_flatten_push(words(list.last()));
    }
}

proof fn lemma_filter_all(s: Seq<char>, class: spec_fn(char) -> bool)
    requires
        all_in(s, class),
    ensures
        s.filter(class) == s,
    decreases s.len(),
{
    reveal(Seq::filter);
    if s.len() > 0 {
        lemma_filter_all(s.drop_last(), class);
        assert(class(s[s.len() - 1]));
        assert(s.drop_last().push(s.last()) =~= s);
    } else {
        assert(s.filter(class) =~= s);
    }
}

proof fn lemma_state_keeps_characters(parts: Seq<Seq<char>>, n: int, size: int)
    requires
        size > 0,
        0 <= n <= parts.len(),
        are_words(parts, visible()),
    ensures
        chunk_state(parts, n, size).chunks.flatten().filter(visible()) + chunk_state(
            parts,
            n,
            size,
        ).current.filter(visible()) == parts.take(n).flatten(),
    decreases n,
{
    let class = visible();
    let state = chunk_state(parts, n, size);
    reveal(Seq::filter);
    let none = Seq::<char>::empty();
    assert(Seq::<Seq<char>>::empty().flatten() =~= none);
    if n == 0 {
        assert(parts.take(0) =~= Seq::empty());
        assert(state.chunks.flatten().filter(class) + state.current.filter(class) =~= none);
    } else {
        lemma_state_keeps_characters(parts, n - 1, size);
        reveal_strlit(" ");
        let before = chunk_state(parts, n - 1, size);
        let word = parts[n - 1];
        let head = before.chunks.flatten();
        lemma_filter_all(word, class);
        assert(parts.take(n) =~= parts.take(n - 1).push(word));
        parts.take(n - 1).lemma_flatten_push(word);
        before.chunks.lemma_flatten_push(before.current);
        Seq::filter_distributes_over_add(head, before.current, class);
        if before.current.len() == 0 {
            assert(before.current =~= none);
            assert(head.filter(class) + none =~= head.filter(class));
        }
        assert(closed(before).flatten().filter(class) =~= head.filter(class)
            + before.current.filter(class));
        if word.len() > size {
            vstd::seq_lib::lemma_flatten_concat(closed(before), pieces(word, size));
            pieces_make_the_word(word, size);
            Seq::filter_distributes_over_add(closed(before).flatten(), word, class);
            assert(state.chunks.flatten().filter(class) + none =~= state.chunks.flatten().filter(
                class,
            ));
        } else if before.current.len() > 0 && before.current.len() + 1 + word.len() <= size {
            Seq::filter_distributes_over_add(before.current + " "@, word, class);
            Seq::filter_distributes_over_add(before.current, " "@, class);
            assert(" "@.drop_last() =~= none);
            assert(" "@.last() == ' ' && !class(' '));
            assert(none.filter(class) =~= none);
            assert(" "@.filter(class) =~= none);
            assert(before.current.filter(class) + none =~= before.current.filter(class));
            assert(head.filter(class) + (before.current.filter(class) + word) =~= head.filter(class)
                + before.current.filter(class) + word);
        }
    }
}

/// Splitting takes no character away and adds none but spaces: without the white
/// space the chunks one after the other are the block.
pub proof fn splitting_keeps_every_visible_character(block: Seq<char>)
    ensures
        block_chunks(block).flatten().filter(|c: char| !is_white_space(c)) == block.filter(
            |c: char| !is_white_space(c),
        ),
{
    let class = |c: char| !is_white_space(c);
    assert(class =~= visible());
    let parts = words(block);
    let list = block_chunks(block);
    if block.len() <= MAX_PASSAGE_CHARS {
        list.lemma_flatten_one_element();
    } else {
        words_are_visible_runs(block);
        runs_are_words(block, visible(), |c: char| true);
        runs_keep_every_character(block, visible());
        let n = parts.len() as int;
        lemma_state_keeps_characters(parts, n, MAX_PASSAGE_CHARS as int);
        assert(parts.take(n) =~= parts);
        let state = chunk_state(parts, n, MAX_PASSAGE_CHARS as int);
        state.chunks.lemma_flatten_push(state.current);
        Seq::filter_distributes_over_add(state.chunks.flatten(), state.current, visible());
        if state.current.len() == 0 {
            assert(state.current =~= Seq::empty());
            reveal(Seq::filter);
            assert(state.chunks.flatten().filter(visible()) + Seq::<char>::empty()
                =~= state.chunks.flatten().filter(visible()));
        }
    }
}

/// Passages are the chunks of the blocks in order: the chunks of one block more
/// come behind those of the blocks before it, a block of passage length stays
/// whole, and a page keeps the first ones up to its limit.
pub proof fn passages_come_in_the_order_of_the_blocks(
    blocks: Seq<Seq<char>>,
    block: Seq<char>,
)
    ensures
        all_chunks(blocks.push(block)) == all_chunks(blocks) + block_chunks(block),
        block.len() <= 1200 ==> block_chunks(block) == seq![block],
        bounded_passages(blocks).is_prefix_of(all_chunks(blocks)),
        bounded_passages(blocks).len() == if all_chunks(blocks).len() <= 64 {
            all_chunks(blocks).len() as int
        } else {
            64
        },
        all_chunks(blocks).flatten().filter(|c: char| !is_white_space(c))
            == blocks.flatten().filter(|c: char| !is_white_space(c)),
    decreases blocks.len(),
{
    assert(blocks.push(block).drop_last() =~= blocks);
    let class = |c: char| !is_white_space(c);
    if blocks.len() > 0 {
        let rest = blocks.drop_last();
        let last = blocks.last();
        passages_come_in_the_order_of_the_blocks(rest, last);
        assert(rest.push(last) =~= blocks);
        rest.lemma_flatten_push(last);
        vstd::seq_lib::lemma_flatten_concat(all_chunks(rest), block_chunks(last));
        Seq::filter_distributes_over_add(rest.flatten(), last, class);
        Seq::filter_distributes_over_add(
            all_chunks(rest).flatten(),
            block_chunks(last).flatten(),
            class,
        );
        splitting_keeps_every_visible_character(last);
    } else {
        assert(blocks =~= Seq::empty());
        assert(all_chunks(blocks).flatten() =~= blocks.flatten());
    }
}

/// What the words of a chunk begin with.
proof fn lemma_first_word_stays(chunk: Seq<char>, word: Seq<char>)
    requires
        words(chunk).len() > 0,
    ensures
        words(chunk + " "@ + word).len() > 0,
        words(chunk + " "@ + word)[0] == words(chunk)[0],
{
    reveal_strlit(" ");
    words_ignore_the_space_between(chunk, " "@, word);
}

proof fn lemma_state_is_full(parts: Seq<Seq<char>>, n: int, size: int)
    requires
        0 <= n <= parts.len(),
        are_words(parts, visible()),
        forall|i: int| 0 <= i < parts.len() ==> (#[trigger] parts[i]).len() <= size,
    ensures
        forall|i: int|
            0 <= i < closed(chunk_state(parts, n, size)).len() ==> words(
                #[trigger] closed(chunk_state(parts, n, size))[i],
            ).len() > 0,
        forall|i: int, j: int|
            0 <= i && j == i + 1 && j < closed(chunk_state(parts, n, size)).len()
                ==> (#[trigger] closed(chunk_state(parts, n, size))[i]).len() + 1 + words(
                #[trigger] closed(chunk_state(parts, n, size))[j],
            )[0].len() > size,
    decreases n,
{
    if n > 0 {
        lemma_state_is_full(parts, n - 1, size);
        let before = chunk_state(parts, n - 1, size);
        let state = chunk_state(parts, n, size);
        let word = parts[n - 1];
        let old_list = closed(before);
        let list = closed(state);
        lemma_words_of_one(word);
        if before.current.len() > 0 {
            assert(old_list[old_list.len() - 1] == before.current);
        }
        if before.current.len() > 0 && before.current.len() + 1 + word.len() <= size {
            lemma_first_word_stays(before.current, word);
            assert(list.len() == old_list.len());
            let last = list.len() - 1;
            assert forall|i: int| 0 <= i < list.len() implies words(#[trigger] list[i]).len()
                > 0 by {
                if i < last {
                    assert(list[i] == old_list[i]);
                }
            }
            assert forall|i: int, j: int|
                0 <= i && j == i + 1 && j < list.len() implies (#[trigger] list[i]).len() + 1
                + words(#[trigger] list[j])[0].len() > size by {
                assert(list[i] == old_list[i]);
                assert(words(list[j])[0] == words(old_list[j])[0]);
            }
        } else {
            assert(list =~= old_list.push(word));
            assert forall|i: int| 0 <= i < list.len() implies words(#[trigger] list[i]).len()
                > 0 by {
                if i < old_list.len() {
                    assert(list[i] == old_list[i]);
                }
            }
            if before.current.len() == 0 {
                lemma_open_chunk(parts, n - 1, size);
            }
            assert forall|i: int, j: int|
                0 <= i && j == i + 1 && j < list.len() implies (#[trigger] list[i]).len() + 1
                + words(#[trigger] list[j])[0].len() > size by {
                assert(list[i] == old_list[i]);
                if j < old_list.len() {
                    assert(list[j] == old_list[j]);
                }
            }
        }
    }
}

proof fn lemma_open_chunk(parts: Seq<Seq<char>>, n: int, size: int)
    requires
        0 <= n <= parts.len(),
        are_words(parts, visible()),
        forall|i: int| 0 <= i < parts.len() ==> (#[trigger] parts[i]).len() <= size,
        chunk_state(parts, n, size).current.len() == 0,
    ensures
        n == 0,
{
    if n > 0 {
        assert(parts[n - 1].len() > 0);
        assert(false);
    }
}

/// Splitting is sparing: where no word of a block is longer than a passage may be,
/// every chunk of a long block holds a word, and a chunk ends only where the next
/// word does not fit into it any more.
pub proof fn chunks_are_filled(block: Seq<char>)
    requires
        block.len() > 1200,
        forall|i: int| 0 <= i < words(block).len() ==> (#[trigger] words(block)[i]).len() <= 1200,
    ensures
        forall|i: int|
            0 <= i < block_chunks(block).len() ==> words(
                #[trigger] block_chunks(block)[i],
            ).len() > 0,
        forall|i: int, j: int|
            0 <= i && j == i + 1 && j < block_chunks(block).len() ==> (#[trigger] block_chunks(
                block,
            )[i]).len() + 1 + words(#[trigger] block_chunks(block)[j])[0].len() > 1200,
        forall|i: int|
            0 <= i < block_chunks(block).len() ==> (#[trigger] block_chunks(block)[i]).len()
                <= 1200,
{
    words_are_visible_runs(block);
    runs_are_words(block, visible(), |c: char| true);
    lemma_state_is_full(words(block), words(block).len() as int, MAX_PASSAGE_CHARS as int);
    chunks_are_bounded(block);
}

} // verus!
