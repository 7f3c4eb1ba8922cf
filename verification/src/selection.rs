//! The passages of a page that bear on a request, and how the fetches of a
//! turn are weighed against each other.

use crate::document::all_below;
use crate::order::{indices, key_seqs, order_of, stable_order};
use crate::passages::MAX_PASSAGE_CHARS;
use crate::ranking::{candidate_is_first_party, capped16, first_party};
use crate::relevance::{
    asks_office_holder, assess_claim_relevance, query_asks_office_holder, relevance,
};
use crate::text::{
    any_digit, begins, chars_of, contains_char, copy_chars, has_char, has_digit, push_all,
    push_text, slice, starts_with, string_of, texts, words, words_of,
};
use crate::types::{
    ClaimEvidenceRelevance, EvidenceContribution, EvidenceIntent, EvidencePassage, ExecutionStatus,
    ExtractionLowQualityReason, ExtractionQuality, OperationResult, SourceAuthority, WebCandidate,
    WebFetchEvidence,
};
use vstd::prelude::*;

verus! {

pub open spec fn passage_texts(passages: Seq<EvidencePassage>) -> Seq<Seq<char>> {
    Seq::new(passages.len(), |i: int| passages[i].text@)
}

pub open spec fn has_sentence_mark(text: Seq<char>) -> bool {
    has_char(text, '.') || has_char(text, '!') || has_char(text, '?')
}

fn sentence_mark(text: &Vec<char>) -> (r: bool)
    ensures
        r == has_sentence_mark(text@),
{
    contains_char(text, '.') || contains_char(text, '!') || contains_char(text, '?')
}

/// Short, without a digit and without a sentence.
pub open spec fn is_heading(text: Seq<char>) -> bool {
    text.len() <= 120 && !has_digit(text) && !has_sentence_mark(text)
}

fn heading(text: &Vec<char>) -> (r: bool)
    ensures
        r == is_heading(text@),
{
    text.len() <= 120 && !any_digit(text) && !sentence_mark(text)
}

fn chars_of_passages(passages: &Vec<EvidencePassage>) -> (r: Vec<Vec<char>>)
    ensures
        texts(r@) == passage_texts(passages@),
        r@.len() == passages@.len(),
{
    let mut out: Vec<Vec<char>> = Vec::new();
    let mut i: usize = 0;
    while i < passages.len()
        invariant
            i <= passages@.len(),
            out@.len() == i,
            forall|k: int| 0 <= k < i ==> (#[trigger] out@[k])@ == passages@[k].text@,
        decreases passages@.len() - i,
    {
        out.push(chars_of(passages[i].text.as_str()));
        i = i + 1;
    }
    proof {
        assert(texts(out@) =~= passage_texts(passages@));
    }
    out
}

/// The items of a list at these places.
pub open spec fn picked(passages: Seq<EvidencePassage>, places: Seq<int>) -> Seq<EvidencePassage> {
    Seq::new(places.len(), |i: int| passages[places[i]])
}

/// The first two headings of a page.
pub open spec fn front_matter(contents: Seq<Seq<char>>, n: int) -> Seq<int>
    decreases n,
{
    if n <= 0 {
        Seq::empty()
    } else {
        let before = front_matter(contents, n - 1);
        let text = contents[n - 1];
        if before.len() < 2 && text.len() >= 3 && is_heading(text) {
            before.push(n - 1)
        } else {
            before
        }
    }
}

pub open spec fn count_marks(text: Seq<char>) -> nat
    decreases text.len(),
{
    if text.len() == 0 {
        0
    } else {
        count_marks(text.drop_last()) + if text.last() == '.' || text.last() == '!' || text.last()
            == '?' {
            1nat
        } else {
            0nat
        }
    }
}

pub open spec fn count_numbers(parts: Seq<Seq<char>>) -> nat
    decreases parts.len(),
{
    if parts.len() == 0 {
        0
    } else {
        count_numbers(parts.drop_last()) + if has_digit(parts.last()) {
            1nat
        } else {
            0nat
        }
    }
}

pub open spec fn capped8(n: nat) -> u8 {
    if n <= 255 {
        n as u8
    } else {
        255
    }
}

/// Passages with more sentences come first, then those with fewer numbers, then
/// longer ones.
pub open spec fn description_key(text: Seq<char>) -> Seq<u64> {
    seq![
        (255 - capped8(count_marks(text))) as u64,
        capped8(count_numbers(words(text))) as u64,
        (65535 - capped16(words(text).len())) as u64,
    ]
}

pub open spec fn description_keys(contents: Seq<Seq<char>>) -> Seq<Seq<u64>> {
    Seq::new(contents.len(), |i: int| description_key(contents[i]))
}

/// A list without the places of another.
pub open spec fn places_without(order: Seq<int>, taken: Seq<int>) -> Seq<int>
    decreases order.len(),
{
    if order.len() == 0 {
        Seq::empty()
    } else if taken.contains(order.last()) {
        places_without(order.drop_last(), taken)
    } else {
        places_without(order.drop_last(), taken).push(order.last())
    }
}

pub open spec fn first_places(order: Seq<int>, n: int) -> Seq<int> {
    if order.len() <= n {
        order
    } else {
        order.take(n)
    }
}

/// The passages of a page that was asked for: all of a short page, else its
/// first headings and the most descriptive of the others.
pub open spec fn direct_places(contents: Seq<Seq<char>>) -> Seq<int> {
    let front = front_matter(contents, contents.len() as int);
    front + first_places(
        places_without(
            stable_order(description_keys(contents), contents.len() as int),
            front,
        ),
        6 - front.len(),
    )
}

pub open spec fn direct_selection(passages: Seq<EvidencePassage>) -> Seq<EvidencePassage> {
    if passages.len() <= 6 {
        passages
    } else {
        picked(passages, direct_places(passage_texts(passages)))
    }
}

fn marks_in(text: &Vec<char>) -> (r: usize)
    ensures
        r == count_marks(text@),
        r <= text@.len(),
{
    let mut count: usize = 0;
    let mut i: usize = 0;
    proof {
        assert(text@.take(0) =~= Seq::empty());
    }
    while i < text.len()
        invariant
            i <= text@.len(),
            count <= i,
            count == count_marks(text@.take(i as int)),
        decreases text@.len() - i,
    {
        proof {
            let next = text@.take(i as int + 1);
            assert(next.drop_last() =~= text@.take(i as int));
            assert(next.last() == text@[i as int]);
        }
        let c = text[i];
        if c == '.' || c == '!' || c == '?' {
            count = count + 1;
        }
        i = i + 1;
    }
    proof {
        assert(text@.take(text@.len() as int) =~= text@);
    }
    count
}

fn numbers_in(parts: &Vec<Vec<char>>) -> (r: usize)
    ensures
        r == count_numbers(texts(parts@)),
{
    let mut count: usize = 0;
    let ghost model = texts(parts@);
    let mut i: usize = 0;
    proof {
        assert(model.take(0) =~= Seq::empty());
    }
    while i < parts.len()
        invariant
            i <= parts@.len(),
            count <= i,
            model == texts(parts@),
            count == count_numbers(model.take(i as int)),
        decreases parts@.len() - i,
    {
        proof {
            let next = model.take(i as int + 1);
            assert(next.drop_last() =~= model.take(i as int));
            assert(next.last() == parts@[i as int]@);
        }
        if any_digit(&parts[i]) {
            count = count + 1;
        }
        i = i + 1;
    }
    proof {
        assert(model.take(model.len() as int) =~= model);
    }
    count
}

fn capped_u8(n: usize) -> (r: u8)
    ensures
        r == capped8(n as nat),
{
    if n <= 255 {
        n as u8
    } else {
        255
    }
}

fn capped_u16(n: usize) -> (r: u16)
    ensures
        r == capped16(n as nat),
{
    if n <= 65535 {
        n as u16
    } else {
        65535
    }
}

fn key_of_description(text: &Vec<char>) -> (r: Vec<u64>)
    ensures
        r@ == description_key(text@),
{
    let parts = words_of(text);
    proof {
        assert(texts(parts@).len() == parts@.len());
    }
    let sentences = capped_u8(marks_in(text));
    let numbers = capped_u8(numbers_in(&parts));
    let length = capped_u16(parts.len());
    let mut key: Vec<u64> = Vec::new();
    key.push((255 - sentences) as u64);
    key.push(numbers as u64);
    key.push((65535 - length) as u64);
    proof {
        assert(key@ =~= description_key(text@));
    }
    key
}

fn front_places(contents: &Vec<Vec<char>>) -> (r: Vec<usize>)
    ensures
        indices(r@) == front_matter(texts(contents@), contents@.len() as int),
        r@.len() <= 2,
        forall|i: int| 0 <= i < r@.len() ==> #[trigger] r@[i] < contents@.len(),
{
    let ghost model = texts(contents@);
    let mut front: Vec<usize> = Vec::new();
    let mut i: usize = 0;
    proof {
        assert(indices(front@) =~= Seq::empty());
    }
    while i < contents.len()
        invariant
            i <= contents@.len(),
            model == texts(contents@),
            front@.len() <= 2,
            forall|k: int| 0 <= k < front@.len() ==> #[trigger] front@[k] < contents@.len(),
            indices(front@) == front_matter(model, i as int),
        decreases contents@.len() - i,
    {
        proof {
            assert(indices(front@).len() == front@.len());
        }
        if front.len() < 2 && contents[i].len() >= 3 && heading(&contents[i]) {
            let ghost before = front@;
            front.push(i);
            proof {
                assert(indices(front@) =~= indices(before).push(i as int));
            }
        }
        i = i + 1;
    }
    front
}

fn is_place(list: &Vec<usize>, place: usize) -> (r: bool)
    ensures
        r == indices(list@).contains(place as int),
{
    let mut i: usize = 0;
    while i < list.len()
        invariant
            i <= list@.len(),
            forall|k: int| 0 <= k < i ==> #[trigger] list@[k] != place,
        decreases list@.len() - i,
    {
        if list[i] == place {
            assert(indices(list@)[i as int] == place);
            return true;
        }
        i = i + 1;
    }
    proof {
        assert forall|k: int| 0 <= k < indices(list@).len() implies indices(list@)[k] != place by {
            assert(list@[k] != place);
        }
    }
    false
}

fn other_places(order: &Vec<usize>, taken: &Vec<usize>) -> (r: Vec<usize>)
    ensures
        indices(r@) == places_without(indices(order@), indices(taken@)),
        forall|n: int| all_below(order@, n) ==> #[trigger] all_below(r@, n),
{
    let ghost model = indices(order@);
    let mut out: Vec<usize> = Vec::new();
    let mut i: usize = 0;
    proof {
        assert(model.take(0) =~= Seq::empty());
        assert(indices(out@) =~= Seq::empty());
    }
    while i < order.len()
        invariant
            i <= order@.len(),
            model == indices(order@),
            indices(out@) == places_without(model.take(i as int), indices(taken@)),
            forall|k: int|
                0 <= k < out@.len() ==> exists|q: int|
                    0 <= q < order@.len() && order@[q] == #[trigger] out@[k],
        decreases order@.len() - i,
    {
        proof {
            let next = model.take(i as int + 1);
            assert(next.drop_last() =~= model.take(i as int));
            assert(next.last() == order@[i as int]);
        }
        if !is_place(taken, order[i]) {
            let ghost before = out@;
            out.push(order[i]);
            proof {
                assert(indices(out@) =~= indices(before).push(order@[i as int] as int));
                assert forall|k: int| 0 <= k < out@.len() implies exists|q: int|
                    0 <= q < order@.len() && order@[q] == #[trigger] out@[k] by {
                    if k < before.len() {
                        assert(out@[k] == before[k]);
                    } else {
                        assert(order@[i as int] == out@[k]);
                    }
                }
            }
        }
        i = i + 1;
    }
    proof {
        assert(model.take(model.len() as int) =~= model);
    }
    out
}

fn clone_places(passages: &Vec<EvidencePassage>, places: &Vec<usize>) -> (r: Vec<EvidencePassage>)
    requires
        forall|i: int| 0 <= i < places@.len() ==> #[trigger] places@[i] < passages@.len(),
    ensures
        r@ == picked(passages@, indices(places@)),
{
    let mut out: Vec<EvidencePassage> = Vec::new();
    let mut i: usize = 0;
    while i < places.len()
        invariant
            i <= places@.len(),
            forall|k: int| 0 <= k < places@.len() ==> #[trigger] places@[k] < passages@.len(),
            out@.len() == i,
            forall|k: int| 0 <= k < i ==> #[trigger] out@[k] == passages@[places@[k] as int],
        decreases places@.len() - i,
    {
        let place = places[i];
        out.push(passages[place].clone());
        i = i + 1;
    }
    proof {
        assert(out@ =~= picked(passages@, indices(places@)));
    }
    out
}

/// Keeps the passages of a page that was asked for.
pub fn select_direct_page_passages(evidence: &mut WebFetchEvidence)
    ensures
        *final(evidence) == (WebFetchEvidence {
            passages: final(evidence).passages,
            ..*old(evidence)
        }),
        final(evidence).passages@ == direct_selection(old(evidence).passages@),
{
    if evidence.passages.len() <= 6 {
        return ;
    }
    let contents = chars_of_passages(&evidence.passages);
    let ghost model = texts(contents@);
    let front = front_places(&contents);
    let mut keys: Vec<Vec<u64>> = Vec::new();
    let mut i: usize = 0;
    while i < contents.len()
        invariant
            i <= contents@.len(),
            keys@.len() == i,
            forall|k: int| 0 <= k < i ==> (#[trigger] keys@[k])@ == description_key(contents@[k]@),
        decreases contents@.len() - i,
    {
        keys.push(key_of_description(&contents[i]));
        i = i + 1;
    }
    proof {
        assert(key_seqs(keys@) =~= description_keys(model));
    }
    let order = order_of(&keys);
    let others = other_places(&order, &front);
    let ghost rest = indices(others@);
    let ghost lead = indices(front@);
    proof {
        assert(all_below(others@, contents@.len() as int));
    }
    let mut places = front;
    let room: usize = 6 - places.len();
    let mut k: usize = 0;
    proof {
        assert(lead + rest.take(0) =~= lead);
        assert(lead.len() == places@.len());
    }
    while k < others.len() && k < room
        invariant
            k <= others@.len(),
            k <= room,
            rest == indices(others@),
            indices(places@) == lead + rest.take(k as int),
            all_below(others@, contents@.len() as int),
            forall|q: int| 0 <= q < places@.len() ==> #[trigger] places@[q] < contents@.len(),
        decreases others@.len() - k,
    {
        let ghost before = places@;
        places.push(others[k]);
        proof {
            assert(indices(places@) =~= indices(before).push(rest[k as int]));
            assert(lead + rest.take(k as int + 1) =~= (lead + rest.take(k as int)).push(
                rest[k as int],
            ));
        }
        k = k + 1;
    }
    proof {
        assert(rest.len() == others@.len());
        assert(rest.take(k as int) =~= first_places(rest, room as int));
        assert(indices(places@) =~= direct_places(model));
    }
    evidence.passages = clone_places(&evidence.passages, &places);
}

pub open spec fn coverage(query: Seq<char>, text: Seq<char>) -> u16 {
    relevance(query, text).query_coverage_basis_points
}

/// The headings of a page that name something of the question.
pub open spec fn naming_headings(query: Seq<char>, contents: Seq<Seq<char>>) -> Seq<Seq<char>>
    decreases contents.len(),
{
    if contents.len() == 0 {
        Seq::empty()
    } else {
        let before = naming_headings(query, contents.drop_last());
        if is_heading(contents.last()) && coverage(query, contents.last()) > 0 {
            before.push(contents.last())
        } else {
            before
        }
    }
}

pub open spec fn coverage_keys(query: Seq<char>, list: Seq<Seq<char>>) -> Seq<Seq<u64>> {
    Seq::new(list.len(), |i: int| seq![(65535 - coverage(query, list[i])) as u64])
}

/// The headings that name most of the question first.
pub open spec fn context_headings(query: Seq<char>, contents: Seq<Seq<char>>) -> Seq<Seq<char>> {
    let list = naming_headings(query, contents);
    let order = stable_order(coverage_keys(query, list), list.len() as int);
    Seq::new(list.len(), |i: int| list[order[i]])
}

/// The first heading under which a statement answers the question.
pub open spec fn under_heading(
    query: Seq<char>,
    headings: Seq<Seq<char>>,
    statement: Seq<char>,
) -> Option<Seq<char>>
    decreases headings.len(),
{
    if headings.len() == 0 {
        None
    } else {
        match under_heading(query, headings.drop_last(), statement) {
            Some(found) => Some(found),
            None => {
                let text = headings.last() + ": "@ + statement;
                if text.len() <= MAX_PASSAGE_CHARS && relevance(query, text).eligible {
                    Some(text)
                } else {
                    None
                }
            },
        }
    }
}

/// The first heading that names the office which a person holds.
pub open spec fn office_of(query: Seq<char>, headings: Seq<Seq<char>>, person: Seq<char>) -> Option<
    Seq<char>,
>
    decreases headings.len(),
{
    if headings.len() == 0 {
        None
    } else {
        match office_of(query, headings.drop_last(), person) {
            Some(found) => Some(found),
            None => {
                let text = person + " is "@ + headings.last() + "."@;
                if relevance(query, text).eligible {
                    Some(text)
                } else {
                    None
                }
            },
        }
    }
}

/// A statement about an office holder, with the name in the heading above it.
pub open spec fn statement_at(query: Seq<char>, contents: Seq<Seq<char>>, i: int) -> Seq<char> {
    if asks_office_holder(query) && i > 0 && is_heading(contents[i - 1]) && coverage(
        query,
        contents[i - 1],
    ) == 0 {
        contents[i - 1] + ": "@ + contents[i]
    } else {
        contents[i]
    }
}

/// A passage as it is read in the context of its page: a statement with a
/// number under a heading that names its subject, together with the name of the
/// office holder where there is room for it, and the heading of an official
/// biography as the claim that the page makes.
pub open spec fn contextual_text(
    query: Seq<char>,
    contents: Seq<Seq<char>>,
    official: bool,
    i: int,
) -> Seq<char> {
    let text = contents[i];
    let headings = context_headings(query, contents);
    if relevance(query, text).eligible {
        text
    } else if has_digit(text) {
        match under_heading(query, headings, text) {
            Some(plain) => match under_heading(query, headings, statement_at(query, contents, i)) {
                Some(named) => named,
                None => plain,
            },
            None => text,
        }
    } else if official && asks_office_holder(query) && is_heading(text) && starts_with(
        text,
        "Biography of "@,
    ) {
        match office_of(query, headings, text.skip(13)) {
            Some(found) => found,
            None => text,
        }
    } else {
        text
    }
}

pub open spec fn contextual_texts(
    query: Seq<char>,
    contents: Seq<Seq<char>>,
    official: bool,
) -> Seq<Seq<char>> {
    Seq::new(contents.len(), |i: int| contextual_text(query, contents, official, i))
}

/// Passages that cover more of the question come first, then those with the
/// number or date asked for.
pub open spec fn fact_key(relevance: ClaimEvidenceRelevance) -> Seq<u64> {
    seq![
        (65535 - relevance.query_coverage_basis_points) as u64,
        if relevance.numeric_or_date_relevant {
            0u64
        } else {
            1u64
        },
    ]
}

pub open spec fn fact_keys(query: Seq<char>, contents: Seq<Seq<char>>) -> Seq<Seq<u64>> {
    Seq::new(contents.len(), |i: int| fact_key(relevance(query, contents[i])))
}

pub open spec fn greatest_coverage(query: Seq<char>, contents: Seq<Seq<char>>) -> u16
    decreases contents.len(),
{
    if contents.len() == 0 {
        0
    } else {
        let before = greatest_coverage(query, contents.drop_last());
        let last = coverage(query, contents.last());
        if last >= before {
            last
        } else {
            before
        }
    }
}

pub open spec fn any_eligible(query: Seq<char>, contents: Seq<Seq<char>>) -> bool {
    exists|i: int| 0 <= i < contents.len() && relevance(query, #[trigger] contents[i]).eligible
}

/// The places of an order whose passages cover something of the question.
pub open spec fn covering_places(
    query: Seq<char>,
    contents: Seq<Seq<char>>,
    order: Seq<int>,
) -> Seq<int>
    decreases order.len(),
{
    if order.len() == 0 {
        Seq::empty()
    } else {
        let before = covering_places(query, contents, order.drop_last());
        if coverage(query, contents[order.last()]) > 0 {
            before.push(order.last())
        } else {
            before
        }
    }
}

pub open spec fn fact_places(query: Seq<char>, contents: Seq<Seq<char>>) -> Seq<int> {
    first_places(
        covering_places(
            query,
            contents,
            stable_order(fact_keys(query, contents), contents.len() as int),
        ),
        6,
    )
}

/// Why the passages do not answer the question, where they do not.
pub open spec fn fact_quality(query: Seq<char>, contents: Seq<Seq<char>>) -> Option<
    ExtractionLowQualityReason,
> {
    if greatest_coverage(query, contents) == 0 {
        Some(ExtractionLowQualityReason::LowQueryCoverage)
    } else if !any_eligible(query, contents) {
        Some(ExtractionLowQualityReason::NoClaimRelevantPassage)
    } else {
        None
    }
}

/// A passage with another text.
pub open spec fn retexted(passages: Seq<EvidencePassage>, contents: Seq<Seq<char>>, places: Seq<
    int,
>, result: Seq<EvidencePassage>) -> bool {
    &&& result.len() == places.len()
    &&& forall|i: int|
        0 <= i < result.len() ==> {
            let passage = #[trigger] result[i];
            &&& passage.passage_id == passages[places[i]].passage_id
            &&& passage.truncated == passages[places[i]].truncated
            &&& passage.text@ == contents[places[i]]
        }
}

/// The page once its passages are ranked for a question.
pub open spec fn is_ranked_for(
    query: Seq<char>,
    before: WebFetchEvidence,
    after: WebFetchEvidence,
) -> bool {
    let contents = contextual_texts(
        query,
        passage_texts(before.passages@),
        before.authority is FirstParty,
    );
    let reason = fact_quality(query, contents);
    &&& after == (WebFetchEvidence {
        passages: after.passages,
        quality: ExtractionQuality {
            query_coverage_basis_points: greatest_coverage(query, contents),
            low_quality_reason: reason,
            ..before.quality
        },
        ..before
    })
    &&& if reason is Some {
        after.passages@.len() == 0
    } else {
        retexted(before.passages@, contents, fact_places(query, contents), after.passages@)
    }
}

fn assess(query: &str, text: &Vec<char>) -> (r: ClaimEvidenceRelevance)
    ensures
        r == relevance(query@, text@),
{
    let string = string_of(text);
    assess_claim_relevance(query, string.as_str())
}

fn headings_for(query: &str, contents: &Vec<Vec<char>>) -> (r: Vec<Vec<char>>)
    ensures
        texts(r@) == context_headings(query@, texts(contents@)),
{
    let ghost model = texts(contents@);
    let mut list: Vec<Vec<char>> = Vec::new();
    let mut keys: Vec<Vec<u64>> = Vec::new();
    let mut i: usize = 0;
    proof {
        assert(model.take(0) =~= Seq::empty());
        assert(texts(list@) =~= Seq::empty());
    }
    while i < contents.len()
        invariant
            i <= contents@.len(),
            model == texts(contents@),
            texts(list@) == naming_headings(query@, model.take(i as int)),
            keys@.len() == list@.len(),
            forall|k: int|
                0 <= k < keys@.len() ==> (#[trigger] keys@[k])@ == seq![
                    (65535 - coverage(query@, list@[k]@)) as u64,
                ],
        decreases contents@.len() - i,
    {
        proof {
            let next = model.take(i as int + 1);
            assert(next.drop_last() =~= model.take(i as int));
            assert(next.last() == contents@[i as int]@);
        }
        if heading(&contents[i]) {
            let found = assess(query, &contents[i]);
            if found.query_coverage_basis_points > 0 {
                let ghost before = list@;
                let ghost before_keys = keys@;
                let mut key: Vec<u64> = Vec::new();
                key.push((65535 - found.query_coverage_basis_points) as u64);
                proof {
                    assert(key@ =~= seq![
                        (65535 - coverage(query@, contents@[i as int]@)) as u64,
                    ]);
                }
                keys.push(key);
                list.push(copy_chars(&contents[i]));
                proof {
                    assert(texts(list@) =~= texts(before).push(contents@[i as int]@));
                    assert forall|k: int| 0 <= k < keys@.len() implies (#[trigger] keys@[k])@
                        == seq![(65535 - coverage(query@, list@[k]@)) as u64] by {
                        if k < before_keys.len() {
                            assert(keys@[k] == before_keys[k]);
                            assert(list@[k] == before[k]);
                        }
                    }
                }
            }
        }
        i = i + 1;
    }
    proof {
        assert(model.take(model.len() as int) =~= model);
        assert(key_seqs(keys@) =~= coverage_keys(query@, texts(list@)));
    }
    let order = order_of(&keys);
    let mut out: Vec<Vec<char>> = Vec::new();
    let mut k: usize = 0;
    while k < order.len()
        invariant
            k <= order@.len(),
            order@.len() == list@.len(),
            forall|q: int| 0 <= q < order@.len() ==> #[trigger] order@[q] < list@.len(),
            out@.len() == k,
            forall|q: int| 0 <= q < k ==> (#[trigger] out@[q])@ == list@[order@[q] as int]@,
        decreases order@.len() - k,
    {
        let place = order[k];
        out.push(copy_chars(&list[place]));
        k = k + 1;
    }
    proof {
        let sorted = stable_order(coverage_keys(query@, texts(list@)), list@.len() as int);
        assert(indices(order@) == sorted);
        assert forall|q: int| 0 <= q < out@.len() implies texts(out@)[q] == texts(list@)[sorted[q]] by {
            assert(sorted[q] == order@[q]);
            assert(out@[q]@ == list@[order@[q] as int]@);
        }
        assert(texts(out@) =~= context_headings(query@, model));
    }
    out
}

fn first_under_heading(query: &str, headings: &Vec<Vec<char>>, statement: &Vec<char>) -> (r: Option<
    Vec<char>,
>)
    ensures
        match r {
            Some(text) => under_heading(query@, texts(headings@), statement@) == Some(text@),
            None => under_heading(query@, texts(headings@), statement@) is None,
        },
{
    let ghost model = texts(headings@);
    let mut found: Option<Vec<char>> = None;
    let mut i: usize = 0;
    proof {
        assert(model.take(0) =~= Seq::empty());
    }
    while i < headings.len()
        invariant
            i <= headings@.len(),
            model == texts(headings@),
            match found {
                Some(text) => under_heading(query@, model.take(i as int), statement@) == Some(
                    text@,
                ),
                None => under_heading(query@, model.take(i as int), statement@) is None,
            },
        decreases headings@.len() - i,
    {
        proof {
            let next = model.take(i as int + 1);
            assert(next.drop_last() =~= model.take(i as int));
            assert(next.last() == headings@[i as int]@);
        }
        if found.is_none() {
            let mut text = copy_chars(&headings[i]);
            push_text(&mut text, ": ");
            push_all(&mut text, statement);
            if text.len() <= MAX_PASSAGE_CHARS && assess(query, &text).eligible {
                found = Some(text);
            }
        }
        i = i + 1;
    }
    proof {
        assert(model.take(model.len() as int) =~= model);
    }
    found
}

fn first_office(query: &str, headings: &Vec<Vec<char>>, person: &Vec<char>) -> (r: Option<Vec<char>>)
    ensures
        match r {
            Some(text) => office_of(query@, texts(headings@), person@) == Some(text@),
            None => office_of(query@, texts(headings@), person@) is None,
        },
{
    let ghost model = texts(headings@);
    let mut found: Option<Vec<char>> = None;
    let mut i: usize = 0;
    proof {
        assert(model.take(0) =~= Seq::empty());
    }
    while i < headings.len()
        invariant
            i <= headings@.len(),
            model == texts(headings@),
            match found {
                Some(text) => office_of(query@, model.take(i as int), person@) == Some(text@),
                None => office_of(query@, model.take(i as int), person@) is None,
            },
        decreases headings@.len() - i,
    {
        proof {
            let next = model.take(i as int + 1);
            assert(next.drop_last() =~= model.take(i as int));
            assert(next.last() == headings@[i as int]@);
        }
        if found.is_none() {
            let mut text = copy_chars(person);
            push_text(&mut text, " is ");
            push_all(&mut text, &headings[i]);
            push_text(&mut text, ".");
            if assess(query, &text).eligible {
                found = Some(text);
            }
        }
        i = i + 1;
    }
    proof {
        assert(model.take(model.len() as int) =~= model);
    }
    found
}

fn text_in_context(
    query: &str,
    holder: bool,
    contents: &Vec<Vec<char>>,
    headings: &Vec<Vec<char>>,
    official: bool,
    i: usize,
) -> (r: Vec<char>)
    requires
        i < contents@.len(),
        holder == asks_office_holder(query@),
        texts(headings@) == context_headings(query@, texts(contents@)),
    ensures
        r@ == contextual_text(query@, texts(contents@), official, i as int),
{
    let ghost model = texts(contents@);
    let text = &contents[i];
    proof {
        assert(model[i as int] == text@);
        if i > 0 {
            assert(model[i as int - 1] == contents@[i as int - 1]@);
        }
    }
    if assess(query, text).eligible {
        return copy_chars(text);
    }
    if any_digit(text) {
        let mut statement: Vec<char> = Vec::new();
        if holder && i > 0 && heading(&contents[i - 1]) && assess(
            query,
            &contents[i - 1],
        ).query_coverage_basis_points == 0 {
            push_all(&mut statement, &contents[i - 1]);
            push_text(&mut statement, ": ");
        }
        push_all(&mut statement, text);
        proof {
            assert(statement@ =~= statement_at(query@, model, i as int));
        }
        return match first_under_heading(query, headings, text) {
            Some(plain) => match first_under_heading(query, headings, &statement) {
                Some(named) => named,
                None => plain,
            },
            None => copy_chars(text),
        };
    }
    if official && holder && heading(text) && begins(text, "Biography of ") {
        proof {
            reveal_strlit("Biography of ");
        }
        let person = slice(text, 13, text.len());
        proof {
            assert(person@ =~= text@.skip(13));
        }
        return match first_office(query, headings, &person) {
            Some(found) => found,
            None => copy_chars(text),
        };
    }
    copy_chars(text)
}

fn texts_in_context(query: &str, contents: &Vec<Vec<char>>, official: bool) -> (r: Vec<Vec<char>>)
    ensures
        texts(r@) == contextual_texts(query@, texts(contents@), official),
        r@.len() == contents@.len(),
{
    let headings = headings_for(query, contents);
    let holder = query_asks_office_holder(query);
    let mut out: Vec<Vec<char>> = Vec::new();
    let mut i: usize = 0;
    while i < contents.len()
        invariant
            i <= contents@.len(),
            holder == asks_office_holder(query@),
            texts(headings@) == context_headings(query@, texts(contents@)),
            out@.len() == i,
            forall|k: int|
                0 <= k < i ==> (#[trigger] out@[k])@ == contextual_text(
                    query@,
                    texts(contents@),
                    official,
                    k,
                ),
        decreases contents@.len() - i,
    {
        out.push(text_in_context(query, holder, contents, &headings, official, i));
        i = i + 1;
    }
    proof {
        assert(texts(out@) =~= contextual_texts(query@, texts(contents@), official));
    }
    out
}

fn assess_all(query: &str, contents: &Vec<Vec<char>>) -> (r: Vec<ClaimEvidenceRelevance>)
    ensures
        r@.len() == contents@.len(),
        forall|i: int|
            0 <= i < r@.len() ==> #[trigger] r@[i] == relevance(query@, texts(contents@)[i]),
{
    let mut out: Vec<ClaimEvidenceRelevance> = Vec::new();
    let mut i: usize = 0;
    while i < contents.len()
        invariant
            i <= contents@.len(),
            out@.len() == i,
            forall|k: int|
                0 <= k < i ==> #[trigger] out@[k] == relevance(query@, texts(contents@)[k]),
        decreases contents@.len() - i,
    {
        let found = assess(query, &contents[i]);
        proof {
            assert(texts(contents@)[i as int] == contents@[i as int]@);
        }
        out.push(found);
        i = i + 1;
    }
    out
}

fn best_coverage(list: &Vec<ClaimEvidenceRelevance>, Ghost(query): Ghost<Seq<char>>, Ghost(
    contents,
): Ghost<Seq<Seq<char>>>) -> (r: u16)
    requires
        list@.len() == contents.len(),
        forall|i: int| 0 <= i < list@.len() ==> #[trigger] list@[i] == relevance(query, contents[i]),
    ensures
        r == greatest_coverage(query, contents),
{
    let mut best: u16 = 0;
    let mut i: usize = 0;
    proof {
        assert(contents.take(0) =~= Seq::empty());
    }
    while i < list.len()
        invariant
            i <= list@.len(),
            list@.len() == contents.len(),
            forall|k: int|
                0 <= k < list@.len() ==> #[trigger] list@[k] == relevance(query, contents[k]),
            best == greatest_coverage(query, contents.take(i as int)),
        decreases list@.len() - i,
    {
        proof {
            let next = contents.take(i as int + 1);
            assert(next.drop_last() =~= contents.take(i as int));
            assert(next.last() == contents[i as int]);
            assert(list@[i as int] == relevance(query, contents[i as int]));
        }
        let found: u16 = list[i].query_coverage_basis_points;
        if found >= best {
            best = found;
        }
        i = i + 1;
    }
    proof {
        assert(contents.take(contents.len() as int) =~= contents);
    }
    best
}

fn places_of_facts(list: &Vec<ClaimEvidenceRelevance>, Ghost(query): Ghost<Seq<char>>, Ghost(
    contents,
): Ghost<Seq<Seq<char>>>) -> (r: Vec<usize>)
    requires
        list@.len() == contents.len(),
        forall|i: int| 0 <= i < list@.len() ==> #[trigger] list@[i] == relevance(query, contents[i]),
    ensures
        indices(r@) == fact_places(query, contents),
        forall|i: int| 0 <= i < r@.len() ==> #[trigger] r@[i] < contents.len(),
{
    let mut keys: Vec<Vec<u64>> = Vec::new();
    let mut i: usize = 0;
    while i < list.len()
        invariant
            i <= list@.len(),
            keys@.len() == i,
            forall|k: int| 0 <= k < i ==> (#[trigger] keys@[k])@ == fact_key(list@[k]),
        decreases list@.len() - i,
    {
        let mut key: Vec<u64> = Vec::new();
        key.push((65535 - list[i].query_coverage_basis_points) as u64);
        key.push(
            if list[i].numeric_or_date_relevant {
                0
            } else {
                1
            },
        );
        proof {
            assert(key@ =~= fact_key(list@[i as int]));
        }
        keys.push(key);
        i = i + 1;
    }
    proof {
        assert(key_seqs(keys@) =~= fact_keys(query, contents));
    }
    let order = order_of(&keys);
    let ghost sorted = indices(order@);
    let mut all: Vec<usize> = Vec::new();
    let mut k: usize = 0;
    proof {
        assert(sorted.take(0) =~= Seq::empty());
        assert(indices(all@) =~= Seq::empty());
    }
    while k < order.len()
        invariant
            k <= order@.len(),
            sorted == indices(order@),
            list@.len() == contents.len(),
            forall|q: int|
                0 <= q < list@.len() ==> #[trigger] list@[q] == relevance(query, contents[q]),
            forall|q: int| 0 <= q < order@.len() ==> #[trigger] order@[q] < list@.len(),
            indices(all@) == covering_places(query, contents, sorted.take(k as int)),
            forall|q: int| 0 <= q < all@.len() ==> #[trigger] all@[q] < contents.len(),
        decreases order@.len() - k,
    {
        let place = order[k];
        proof {
            let next = sorted.take(k as int + 1);
            assert(next.drop_last() =~= sorted.take(k as int));
            assert(next.last() == place);
            assert(list@[place as int] == relevance(query, contents[place as int]));
        }
        if list[place].query_coverage_basis_points > 0 {
            let ghost before = all@;
            all.push(place);
            proof {
                assert(indices(all@) =~= indices(before).push(place as int));
            }
        }
        k = k + 1;
    }
    proof {
        assert(sorted.take(sorted.len() as int) =~= sorted);
        assert(indices(all@).len() == all@.len());
    }
    if all.len() <= 6 {
        return all;
    }
    let ghost whole = all@;
    let mut out: Vec<usize> = Vec::new();
    let mut q: usize = 0;
    while q < 6
        invariant
            q <= 6,
            all@ == whole,
            all@.len() > 6,
            forall|p: int| 0 <= p < all@.len() ==> #[trigger] all@[p] < contents.len(),
            out@ =~= whole.take(q as int),
        decreases 6 - q,
    {
        out.push(all[q]);
        q = q + 1;
    }
    proof {
        assert(indices(out@) =~= indices(whole).take(6));
        assert forall|p: int| 0 <= p < out@.len() implies #[trigger] out@[p] < contents.len() by {
            assert(out@[p] == whole[p]);
        }
    }
    out
}

/// Reads the passages of a page in their context, and keeps those that answer
/// the question, the most relevant first.
pub fn rank_fact_passages(query: &str, evidence: &mut WebFetchEvidence)
    ensures
        is_ranked_for(query@, *old(evidence), *final(evidence)),
{
    let ghost before = *evidence;
    let official = matches!(evidence.authority, SourceAuthority::FirstParty);
    let plain = chars_of_passages(&evidence.passages);
    let contents = texts_in_context(query, &plain, official);
    let ghost model = texts(contents@);
    let list = assess_all(query, &contents);
    let best = best_coverage(&list, Ghost(query@), Ghost(model));
    evidence.quality.query_coverage_basis_points = best;
    if best == 0 {
        evidence.quality.low_quality_reason = Some(ExtractionLowQualityReason::LowQueryCoverage);
        evidence.passages = Vec::new();
        return ;
    }
    let mut found = false;
    let mut i: usize = 0;
    while i < list.len()
        invariant
            i <= list@.len(),
            list@.len() == model.len(),
            forall|k: int|
                0 <= k < list@.len() ==> #[trigger] list@[k] == relevance(query@, model[k]),
            found == exists|k: int| 0 <= k < i && relevance(query@, #[trigger] model[k]).eligible,
        decreases list@.len() - i,
    {
        proof {
            assert(list@[i as int] == relevance(query@, model[i as int]));
        }
        if list[i].eligible {
            found = true;
        }
        i = i + 1;
    }
    if !found {
        evidence.quality.low_quality_reason = Some(
            ExtractionLowQualityReason::NoClaimRelevantPassage,
        );
        evidence.passages = Vec::new();
        return ;
    }
    evidence.quality.low_quality_reason = None;
    let places = places_of_facts(&list, Ghost(query@), Ghost(model));
    let mut kept: Vec<EvidencePassage> = Vec::new();
    let mut k: usize = 0;
    while k < places.len()
        invariant
            k <= places@.len(),
            evidence.passages@ == before.passages@,
            contents@.len() == before.passages@.len(),
            model == texts(contents@),
            forall|q: int| 0 <= q < places@.len() ==> #[trigger] places@[q] < model.len(),
            kept@.len() == k,
            forall|q: int|
                0 <= q < k ==> {
                    let passage = #[trigger] kept@[q];
                    let source = before.passages@[places@[q] as int];
                    &&& passage.passage_id == source.passage_id
                    &&& passage.truncated == source.truncated
                    &&& passage.text@ == model[places@[q] as int]
                },
        decreases places@.len() - k,
    {
        let place = places[k];
        let source = &evidence.passages[place];
        kept.push(
            EvidencePassage {
                passage_id: source.passage_id.clone(),
                text: string_of(&contents[place]),
                truncated: source.truncated,
            },
        );
        k = k + 1;
    }
    proof {
        assert(indices(places@) == fact_places(query@, model));
        assert forall|q: int| 0 <= q < kept@.len() implies {
            let passage = #[trigger] kept@[q];
            let source = before.passages@[fact_places(query@, model)[q]];
            &&& passage.passage_id == source.passage_id
            &&& passage.truncated == source.truncated
            &&& passage.text@ == model[fact_places(query@, model)[q]]
        } by {
            assert(indices(places@)[q] == places@[q]);
        }
    }
    evidence.passages = kept;
}

/// The authority of a page once the question is known.
pub open spec fn ranked_authority(
    query: Seq<char>,
    candidate: WebCandidate,
    evidence: WebFetchEvidence,
) -> SourceAuthority {
    if query.len() > 0 && first_party(
        query,
        (WebCandidate { requested_url: evidence.final_url, ..candidate }),
    ) {
        SourceAuthority::FirstParty
    } else {
        evidence.authority
    }
}

/// The page with the authority that it has for the question.
pub open spec fn with_ranked_authority(
    query: Seq<char>,
    candidate: WebCandidate,
    value: Option<WebFetchEvidence>,
) -> Option<WebFetchEvidence> {
    match value {
        Some(evidence) => Some(
            WebFetchEvidence {
                authority: ranked_authority(query, candidate, evidence),
                ..evidence
            },
        ),
        None => None,
    }
}

pub fn apply_ranked_authority(
    query: &str,
    candidate: &WebCandidate,
    result: &mut OperationResult<WebFetchEvidence>,
)
    ensures
        *final(result) == (OperationResult {
            value: with_ranked_authority(query@, *candidate, old(result).value),
            ..*old(result)
        }),
{
    let query_chars = chars_of(query);
    match result.value.take() {
        Some(mut evidence) => {
            if query_chars.len() > 0 {
                let mut reached = candidate.clone();
                reached.requested_url = evidence.final_url.clone();
                if candidate_is_first_party(query, &reached) {
                    evidence.authority = SourceAuthority::FirstParty;
                }
            }
            result.value = Some(evidence);
        },
        None => {},
    }
}

/// Too little of the page could be read.
pub open spec fn is_unreadable(quality: ExtractionQuality) -> bool {
    quality.low_quality_reason == Some(ExtractionLowQualityReason::TooLittleUsefulText)
        || quality.low_quality_reason == Some(ExtractionLowQualityReason::MostlyBoilerplate)
}

/// The page with the passages that bear on the intent.
pub open spec fn is_selected_for(
    intent: EvidenceIntent,
    before: WebFetchEvidence,
    after: WebFetchEvidence,
) -> bool {
    if is_unreadable(before.quality) {
        after == (WebFetchEvidence { passages: after.passages, ..before }) && after.passages@.len()
            == 0
    } else {
        match intent {
            EvidenceIntent::WebDirectPage { .. } => after == (WebFetchEvidence {
                passages: after.passages,
                ..before
            }) && after.passages@ == direct_selection(before.passages@),
            EvidenceIntent::WebFact { query, .. } => is_ranked_for(query@, before, after),
            _ => after == before,
        }
    }
}

/// What a fetch contributes once its passages are selected.
pub open spec fn selected_contribution(
    intent: EvidenceIntent,
    contribution: EvidenceContribution,
    before: WebFetchEvidence,
    after: WebFetchEvidence,
) -> EvidenceContribution {
    if is_unreadable(before.quality) || (intent is WebFact && after.passages@.len() == 0) {
        EvidenceContribution::Irrelevant
    } else {
        contribution
    }
}

pub open spec fn selection_applies(
    intent: EvidenceIntent,
    before: OperationResult<WebFetchEvidence>,
    after: OperationResult<WebFetchEvidence>,
) -> bool {
    match before.value {
        Some(evidence) => if before.execution is Succeeded {
            &&& after.value matches Some(selected)
            &&& is_selected_for(intent, evidence, selected)
            &&& after == (OperationResult {
                value: after.value,
                contribution: selected_contribution(
                    intent,
                    before.contribution,
                    evidence,
                    selected,
                ),
                ..before
            })
        } else {
            after == before
        },
        None => after == before,
    }
}

/// Selects the passages of a fetched page for an intent.
pub fn apply_passage_selection(
    intent: &EvidenceIntent,
    result: &mut OperationResult<WebFetchEvidence>,
)
    ensures
        selection_applies(*intent, *old(result), *final(result)),
{
    if !matches!(result.execution, ExecutionStatus::Succeeded) {
        return ;
    }
    match result.value.take() {
        Some(mut evidence) => {
            let unreadable = match evidence.quality.low_quality_reason {
                Some(ExtractionLowQualityReason::TooLittleUsefulText) => true,
                Some(ExtractionLowQualityReason::MostlyBoilerplate) => true,
                _ => false,
            };
            if unreadable {
                evidence.passages = Vec::new();
                result.contribution = EvidenceContribution::Irrelevant;
            } else {
                match intent {
                    EvidenceIntent::WebDirectPage { .. } => {
                        select_direct_page_passages(&mut evidence);
                    },
                    EvidenceIntent::WebFact { query, .. } => {
                        rank_fact_passages(query.as_str(), &mut evidence);
                        if evidence.passages.len() == 0 {
                            result.contribution = EvidenceContribution::Irrelevant;
                        }
                    },
                    _ => {},
                }
            }
            result.value = Some(evidence);
        },
        None => {},
    }
}

pub open spec fn saturating_u8(a: u8, b: u8) -> u8 {
    if a + b <= 255 {
        (a + b) as u8
    } else {
        255
    }
}

pub open spec fn saturating_u64(a: u64, b: u64) -> u64 {
    if a + b <= u64::MAX {
        (a + b) as u64
    } else {
        u64::MAX
    }
}

/// One operation, tried twice: the second outcome with the effort of both.
pub open spec fn merged<T>(first: OperationResult<T>, retry: OperationResult<T>) -> OperationResult<
    T,
> {
    OperationResult {
        key: first.key,
        attempts: saturating_u8(first.attempts, retry.attempts),
        execution: retry.execution,
        contribution: retry.contribution,
        value: retry.value,
        duration_ms: saturating_u64(first.duration_ms, retry.duration_ms),
        invalid_items: saturating_u8(first.invalid_items, retry.invalid_items),
    }
}

pub fn merge_retry(
    first: &mut OperationResult<WebFetchEvidence>,
    retry: OperationResult<WebFetchEvidence>,
)
    ensures
        *final(first) == merged(*old(first), retry),
{
    first.attempts = first.attempts.saturating_add(retry.attempts);
    first.duration_ms = first.duration_ms.saturating_add(retry.duration_ms);
    first.execution = retry.execution;
    first.contribution = retry.contribution;
    first.value = retry.value;
    first.invalid_items = first.invalid_items.saturating_add(retry.invalid_items);
}

/// A page keeps no more than six passages, each of them of the page.
pub proof fn direct_selections_are_bounded(passages: Seq<EvidencePassage>)
    ensures
        direct_selection(passages).len() <= 6,
{
    let contents = passage_texts(passages);
    lemma_front_bounded(contents, contents.len() as int);
}

proof fn lemma_front_bounded(contents: Seq<Seq<char>>, n: int)
    ensures
        front_matter(contents, n).len() <= 2,
    decreases n,
{
    if n > 0 {
        lemma_front_bounded(contents, n - 1);
    }
}

/// A page that is kept for a question answers it: its quality has no
/// objection, and a passage of it is eligible.
pub proof fn kept_facts_answer_the_question(
    query: Seq<char>,
    before: WebFetchEvidence,
    after: WebFetchEvidence,
)
    requires
        is_ranked_for(query, before, after),
        after.passages@.len() > 0,
    ensures
        after.quality.low_quality_reason is None,
        after.passages@.len() <= 6,
        any_eligible(
            query,
            contextual_texts(
                query,
                passage_texts(before.passages@),
                before.authority is FirstParty,
            ),
        ),
{
}

} // verus!
