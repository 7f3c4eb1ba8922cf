//! Which candidates are fetched, and in which order.

use crate::identity::{
    bare_host, bare_host_chars, candidate_id_for_url, candidate_name, source_identity,
    source_identity_for,
};
use crate::order::{indices, key_seqs, order_of, push_text_key, stable_order, text_key};
use crate::relevance::{
    basis_points, count_mentioned, count_covered, covered, mentioned, ranking_term_chars,
    ranking_terms, share,
};
use crate::text::{
    any_term, ascii_lowercase, chars_of, contains, contains_any, contains_text, decimal,
    decimal_of, digit, ends, ends_with, equals, has, holds, is_digit, lower_ascii, parse_unsigned,
    push_all, push_text, runs, runs_of, same_chars, split, split_of, texts, unsigned_value,
};
use crate::types::{
    ProviderSet, SourceAuthority, SourceIdentity, ValidatedReference, WebCandidate, WebProvider,
};
use crate::weburl::{
    candidate_url_is_valid, candidate_url_valid, host_chars, host_text, normalized_url_string,
    normalized_url_text, WebUrl,
};
use vstd::prelude::*;

verus! {

/// The providers of a search: with a Tavily credential it takes the place of
/// the open encyclopedia.
pub fn web_provider_set(tavily_configured: bool) -> (r: ProviderSet)
    ensures
        r.0@ == providers_for(tavily_configured),
{
    let mut providers: Vec<WebProvider> = Vec::new();
    if tavily_configured {
        providers.push(WebProvider::Tavily);
    } else {
        providers.push(WebProvider::Wikipedia);
    }
    providers.push(WebProvider::DuckDuckGo);
    proof {
        assert(providers@ =~= providers_for(tavily_configured));
    }
    ProviderSet(providers)
}

pub open spec fn providers_for(tavily_configured: bool) -> Seq<WebProvider> {
    if tavily_configured {
        seq![WebProvider::Tavily, WebProvider::DuckDuckGo]
    } else {
        seq![WebProvider::Wikipedia, WebProvider::DuckDuckGo]
    }
}

/// The candidate that stands for a page the user named.
pub open spec fn is_direct_candidate(candidate: WebCandidate, url: WebUrl) -> bool {
    &&& candidate.candidate_id@ == candidate_name(normalized_url_text(url))
    &&& candidate.provider is Direct
    &&& candidate.rank == 1
    &&& candidate.title@ == url.text@
    &&& candidate.requested_url == url
    &&& candidate.snippet@.len() == 0
}

pub fn direct_web_candidate(url: &WebUrl) -> (r: WebCandidate)
    ensures
        is_direct_candidate(r, *url),
{
    WebCandidate {
        candidate_id: candidate_id_for_url(url),
        provider: WebProvider::Direct,
        rank: 1,
        title: url.text.clone(),
        requested_url: url.clone(),
        snippet: String::new(),
    }
}

/// The candidate that stands for a link of a fetched page. It has to earn its
/// authority like one that a search found.
pub open spec fn is_linked_candidate(
    candidate: WebCandidate,
    reference: ValidatedReference,
    rank: u16,
) -> bool {
    &&& candidate.candidate_id@ == candidate_name(normalized_url_text(reference.url))
    &&& candidate.provider is DuckDuckGo
    &&& candidate.rank == rank
    &&& candidate.title == reference.label
    &&& candidate.requested_url == reference.url
    &&& candidate.snippet@.len() == 0
}

pub fn linked_web_candidate(reference: &ValidatedReference, rank: u16) -> (r: WebCandidate)
    ensures
        is_linked_candidate(r, *reference, rank),
{
    WebCandidate {
        candidate_id: candidate_id_for_url(&reference.url),
        provider: WebProvider::DuckDuckGo,
        rank,
        title: reference.label.clone(),
        requested_url: reference.url.clone(),
        snippet: String::new(),
    }
}

/// A government host speaks for itself.
pub open spec fn is_government(host: Seq<char>) -> bool {
    ends_with(host, ".gov"@) || ends_with(host, ".gov.sk"@)
}

/// The authority of a page before the question is considered.
pub open spec fn base_authority(provider: WebProvider, final_url: WebUrl) -> SourceAuthority {
    match provider {
        WebProvider::Wikipedia => SourceAuthority::AuthoritativeReference,
        WebProvider::Direct => SourceAuthority::FirstParty,
        _ => if is_government(host_text(final_url)) {
            SourceAuthority::FirstParty
        } else {
            SourceAuthority::Other
        },
    }
}

pub fn authority_for(provider: WebProvider, final_url: &WebUrl) -> (r: SourceAuthority)
    ensures
        r == base_authority(provider, *final_url),
{
    match provider {
        WebProvider::Wikipedia => SourceAuthority::AuthoritativeReference,
        WebProvider::Direct => SourceAuthority::FirstParty,
        _ => {
            let host = host_chars(final_url);
            if ends(&host, ".gov") || ends(&host, ".gov.sk") {
                SourceAuthority::FirstParty
            } else {
                SourceAuthority::Other
            }
        },
    }
}

/// A candidate with this canonical address is among them.
pub open spec fn has_address(candidates: Seq<WebCandidate>, address: Seq<char>) -> bool {
    exists|k: int|
        0 <= k < candidates.len() && normalized_url_text((#[trigger] candidates[k]).requested_url)
            == address
}

/// The first valid candidate of each canonical address.
pub open spec fn deduplicated(candidates: Seq<WebCandidate>) -> Seq<WebCandidate>
    decreases candidates.len(),
{
    if candidates.len() == 0 {
        candidates
    } else {
        let before = deduplicated(candidates.drop_last());
        let last = candidates.last();
        if candidate_url_valid(last.requested_url) && !has_address(
            before,
            normalized_url_text(last.requested_url),
        ) {
            before.push(last)
        } else {
            before
        }
    }
}

fn deduplicate(candidates: &Vec<WebCandidate>) -> (r: Vec<WebCandidate>)
    ensures
        r@ == deduplicated(candidates@),
{
    let mut out: Vec<WebCandidate> = Vec::new();
    let mut seen: Vec<String> = Vec::new();
    let mut i: usize = 0;
    proof {
        assert(out@ =~= deduplicated(candidates@.take(0)));
    }
    while i < candidates.len()
        invariant
            i <= candidates@.len(),
            out@ == deduplicated(candidates@.take(i as int)),
            seen@.len() == out@.len(),
            forall|k: int|
                0 <= k < out@.len() ==> (#[trigger] seen@[k])@ == normalized_url_text(
                    out@[k].requested_url,
                ),
        decreases candidates@.len() - i,
    {
        proof {
            let next = candidates@.take(i as int + 1);
            assert(next.drop_last() =~= candidates@.take(i as int));
            assert(next.last() == candidates@[i as int]);
        }
        if candidate_url_is_valid(&candidates[i].requested_url) {
            let address = normalized_url_string(&candidates[i].requested_url);
            let mut known = false;
            let mut k: usize = 0;
            while k < seen.len() && !known
                invariant
                    k <= seen@.len(),
                    seen@.len() == out@.len(),
                    forall|j: int|
                        0 <= j < out@.len() ==> (#[trigger] seen@[j])@ == normalized_url_text(
                            out@[j].requested_url,
                        ),
                    !known ==> forall|j: int|
                        0 <= j < k ==> normalized_url_text((#[trigger] out@[j]).requested_url)
                            != address@,
                    known ==> has_address(out@, address@),
                decreases seen@.len() - k + (if known { 0int } else { 1int }),
            {
                if seen[k] == address {
                    proof {
                        assert(seen@[k as int]@ == normalized_url_text(out@[k as int].requested_url));
                    }
                    known = true;
                } else {
                    proof {
                        assert(seen@[k as int]@ == normalized_url_text(out@[k as int].requested_url));
                    }
                    k = k + 1;
                }
            }
            if !known {
                out.push(candidates[i].clone());
                seen.push(address);
            }
        }
        i = i + 1;
    }
    proof {
        assert(candidates@.take(candidates@.len() as int) =~= candidates@);
    }
    out
}

/// Keeps the first valid candidate of each canonical address.
pub fn deduplicate_candidates(candidates: &mut Vec<WebCandidate>)
    ensures
        final(candidates)@ == deduplicated(old(candidates)@),
{
    let kept = deduplicate(candidates);
    *candidates = kept;
}

/// The label before the last one, the only one of a bare name.
pub open spec fn owner_label(host: Seq<char>) -> Seq<char> {
    let labels = split(host, '.');
    if labels.len() >= 2 {
        labels[labels.len() - 2]
    } else {
        labels[0]
    }
}

pub open spec fn last_label(host: Seq<char>) -> Seq<char> {
    let labels = split(host, '.');
    labels[labels.len() - 1]
}

/// Two different terms, written together, are the label.
pub open spec fn is_compound(terms: Seq<Seq<char>>, label: Seq<char>) -> bool {
    exists|i: int, j: int|
        0 <= i < terms.len() && 0 <= j < terms.len() && i != j && #[trigger] (terms[i] + terms[j])
            == label
}

/// The question names the owner of the host.
pub open spec fn names_owner(terms: Seq<Seq<char>>, label: Seq<char>) -> bool {
    label.len() >= 4 && (holds(terms, label) || is_compound(terms, label))
}

/// One of the labels is a term of the question.
pub open spec fn label_named(labels: Seq<Seq<char>>, terms: Seq<Seq<char>>) -> bool {
    exists|i: int| 0 <= i < labels.len() && holds(terms, #[trigger] labels[i])
}

/// The presidency of the Slovak Republic is asked for, at its own domain.
pub open spec fn national_presidency(host: Seq<char>, terms: Seq<Seq<char>>) -> bool {
    &&& last_label(host) == "sk"@
    &&& holds(terms, "slovak"@)
    &&& holds(terms, "president"@)
    &&& (owner_label(host) == "prezident"@ || owner_label(host) == "president"@)
}

pub open spec fn public_body(host: Seq<char>) -> bool {
    is_government(host) || ends_with(host, ".europa.eu"@) || ends_with(host, ".int"@)
}

/// The candidate belongs to the organisation that the question is about.
pub open spec fn owned(candidate: WebCandidate, terms: Seq<Seq<char>>) -> bool {
    let host = bare_host(candidate.requested_url);
    ||| national_presidency(host, terms)
    ||| names_owner(terms, owner_label(host))
    ||| (public_body(host) && label_named(split(host, '.'), terms))
}

/// How far a candidate is from an official source: none, an encyclopedia, or more.
pub open spec fn distance(candidate: WebCandidate, terms: Seq<Seq<char>>) -> u8 {
    let host = bare_host(candidate.requested_url);
    let title = ascii_lowercase(candidate.title@);
    let official = names_owner(terms, owner_label(host)) && (contains(title, "official site"@)
        || contains(title, "official website"@));
    let agreement = covered(terms, ranking_terms(candidate.title@)) >= (if terms.len() <= 2 {
        terms.len()
    } else {
        2
    });
    if public_body(host) || ends_with(host, ".edu"@) || ends_with(host, ".ac.uk"@) || official || (
    national_presidency(host, terms) && agreement) {
        0
    } else if candidate.provider is Wikipedia {
        1
    } else {
        2
    }
}

/// The years among the runs of digits.
pub open spec fn latest_year(parts: Seq<Seq<char>>) -> u16
    decreases parts.len(),
{
    if parts.len() == 0 {
        0
    } else {
        let before = latest_year(parts.drop_last());
        match unsigned_value(parts.last()) {
            Some(v) => if parts.last().len() == 4 && 2000 <= v <= 2100 && v > before {
                v as u16
            } else {
                before
            },
            None => before,
        }
    }
}

pub open spec fn digit_marks(s: Seq<char>) -> Seq<bool> {
    Seq::new(s.len(), |i: int| is_digit(s[i]))
}

/// The latest year of this century in the title or the path, zero without one.
pub open spec fn freshness(candidate: WebCandidate) -> u16 {
    let text = candidate.title@ + " "@ + candidate.requested_url.path@;
    latest_year(runs(text, digit_marks(text)))
}

/// A rank in five digits.
pub open spec fn padded(rank: u16) -> Seq<char> {
    let digits = decimal(rank as nat);
    Seq::new((5 - digits.len()) as nat, |i: int| '0') + digits
}

pub open spec fn capped16(n: nat) -> u16 {
    if n <= 65535 {
        n as u16
    } else {
        65535
    }
}

/// The text in which the terms of a question are looked for.
pub open spec fn haystack(candidate: WebCandidate) -> Seq<char> {
    ascii_lowercase(candidate.title@) + " "@ + bare_host(candidate.requested_url) + " "@
        + ascii_lowercase(candidate.requested_url.path@) + " "@ + ascii_lowercase(
        candidate.snippet@,
    )
}

/// Orders candidates: by ownership and distance, then by the terms they
/// mention, then by freshness, then by the provider's rank and the address.
pub open spec fn rank_key(candidate: WebCandidate, terms: Seq<Seq<char>>) -> Seq<u64> {
    let authority = if owned(candidate, terms) {
        0u64
    } else {
        (distance(candidate, terms) + 1) as u64
    };
    let mention = capped16(mentioned(terms, haystack(candidate)));
    seq![authority, (65535 - mention) as u64, (65535 - freshness(candidate)) as u64] + text_key(
        padded(candidate.rank) + ":"@ + normalized_url_text(candidate.requested_url),
    )
}

fn has_compound(terms: &Vec<Vec<char>>, label: &Vec<char>) -> (r: bool)
    ensures
        r == is_compound(texts(terms@), label@),
{
    let ghost model = texts(terms@);
    let mut i: usize = 0;
    while i < terms.len()
        invariant
            i <= terms@.len(),
            model == texts(terms@),
            forall|a: int, b: int|
                0 <= a < i && 0 <= b < terms@.len() && a != b ==> #[trigger] (model[a] + model[b])
                    != label@,
        decreases terms@.len() - i,
    {
        let mut j: usize = 0;
        while j < terms.len()
            invariant
                i < terms@.len(),
                j <= terms@.len(),
                model == texts(terms@),
                forall|b: int|
                    0 <= b < j && i != b ==> #[trigger] (model[i as int] + model[b]) != label@,
            decreases terms@.len() - j,
        {
            if i != j {
                let mut pair = crate::text::copy_chars(&terms[i]);
                push_all(&mut pair, &terms[j]);
                proof {
                    assert(pair@ == model[i as int] + model[j as int]);
                }
                if same_chars(&pair, label) {
                    return true;
                }
            }
            j = j + 1;
        }
        i = i + 1;
    }
    false
}

fn owner_named(terms: &Vec<Vec<char>>, label: &Vec<char>) -> (r: bool)
    ensures
        r == names_owner(texts(terms@), label@),
{
    label.len() >= 4 && (contains_text(terms, label) || has_compound(terms, label))
}

fn owner_of(labels: &Vec<Vec<char>>) -> (r: Vec<char>)
    requires
        labels@.len() > 0,
    ensures
        r@ == (if labels@.len() >= 2 {
            texts(labels@)[labels@.len() - 2]
        } else {
            texts(labels@)[0]
        }),
{
    if labels.len() >= 2 {
        crate::text::copy_chars(&labels[labels.len() - 2])
    } else {
        crate::text::copy_chars(&labels[0])
    }
}

fn holds_term(terms: &Vec<Vec<char>>, term: &str) -> (r: bool)
    ensures
        r == holds(texts(terms@), term@),
{
    let chars = chars_of(term);
    contains_text(terms, &chars)
}

fn is_public_body(host: &Vec<char>) -> (r: bool)
    ensures
        r == public_body(host@),
{
    ends(host, ".gov") || ends(host, ".gov.sk") || ends(host, ".europa.eu") || ends(host, ".int")
}

fn is_national_presidency(host: &Vec<char>, terms: &Vec<Vec<char>>) -> (r: bool)
    ensures
        r == national_presidency(host@, texts(terms@)),
{
    let labels = split_of(host, '.');
    proof {
        assert(texts(labels@).len() == labels@.len());
        assert(texts(labels@)[labels@.len() - 1] == labels@[labels@.len() - 1]@);
    }
    let owner = owner_of(&labels);
    equals(&labels[labels.len() - 1], "sk") && holds_term(terms, "slovak") && holds_term(
        terms,
        "president",
    ) && (equals(&owner, "prezident") || equals(&owner, "president"))
}

fn any_label_named(labels: &Vec<Vec<char>>, terms: &Vec<Vec<char>>) -> (r: bool)
    ensures
        r == label_named(texts(labels@), texts(terms@)),
{
    let mut i: usize = 0;
    while i < labels.len()
        invariant
            i <= labels@.len(),
            forall|k: int| 0 <= k < i ==> !holds(texts(terms@), #[trigger] texts(labels@)[k]),
        decreases labels@.len() - i,
    {
        if contains_text(terms, &labels[i]) {
            assert(holds(texts(terms@), texts(labels@)[i as int]));
            return true;
        }
        i = i + 1;
    }
    false
}

pub fn candidate_ownership_matches(candidate: &WebCandidate, query_terms: &Vec<Vec<char>>) -> (r: bool)
    ensures
        r == owned(*candidate, texts(query_terms@)),
{
    let host = bare_host_chars(&candidate.requested_url);
    let labels = split_of(&host, '.');
    proof {
        assert(texts(labels@).len() == labels@.len());
    }
    let owner = owner_of(&labels);
    is_national_presidency(&host, query_terms) || owner_named(query_terms, &owner) || (
    is_public_body(&host) && any_label_named(&labels, query_terms))
}

pub fn candidate_authority_score(candidate: &WebCandidate, query_terms: &Vec<Vec<char>>) -> (r: u8)
    ensures
        r == distance(*candidate, texts(query_terms@)),
        r <= 2,
{
    let host = bare_host_chars(&candidate.requested_url);
    let labels = split_of(&host, '.');
    proof {
        assert(texts(labels@).len() == labels@.len());
        assert(texts(query_terms@).len() == query_terms@.len());
    }
    let owner = owner_of(&labels);
    let title_chars = chars_of(candidate.title.as_str());
    let title = lower_ascii(&title_chars);
    let official = owner_named(query_terms, &owner) && (has(&title, "official site") || has(
        &title,
        "official website",
    ));
    let title_terms = ranking_term_chars(candidate.title.as_str());
    let minimum: usize = if query_terms.len() <= 2 {
        query_terms.len()
    } else {
        2
    };
    let agreement = count_covered(query_terms, &title_terms) >= minimum;
    if is_public_body(&host) || ends(&host, ".edu") || ends(&host, ".ac.uk") || official || (
    is_national_presidency(&host, query_terms) && agreement) {
        0
    } else if matches!(candidate.provider, WebProvider::Wikipedia) {
        1
    } else {
        2
    }
}

pub fn candidate_freshness_score(candidate: &WebCandidate) -> (r: u16)
    ensures
        r == freshness(*candidate),
{
    let mut text = chars_of(candidate.title.as_str());
    push_text(&mut text, " ");
    push_text(&mut text, candidate.requested_url.path.as_str());
    let mut marks: Vec<bool> = Vec::new();
    let mut i: usize = 0;
    while i < text.len()
        invariant
            i <= text@.len(),
            marks@.len() == i,
            forall|k: int| 0 <= k < i ==> marks@[k] == is_digit(text@[k]),
        decreases text@.len() - i,
    {
        marks.push(digit(text[i]));
        i = i + 1;
    }
    proof {
        assert(marks@ =~= digit_marks(text@));
    }
    let parts = runs_of(&text, &marks);
    let ghost model = texts(parts@);
    let mut best: u16 = 0;
    let mut j: usize = 0;
    proof {
        assert(model.take(0) =~= Seq::empty());
    }
    while j < parts.len()
        invariant
            j <= parts@.len(),
            model == texts(parts@),
            best == latest_year(model.take(j as int)),
        decreases parts@.len() - j,
    {
        proof {
            let next = model.take(j as int + 1);
            assert(next.drop_last() =~= model.take(j as int));
            assert(next.last() == parts@[j as int]@);
        }
        if parts[j].len() == 4 {
            if let Some(v) = parse_unsigned(&parts[j], 2100) {
                if v >= 2000 && v as u16 > best {
                    best = v as u16;
                }
            }
        }
        j = j + 1;
    }
    proof {
        assert(model.take(parts@.len() as int) =~= model);
    }
    best
}

proof fn lemma_decimal_len(n: nat)
    requires
        n <= 65535,
    ensures
        decimal(n).len() <= 5,
{
    reveal_with_fuel(decimal, 6);
}

fn padded_chars(rank: u16) -> (r: Vec<char>)
    ensures
        r@ == padded(rank),
{
    let digits = decimal_of(rank as u64);
    proof {
        lemma_decimal_len(rank as nat);
    }
    let zeros: usize = 5 - digits.len();
    let mut out: Vec<char> = Vec::new();
    let mut i: usize = 0;
    while i < zeros
        invariant
            i <= zeros,
            out@.len() == i,
            forall|k: int| 0 <= k < i ==> out@[k] == '0',
        decreases zeros - i,
    {
        out.push('0');
        i = i + 1;
    }
    push_all(&mut out, &digits);
    proof {
        assert(out@ =~= padded(rank));
    }
    out
}

fn haystack_chars(candidate: &WebCandidate) -> (r: Vec<char>)
    ensures
        r@ == haystack(*candidate),
{
    let title = chars_of(candidate.title.as_str());
    let mut out = lower_ascii(&title);
    push_text(&mut out, " ");
    push_all(&mut out, &bare_host_chars(&candidate.requested_url));
    push_text(&mut out, " ");
    let path = chars_of(candidate.requested_url.path.as_str());
    push_all(&mut out, &lower_ascii(&path));
    push_text(&mut out, " ");
    let snippet = chars_of(candidate.snippet.as_str());
    push_all(&mut out, &lower_ascii(&snippet));
    proof {
        assert(out@ =~= haystack(*candidate));
    }
    out
}

pub fn candidate_rank_key(candidate: &WebCandidate, query_terms: &Vec<Vec<char>>) -> (r: Vec<u64>)
    ensures
        r@ == rank_key(*candidate, texts(query_terms@)),
{
    let authority: u64 = if candidate_ownership_matches(candidate, query_terms) {
        0
    } else {
        candidate_authority_score(candidate, query_terms) as u64 + 1
    };
    let text = haystack_chars(candidate);
    let count = count_mentioned(query_terms, &text);
    let mention: u64 = if count <= 65535 {
        count as u64
    } else {
        65535
    };
    let fresh: u64 = candidate_freshness_score(candidate) as u64;
    let mut key: Vec<u64> = Vec::new();
    key.push(authority);
    key.push(65535 - mention);
    key.push(65535 - fresh);
    let mut tail = padded_chars(candidate.rank);
    push_text(&mut tail, ":");
    let address = normalized_url_string(&candidate.requested_url);
    push_text(&mut tail, address.as_str());
    push_text_key(&mut key, &tail);
    proof {
        assert(key@ =~= rank_key(*candidate, texts(query_terms@)));
    }
    key
}

pub open spec fn rank_keys(candidates: Seq<WebCandidate>, terms: Seq<Seq<char>>) -> Seq<Seq<u64>> {
    Seq::new(candidates.len(), |i: int| rank_key(candidates[i], terms))
}

/// The candidates by ascending rank key.
pub open spec fn ranked(candidates: Seq<WebCandidate>, terms: Seq<Seq<char>>) -> Seq<WebCandidate> {
    let order = stable_order(rank_keys(candidates, terms), candidates.len() as int);
    Seq::new(candidates.len(), |i: int| candidates[order[i]])
}

fn rank(candidates: &Vec<WebCandidate>, terms: &Vec<Vec<char>>) -> (r: Vec<WebCandidate>)
    ensures
        r@ == ranked(candidates@, texts(terms@)),
{
    let mut keys: Vec<Vec<u64>> = Vec::new();
    let mut i: usize = 0;
    while i < candidates.len()
        invariant
            i <= candidates@.len(),
            keys@.len() == i,
            forall|k: int|
                0 <= k < i ==> (#[trigger] keys@[k])@ == rank_key(candidates@[k], texts(terms@)),
        decreases candidates@.len() - i,
    {
        keys.push(candidate_rank_key(&candidates[i], terms));
        i = i + 1;
    }
    proof {
        assert(key_seqs(keys@) =~= rank_keys(candidates@, texts(terms@)));
    }
    let order = order_of(&keys);
    let mut out: Vec<WebCandidate> = Vec::new();
    let mut j: usize = 0;
    while j < order.len()
        invariant
            j <= order@.len(),
            order@.len() == candidates@.len(),
            forall|q: int| 0 <= q < order@.len() ==> #[trigger] order@[q] < candidates@.len(),
            out@.len() == j,
            forall|k: int| 0 <= k < j ==> #[trigger] out@[k] == candidates@[order@[k] as int],
        decreases order@.len() - j,
    {
        out.push(candidates[order[j]].clone());
        j = j + 1;
    }
    proof {
        assert forall|k: int| 0 <= k < out@.len() implies out@[k] == ranked(
            candidates@,
            texts(terms@),
        )[k] by {
            assert(indices(order@)[k] == order@[k] as int);
        }
        assert(out@ =~= ranked(candidates@, texts(terms@)));
    }
    out
}

pub open spec fn has_publisher(candidates: Seq<WebCandidate>, identity: Seq<char>) -> bool {
    exists|k: int|
        0 <= k < candidates.len() && source_identity((#[trigger] candidates[k]).requested_url)
            == identity
}

/// The first candidate of each publisher, and the others, each in order.
pub open spec fn by_publisher(candidates: Seq<WebCandidate>) -> (Seq<WebCandidate>, Seq<WebCandidate>)
    decreases candidates.len(),
{
    if candidates.len() == 0 {
        (Seq::empty(), Seq::empty())
    } else {
        let (first, repeats) = by_publisher(candidates.drop_last());
        if has_publisher(first, source_identity(candidates.last().requested_url)) {
            (first, repeats.push(candidates.last()))
        } else {
            (first.push(candidates.last()), repeats)
        }
    }
}

/// Distinct publishers first.
pub open spec fn diversified(candidates: Seq<WebCandidate>) -> Seq<WebCandidate> {
    by_publisher(candidates).0 + by_publisher(candidates).1
}

fn diversify(candidates: &Vec<WebCandidate>) -> (r: Vec<WebCandidate>)
    ensures
        r@ == diversified(candidates@),
{
    let mut first: Vec<WebCandidate> = Vec::new();
    let mut repeats: Vec<WebCandidate> = Vec::new();
    let mut seen: Vec<SourceIdentity> = Vec::new();
    let mut i: usize = 0;
    proof {
        assert(candidates@.take(0) =~= Seq::empty());
        assert(first@ =~= by_publisher(candidates@.take(0)).0);
        assert(repeats@ =~= by_publisher(candidates@.take(0)).1);
    }
    while i < candidates.len()
        invariant
            i <= candidates@.len(),
            first@ == by_publisher(candidates@.take(i as int)).0,
            repeats@ == by_publisher(candidates@.take(i as int)).1,
            seen@.len() == first@.len(),
            forall|k: int|
                0 <= k < first@.len() ==> (#[trigger] seen@[k])@ == source_identity(
                    first@[k].requested_url,
                ),
        decreases candidates@.len() - i,
    {
        proof {
            let next = candidates@.take(i as int + 1);
            assert(next.drop_last() =~= candidates@.take(i as int));
            assert(next.last() == candidates@[i as int]);
        }
        let identity = source_identity_for(&candidates[i].requested_url);
        let mut known = false;
        let mut k: usize = 0;
        while k < seen.len() && !known
            invariant
                k <= seen@.len(),
                seen@.len() == first@.len(),
                forall|j: int|
                    0 <= j < first@.len() ==> (#[trigger] seen@[j])@ == source_identity(
                        first@[j].requested_url,
                    ),
                !known ==> forall|j: int|
                    0 <= j < k ==> source_identity((#[trigger] first@[j]).requested_url)
                        != identity@,
                known ==> has_publisher(first@, identity@),
            decreases seen@.len() - k + (if known { 0int } else { 1int }),
        {
            proof {
                assert(seen@[k as int]@ == source_identity(first@[k as int].requested_url));
            }
            if seen[k].same(&identity) {
                known = true;
            } else {
                k = k + 1;
            }
        }
        if known {
            repeats.push(candidates[i].clone());
        } else {
            first.push(candidates[i].clone());
            seen.push(identity);
        }
        i = i + 1;
    }
    proof {
        assert(candidates@.take(candidates@.len() as int) =~= candidates@);
    }
    let mut out = first;
    out.append(&mut repeats);
    out
}

pub fn diversify_candidates_by_source(candidates: &mut Vec<WebCandidate>)
    ensures
        final(candidates)@ == diversified(old(candidates)@),
{
    let spread = diversify(candidates);
    *candidates = spread;
}

/// The candidates of a question in the order in which they are fetched.
pub open spec fn prepared(query: Seq<char>, candidates: Seq<WebCandidate>) -> Seq<WebCandidate> {
    diversified(ranked(deduplicated(candidates), ranking_terms(query)))
}

pub fn prepare_web_candidates(query: &str, candidates: &mut Vec<WebCandidate>)
    ensures
        final(candidates)@ == prepared(query@, old(candidates)@),
{
    let kept = deduplicate(candidates);
    let terms = ranking_term_chars(query);
    let sorted = rank(&kept, &terms);
    *candidates = diversify(&sorted);
}

/// The share of the question's terms in the title and address of a candidate.
pub open spec fn relevance_score(query: Seq<char>, candidate: WebCandidate) -> u16 {
    let text = ascii_lowercase(candidate.title@) + " "@ + ascii_lowercase(
        host_text(candidate.requested_url),
    ) + " "@ + ascii_lowercase(candidate.requested_url.path@);
    basis_points(mentioned(ranking_terms(query), text), ranking_terms(query).len())
}

pub fn candidate_query_relevance_score(query: &str, candidate: &WebCandidate) -> (r: u16)
    ensures
        r == relevance_score(query@, *candidate),
{
    let terms = ranking_term_chars(query);
    let title = chars_of(candidate.title.as_str());
    let mut text = lower_ascii(&title);
    push_text(&mut text, " ");
    let host = host_chars(&candidate.requested_url);
    push_all(&mut text, &lower_ascii(&host));
    push_text(&mut text, " ");
    let path = chars_of(candidate.requested_url.path.as_str());
    push_all(&mut text, &lower_ascii(&path));
    let count = count_mentioned(&terms, &text);
    proof {
        assert(texts(terms@).len() == terms@.len());
        assert(text@ =~= ascii_lowercase(candidate.title@) + " "@ + ascii_lowercase(
            host_text(candidate.requested_url),
        ) + " "@ + ascii_lowercase(candidate.requested_url.path@));
    }
    share(count, terms.len())
}

pub open spec fn profile_terms() -> Seq<&'static str> {
    seq!["biography", "profile", "office holder", "curriculum vitae"]
}

/// A profile page, for a question about a person or the presidency.
pub open spec fn targets_relationship(query: Seq<char>, candidate: WebCandidate) -> bool {
    let q = ascii_lowercase(query);
    (contains(q, "who"@) || contains(q, "president"@)) && contains_any(
        ascii_lowercase(candidate.title@),
        profile_terms(),
    )
}

pub fn candidate_targets_requested_relationship(query: &str, candidate: &WebCandidate) -> (r: bool)
    ensures
        r == targets_relationship(query@, *candidate),
{
    let query_chars = chars_of(query);
    let q = lower_ascii(&query_chars);
    let title_chars = chars_of(candidate.title.as_str());
    let title = lower_ascii(&title_chars);
    let terms = ["biography", "profile", "office holder", "curriculum vitae"];
    proof {
        assert(terms@ =~= profile_terms());
    }
    (has(&q, "who") || has(&q, "president")) && any_term(&title, &terms)
}

pub fn candidate_is_query_relevant(query: &str, candidate: &WebCandidate) -> (r: bool)
    ensures
        r == (relevance_score(query@, *candidate) > 0 || targets_relationship(query@, *candidate)),
{
    candidate_query_relevance_score(query, candidate) > 0
        || candidate_targets_requested_relationship(query, candidate)
}

pub open spec fn first_party(query: Seq<char>, candidate: WebCandidate) -> bool {
    owned(candidate, ranking_terms(query))
}

pub fn candidate_is_first_party(query: &str, candidate: &WebCandidate) -> (r: bool)
    ensures
        r == first_party(query@, *candidate),
{
    let terms = ranking_term_chars(query);
    candidate_ownership_matches(candidate, &terms)
}

/// No two kept candidates have one canonical address, every one of them has a
/// web address that is not in a prohibited range, and no valid address is lost.
pub proof fn deduplication_keeps_each_address_once(candidates: Seq<WebCandidate>)
    ensures
        forall|i: int|
            0 <= i < deduplicated(candidates).len() ==> candidate_url_valid(
                (#[trigger] deduplicated(candidates)[i]).requested_url,
            ),
        forall|i: int, j: int|
            0 <= i < j < deduplicated(candidates).len() ==> normalized_url_text(
                (#[trigger] deduplicated(candidates)[i]).requested_url,
            ) != normalized_url_text((#[trigger] deduplicated(candidates)[j]).requested_url),
        forall|i: int|
            0 <= i < candidates.len() && candidate_url_valid(
                (#[trigger] candidates[i]).requested_url,
            ) ==> has_address(
                deduplicated(candidates),
                normalized_url_text(candidates[i].requested_url),
            ),
    decreases candidates.len(),
{
    if candidates.len() > 0 {
        let rest = candidates.drop_last();
        deduplication_keeps_each_address_once(rest);
        let before = deduplicated(rest);
        let after = deduplicated(candidates);
        assert forall|i: int|
            0 <= i < candidates.len() && candidate_url_valid(
                (#[trigger] candidates[i]).requested_url,
            ) implies has_address(after, normalized_url_text(candidates[i].requested_url)) by {
            let address = normalized_url_text(candidates[i].requested_url);
            if i < rest.len() {
                assert(rest[i] == candidates[i]);
                assert(has_address(before, address));
            }
            if has_address(before, address) {
                let w = choose|w: int|
                    0 <= w < before.len() && normalized_url_text(
                        (#[trigger] before[w]).requested_url,
                    ) == address;
                assert(after[w] == before[w]);
            } else {
                assert(after[before.len() as int] == candidates.last());
            }
        }
    }
}

/// Diversification loses and invents nothing.
pub proof fn diversification_keeps_candidates(candidates: Seq<WebCandidate>)
    ensures
        diversified(candidates).to_multiset() == candidates.to_multiset(),
    decreases candidates.len(),
{
    broadcast use vstd::seq_lib::group_to_multiset_ensures;

    if candidates.len() > 0 {
        let rest = candidates.drop_last();
        diversification_keeps_candidates(rest);
        let (first, repeats) = by_publisher(rest);
        assert(candidates =~= rest.push(candidates.last()));
        if has_publisher(first, source_identity(candidates.last().requested_url)) {
            assert(diversified(candidates) =~= diversified(rest).push(candidates.last()));
        } else {
            assert(diversified(candidates) =~= diversified(rest).insert(
                first.len() as int,
                candidates.last(),
            ));
        }
    } else {
        assert(diversified(candidates) =~= candidates);
    }
}

/// The leading candidates have pairwise different publishers, and each
/// publisher of the others leads once.
pub proof fn diversification_leads_with_distinct_publishers(candidates: Seq<WebCandidate>)
    ensures
        forall|i: int, j: int|
            0 <= i < j < by_publisher(candidates).0.len() ==> source_identity(
                (#[trigger] by_publisher(candidates).0[i]).requested_url,
            ) != source_identity((#[trigger] by_publisher(candidates).0[j]).requested_url),
        forall|i: int|
            0 <= i < by_publisher(candidates).1.len() ==> has_publisher(
                by_publisher(candidates).0,
                source_identity((#[trigger] by_publisher(candidates).1[i]).requested_url),
            ),
    decreases candidates.len(),
{
    if candidates.len() > 0 {
        let rest = candidates.drop_last();
        diversification_leads_with_distinct_publishers(rest);
        let (first, repeats) = by_publisher(rest);
        let (first2, repeats2) = by_publisher(candidates);
        assert forall|i: int| 0 <= i < repeats2.len() implies has_publisher(
            first2,
            source_identity((#[trigger] repeats2[i]).requested_url),
        ) by {
            let identity = source_identity(repeats2[i].requested_url);
            if i < repeats.len() {
                assert(repeats2[i] == repeats[i]);
            }
            assert(has_publisher(first, identity));
            let w = choose|w: int|
                0 <= w < first.len() && source_identity((#[trigger] first[w]).requested_url)
                    == identity;
            assert(first2[w] == first[w]);
        }
    }
}

} // verus!
