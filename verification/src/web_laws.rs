//! Addresses, publishers and search answers: what is taken from them and what is not.

use crate::address::{octet, prohibited, v4_literal, IpAddress};
use crate::identity::{
    bare_host, candidate_name, evidence_name, first_bytes, passage_name, registrable,
    second_level_labels, short_digest, source_identity,
};
use crate::json::{lookup, Json};
use crate::search::{
    at_most, becomes, challenge_terms, failed_search, fetchable, is_tavily_request,
    listed_candidates, no_result_terms, provider_status, raw_models, reads_result_page,
    reads_tavily, reads_wikipedia, search_contribution, search_follows, search_language,
    tavily_candidate, tavily_candidates, tavily_gate, usable, wikipedia_candidate,
    wikipedia_candidates, wikipedia_query, ProviderSearch, RawCandidate, SearchState, SearchStep,
    TavilyAcceptanceFault,
};
use crate::text::{
    ascii_lowercase, contains, contains_any, decimal, digit_char, is_digit, is_one_of, join, split,
    trim,
};
use crate::types::{FailureCode, ProviderResult, ProviderStatus, WebCandidate, WebProvider};
use crate::weburl::{
    candidate_url_valid, host_text, meaningful_pairs, normalized, normalized_url_text, pair_key,
    pair_keys, parsed_url, shape_is_valid, shifted_key, sorted_pairs, url_query_pairs,
    url_with_pairs, url_without_fragment, url_without_port, url_without_query, WebUrl,
};
use vstd::prelude::*;

verus! {

/// An address of four bytes as one number.
pub open spec fn v4_number(a: u8, b: u8, c: u8, d: u8) -> int {
    a * 16777216 + b * 65536 + c * 256 + d
}

/// The addresses of four bytes that are not fetched are those of these ranges.
pub proof fn prohibited_ranges(a: u8, b: u8, c: u8, d: u8)
    ensures
        prohibited(IpAddress::V4(a, b, c, d)) <==> {
            let n = v4_number(a, b, c, d);
            ||| n <= 0x00ff_ffff
            ||| 0x0a00_0000 <= n <= 0x0aff_ffff
            ||| 0x6440_0000 <= n <= 0x647f_ffff
            ||| 0x7f00_0000 <= n <= 0x7fff_ffff
            ||| 0xa9fe_0000 <= n <= 0xa9fe_ffff
            ||| 0xac10_0000 <= n <= 0xac1f_ffff
            ||| 0xc000_0000 <= n <= 0xc000_00ff
            ||| 0xc000_0200 <= n <= 0xc000_02ff
            ||| 0xc058_6300 <= n <= 0xc058_63ff
            ||| 0xc0a8_0000 <= n <= 0xc0a8_ffff
            ||| 0xc612_0000 <= n <= 0xc613_ffff
            ||| 0xc633_6400 <= n <= 0xc633_64ff
            ||| 0xcb00_7100 <= n <= 0xcb00_71ff
            ||| 0xe000_0000 <= n
        },
{
}

/// Of the addresses of eight groups those that carry one of four bytes go by it, the
/// local and the special ones are not fetched, and the others of the public range are.
pub proof fn prohibited_groups(
    s0: u16,
    s1: u16,
    s2: u16,
    s3: u16,
    s4: u16,
    s5: u16,
    s6: u16,
    s7: u16,
)
    ensures
        ({
            let carried = prohibited(
                IpAddress::V4(
                    (s6 / 256) as u8,
                    (s6 % 256) as u8,
                    (s7 / 256) as u8,
                    (s7 % 256) as u8,
                ),
            );
            let is_prohibited = prohibited(IpAddress::V6(s0, s1, s2, s3, s4, s5, s6, s7));
            &&& s0 == 0 && s1 == 0 && s2 == 0 && s3 == 0 && s4 == 0 && s5 == 0xffff
                ==> is_prohibited == carried
            &&& s0 == 0x64 && s1 == 0xff9b && s2 == 0 && s3 == 0 && s4 == 0 && s5 == 0
                ==> is_prohibited == carried
            &&& s0 == 0x64 && s1 == 0xff9b && s2 == 1 ==> is_prohibited
            &&& s0 == 0 && s1 == 0 && s2 == 0 && s3 == 0 && s4 == 0 && s5 == 0 ==> is_prohibited
            &&& s0 >= 0xfc00 && !(0xfe00 <= s0 <= 0xfe7f) ==> is_prohibited
            &&& s0 == 0x100 && s1 == 0 && s2 == 0 && s3 == 0 ==> is_prohibited
            &&& s0 == 0x2001 ==> (is_prohibited <==> s1 == 0 || s1 == 2 || 0x10 <= s1 <= 0x2f || s1
                == 0xdb8)
            &&& s0 == 0x2002 || s0 == 0x3ffe || s0 == 0x5f00 ==> is_prohibited
            &&& s0 == 0x3fff ==> (is_prohibited <==> s1 <= 0xfff)
            &&& 0x2003 <= s0 <= 0x3ffd || s0 == 0x2000 ==> !is_prohibited
        }),
{
}

/// A byte of an address is written in decimal without a zero in front.
pub proof fn bytes_are_written_in_decimal(part: Seq<char>, value: u8)
    ensures
        octet(part) == Some(value) <==> part == decimal(value as nat),
{
    reveal_with_fuel(decimal, 4);
    let n = value as nat;
    assert(n / 10 / 10 == n / 100);
    if octet(part) == Some(value) {
        assert forall|i: int| 0 <= i < part.len() implies 48 <= #[trigger] part[i] as u32 <= 57 by {
            assert(is_digit(part[i]));
        }
        if part.len() == 1 {
            lemma_one_digit(part[0], n);
            assert(part =~= decimal(n));
        } else if part.len() == 2 {
            assert(part[0] != '0');
            lemma_two_digits(part[0], part[1], n);
            assert(part =~= decimal(n));
        } else {
            assert(part[0] != '0');
            lemma_three_digits(part[0], part[1], part[2], n);
            assert(part =~= decimal(n));
        }
    }
    if part == decimal(n) {
        lemma_digit(n % 10);
        lemma_digit(n / 10 % 10);
        lemma_digit(n / 100);
        if n < 10 {
            assert(part =~= seq![digit_char(n)]);
        } else if n < 100 {
            assert(part =~= seq![digit_char(n / 10), digit_char(n % 10)]);
        } else {
            assert(part =~= seq![
                digit_char(n / 100),
                digit_char(n / 10 % 10),
                digit_char(n % 10),
            ]);
        }
    }
}

proof fn lemma_digit(d: nat)
    requires
        d < 10,
    ensures
        digit_char(d) as u32 == 48 + d,
{
}

proof fn lemma_char_of_digit(c: char, d: nat)
    requires
        d < 10,
        c as u32 == 48 + d,
    ensures
        c == digit_char(d),
{
}

proof fn lemma_one_digit(a: char, n: nat)
    requires
        48 <= a as u32 <= 57,
        n == a as u32 - 48,
    ensures
        n < 10,
        a == digit_char(n),
{
    lemma_char_of_digit(a, n);
}

proof fn lemma_hundreds(x: int, y: int, z: int, n: int)
    requires
        0 <= x < 10,
        0 <= y < 10,
        0 <= z < 10,
        n == 100 * x + 10 * y + z,
    ensures
        n / 100 == x,
        n / 10 % 10 == y,
        n % 10 == z,
{
    assert(n / 10 == 10 * x + y);
}

proof fn lemma_two_digits(a: char, b: char, n: nat)
    requires
        48 <= a as u32 <= 57,
        48 <= b as u32 <= 57,
        a != '0',
        n == (a as u32 - 48) * 10 + (b as u32 - 48),
    ensures
        n >= 10,
        n < 100,
        a == digit_char(n / 10),
        b == digit_char(n % 10),
{
    lemma_char_of_digit(a, n / 10);
    lemma_char_of_digit(b, n % 10);
}

proof fn lemma_three_digits(a: char, b: char, c: char, n: nat)
    requires
        48 <= a as u32 <= 57,
        48 <= b as u32 <= 57,
        48 <= c as u32 <= 57,
        a != '0',
        n == (a as u32 - 48) * 100 + (b as u32 - 48) * 10 + (c as u32 - 48),
    ensures
        n >= 100,
        n < 1000,
        a == digit_char(n / 100),
        b == digit_char(n / 10 % 10),
        c == digit_char(n % 10),
{
    lemma_hundreds(a as u32 - 48, b as u32 - 48, c as u32 - 48, n as int);
    lemma_char_of_digit(a, n / 100);
    lemma_char_of_digit(b, n / 10 % 10);
    lemma_char_of_digit(c, n % 10);
}

/// A host names an address of four bytes exactly where it is four of them with points
/// between.
pub proof fn hosts_name_addresses(host: Seq<char>)
    ensures
        v4_literal(host) matches Some(ip) ==> {
            &&& ip matches IpAddress::V4(a, b, c, d)
            &&& split(host, '.') == seq![
                decimal(a as nat),
                decimal(b as nat),
                decimal(c as nat),
                decimal(d as nat),
            ]
        },
        !(v4_literal(host) is Some) ==> split(host, '.').len() != 4 || exists|i: int|
            0 <= i < 4 && octet(#[trigger] split(host, '.')[i]) is None,
{
    let parts = split(host, '.');
    if v4_literal(host) is Some {
        match v4_literal(host)->0 {
            IpAddress::V4(a, b, c, d) => {
                bytes_are_written_in_decimal(parts[0], a);
                bytes_are_written_in_decimal(parts[1], b);
                bytes_are_written_in_decimal(parts[2], c);
                bytes_are_written_in_decimal(parts[3], d);
                assert(parts =~= seq![
                    decimal(a as nat),
                    decimal(b as nat),
                    decimal(c as nat),
                    decimal(d as nat),
                ]);
            },
            _ => {},
        }
    } else if parts.len() == 4 {
        assert(octet(parts[0]) is None || octet(parts[1]) is None || octet(parts[2]) is None
            || octet(parts[3]) is None);
    }
}

/// An address may be fetched exactly where it is one of the web, names a host and no
/// user, and does not lie in a prohibited range.
pub proof fn fetchable_addresses(url: WebUrl)
    ensures
        candidate_url_valid(url) <==> {
            &&& url.scheme@ == "http"@ || url.scheme@ == "https"@
            &&& url.host is Some
            &&& url.username@.len() == 0
            &&& !url.has_password
            &&& !(v4_literal(url.host->0@) matches Some(ip) && prohibited(ip))
        },
{
}

/// Parameters that only track a visit are dropped from an address, and all others stay
/// in their order.
pub proof fn tracking_is_dropped(pairs: Seq<(Seq<char>, Seq<char>)>)
    ensures
        meaningful_pairs(pairs) == pairs.filter(
            |p: (Seq<char>, Seq<char>)|
                !("utm_"@.is_prefix_of(ascii_lowercase(p.0)) || ascii_lowercase(p.0) == "fbclid"@
                    || ascii_lowercase(p.0) == "gclid"@),
        ),
    decreases pairs.len(),
{
    reveal(Seq::filter);
    if pairs.len() > 0 {
        tracking_is_dropped(pairs.drop_last());
        crate::text_laws::contained_texts_are_stretches(
            ascii_lowercase(pairs.last().0),
            "utm_"@,
        );
    }
}

/// Parameters are ordered by their name, and under one name by their value; none is lost
/// and none is made up.
pub proof fn parameters_are_ordered_by_name(pairs: Seq<(Seq<char>, Seq<char>)>, i: int, j: int)
    requires
        0 <= i < j < pairs.len(),
    ensures
        sorted_pairs(pairs).len() == pairs.len(),
        !crate::order::key_less(
            pair_key(sorted_pairs(pairs)[j]),
            pair_key(sorted_pairs(pairs)[i]),
        ),
        pairs.contains(sorted_pairs(pairs)[i]),
{
    let keys = pair_keys(pairs);
    let n = pairs.len() as int;
    crate::order::stable_order_range(keys, n);
    crate::order::stable_order_ascends(keys, n);
    let order = crate::order::stable_order(keys, n);
    assert(keys[order[i]] == pair_key(sorted_pairs(pairs)[i]));
    assert(keys[order[j]] == pair_key(sorted_pairs(pairs)[j]));
    assert(pairs[order[i]] == sorted_pairs(pairs)[i]);
}

/// A parameter comes before another where its name does, whatever their values.
pub proof fn names_decide_before_values(
    a: (Seq<char>, Seq<char>),
    b: (Seq<char>, Seq<char>),
    p: int,
)
    requires
        0 <= p <= a.0.len(),
        p < b.0.len(),
        forall|k: int| 0 <= k < p ==> a.0[k] == b.0[k],
        p == a.0.len() || (a.0[p] as u32) < (b.0[p] as u32),
    ensures
        crate::order::key_less(pair_key(a), pair_key(b)),
{
    let x = pair_key(a);
    let y = pair_key(b);
    assert forall|k: int| 0 <= k < p implies x[k] == y[k] by {
        assert(x[k] == shifted_key(a.0)[k] && y[k] == shifted_key(b.0)[k]);
    }
    assert(y[p] == shifted_key(b.0)[p]);
    lemma_shift(b.0[p]);
    if p == a.0.len() {
        assert(x[p] == 0);
    } else {
        assert(x[p] == shifted_key(a.0)[p]);
        lemma_shift(a.0[p]);
    }
    crate::order::keys_compare_at_their_first_difference(x, y, p);
}

proof fn lemma_shift(c: char)
    ensures
        (c as u32 + 1) as u64 == c as u32 + 1,
{
}

/// An address that may be fetched is read anew without its fragment, without the port
/// that its scheme implies, and with what is left of its query, if anything.
pub proof fn addresses_lose_what_does_not_matter(url: WebUrl)
    requires
        shape_is_valid(url),
    ensures
        ({
            let plain = url_without_fragment(url.text@);
            let implied = url.scheme@ == "http"@ && url.port == Some(80u16) || url.scheme@
                == "https"@ && url.port == Some(443u16);
            let portless = if implied {
                url_without_port(plain)
            } else {
                plain
            };
            let left = sorted_pairs(meaningful_pairs(url_query_pairs(portless)));
            &&& left.len() == 0 ==> normalized(url) == parsed_url(url_without_query(portless))
            &&& left.len() > 0 ==> normalized(url) == parsed_url(
                url_with_pairs(url_without_query(portless), left),
            )
        }),
{
}

/// The canonical address of one that is not of the web is the address itself.
pub proof fn other_addresses_stay(url: WebUrl)
    ensures
        url.scheme@ != "http"@ && url.scheme@ != "https"@ ==> normalized_url_text(url) == url.text@,
        url.host is None || url.has_password || url.username@.len() > 0 ==> normalized_url_text(url)
            == url.text@,
{
}

proof fn lemma_second_level(s: Seq<char>)
    ensures
        is_one_of(s, second_level_labels()) <==> s == "co"@
            || s == "com"@
            || s == "gov"@
            || s == "org"@
            || s == "net"@
            || s == "ac"@,
{
    let terms = second_level_labels();
    assert(terms.len() == 6);
    assert(terms[0] == "co");
    assert(terms[1] == "com");
    assert(terms[2] == "gov");
    assert(terms[3] == "org");
    assert(terms[4] == "net");
    assert(terms[5] == "ac");
    if is_one_of(s, terms) {
        let i = choose|i: int| 0 <= i < terms.len() && (#[trigger] terms[i])@ == s;
        assert(i == 0 || i == 1 || i == 2 || i == 3 || i == 4 || i == 5);
    }
}

/// The publisher of a host is its last two labels, and the last three where a country's
/// domain has one of these below it; a bare name is itself.
pub proof fn publishers_are_registered_names(host: Seq<char>)
    ensures
        ({
            let labels = split(host, '.');
            let n = labels.len() as int;
            let below = n >= 3 && labels[n - 1].len() == 2 && (labels[n - 2] == "co"@ || labels[n - 2] == "com"@ || labels[n - 2] == "gov"@ || labels[n - 2] == "org"@ || labels[n - 2] == "net"@ || labels[n - 2] == "ac"@);
            &&& below ==> registrable(host) == labels[n - 3] + "."@ + labels[n - 2] + "."@ + labels[n
                - 1]
            &&& !below && n >= 2 ==> registrable(host) == labels[n - 2] + "."@ + labels[n - 1]
            &&& n < 2 ==> registrable(host) == host
        }),
{
    let labels = split(host, '.');
    let n = labels.len() as int;
    if n >= 3 {
        lemma_second_level(labels[n - 2]);
    }
    if n >= 2 {
        let two = labels.skip(n - 2);
        assert(two =~= seq![labels[n - 2], labels[n - 1]]);
        assert(two.drop_last() =~= seq![labels[n - 2]]);
        assert(join(two, "."@) == join(two.drop_last(), "."@) + "."@ + two.last());
    }
    if n >= 3 {
        let three = labels.skip(n - 3);
        assert(three =~= seq![labels[n - 3], labels[n - 2], labels[n - 1]]);
        let front = three.drop_last();
        assert(front =~= seq![labels[n - 3], labels[n - 2]]);
        assert(front.drop_last() =~= seq![labels[n - 3]]);
        assert(join(front, "."@) == join(front.drop_last(), "."@) + "."@ + front.last());
        assert(join(three, "."@) == join(front, "."@) + "."@ + three.last());
    }
}

/// A host is compared without its leading `www.` and without regard to case, and an
/// address without a host has no known publisher.
pub proof fn hosts_are_compared_bare(url: WebUrl)
    ensures
        url.host matches Some(host) ==> (!"www."@.is_prefix_of(host@) ==> bare_host(url)
            == ascii_lowercase(host@)),
        url.host is Some && crate::types::valid_id(registrable(bare_host(url)))
            ==> source_identity(url) == registrable(bare_host(url)),
        forall|rest: Seq<char>|
            url.host is Some && url.host->0@ == #[trigger] ("www."@ + rest)
                && !"www."@.is_prefix_of(rest) ==> bare_host(url) == ascii_lowercase(rest),
{
    reveal_strlit("www.");
    assert("www."@.len() > 0);
    crate::text_laws::prefixes_are_taken_off(host_text(url), "www."@);
    assert forall|rest: Seq<char>|
        url.host is Some && url.host->0@ == #[trigger] ("www."@ + rest) && !"www."@.is_prefix_of(
            rest,
        ) implies bare_host(url) == ascii_lowercase(rest) by {
        crate::text_laws::prefixes_are_taken_off(rest, "www."@);
    }
}

/// The names of candidates, evidence and passages begin with what they name, go on with
/// the digest of the address, and for a passage end with its rank.
pub proof fn names_say_what_they_name(url: Seq<char>, rank: nat)
    ensures
        candidate_name(url) == "web-candidate-"@ + short_digest(url),
        evidence_name(url) == "web-evidence-"@ + short_digest(url),
        passage_name(url, rank) == "web-passage-"@ + short_digest(url) + "-"@ + decimal(rank),
        candidate_name(url) != evidence_name(url),
{
    reveal_strlit("web-candidate-");
    reveal_strlit("web-evidence-");
    assert(candidate_name(url)[4] == 'c');
    assert(evidence_name(url)[4] == 'e');
}

/// The two languages of the encyclopedia: Slovak where it is asked for, else English.
pub proof fn searches_are_in_two_languages(lang: Seq<char>, query: Seq<char>)
    ensures
        lang == "sk"@ ==> search_language(lang) == "sk"@,
        lang != "sk"@ ==> search_language(lang) == "en"@,
        wikipedia_query(query, lang) == url_with_pairs(
            "https://"@ + lang + ".wikipedia.org"@ + "/w/rest.php/v1/search/page"@,
            seq![("q"@, query), ("limit"@, "2"@)],
        ),
        crate::search::duckduckgo_query(query) == url_with_pairs(
            "https://lite.duckduckgo.com/lite/"@,
            seq![("q"@, query)],
        ),
{
}

proof fn lemma_challenge(s: Seq<char>)
    ensures
        contains_any(s, challenge_terms()) <==> contains(s, "anomaly-modal"@)
            || contains(s, "bots use duckduckgo"@)
            || contains(s, "captcha"@),
{
    let terms = challenge_terms();
    assert(terms.len() == 3);
    assert(terms[0] == "anomaly-modal");
    assert(terms[1] == "bots use duckduckgo");
    assert(terms[2] == "captcha");
    if contains_any(s, terms) {
        let i = choose|i: int| 0 <= i < terms.len() && contains(s, (#[trigger] terms[i])@);
        assert(i == 0 || i == 1 || i == 2);
    }
}

proof fn lemma_no_result(s: Seq<char>)
    ensures
        contains_any(s, no_result_terms()) <==> contains(s, "no more results"@)
            || contains(s, "no results"@)
            || contains(s, "result--no-result"@),
{
    let terms = no_result_terms();
    assert(terms.len() == 3);
    assert(terms[0] == "no more results");
    assert(terms[1] == "no results");
    assert(terms[2] == "result--no-result");
    if contains_any(s, terms) {
        let i = choose|i: int| 0 <= i < terms.len() && contains(s, (#[trigger] terms[i])@);
        assert(i == 0 || i == 1 || i == 2);
    }
}

/// A result page that asks whether a person is searching is taken for a challenge,
/// whatever else it holds; one without results counts only where it says that there are
/// none.
pub proof fn result_pages_are_known_by_these_words(outcome: ProviderSearch, body: Seq<char>)
    requires
        reads_result_page(outcome, body),
    ensures
        ({
            let page = ascii_lowercase(body);
            let challenged = contains(page, "anomaly-modal"@) || contains(page, "bots use duckduckgo"@) || contains(page, "captcha"@);
            let none = contains(page, "no more results"@) || contains(page, "no results"@) || contains(page, "result--no-result"@);
            &&& challenged <==> outcome is Challenged
            &&& outcome matches ProviderSearch::Candidates(found) ==> (found@.len() == 0 ==> none)
            &&& !challenged && none ==> outcome is Candidates
            &&& outcome is Candidates || outcome is Challenged || outcome is InvalidResponse
            &&& outcome matches ProviderSearch::Candidates(found) ==> found@.len() <= 6
        }),
{
    let page = ascii_lowercase(body);
    lemma_challenge(page);
    lemma_no_result(page);
    let results = crate::html::results_from(body, 0, 6);
    crate::page_laws::results_have_title_and_address(body, 0, 6);
    lemma_listed(results, results.len() as int);
    if outcome is Candidates {
        let found = outcome->Candidates_0;
        assert(raw_models(found@).len() == found@.len());
    }
}

proof fn lemma_listed(results: Seq<crate::html::ResultModel>, n: int)
    requires
        0 <= n <= results.len(),
    ensures
        listed_candidates(results, n).len() <= n,
    decreases n,
{
    if n > 0 {
        lemma_listed(results, n - 1);
    }
}

/// A listed result becomes a candidate with its title, its snippet, the address it names
/// and its place as its rank.
pub proof fn listed_results_become_candidates(
    results: Seq<crate::html::ResultModel>,
    n: int,
    k: int,
)
    requires
        0 <= n <= results.len(),
        0 <= k < listed_candidates(results, n).len(),
        n <= 65535,
    ensures
        ({
            let found = listed_candidates(results, n)[k];
            exists|i: int|
                0 <= i < n && found.title == (#[trigger] results[i]).title && found.snippet
                    == results[i].snippet && parsed_url(results[i].url) == Some(found.url)
                    && found.rank == i + 1
        }),
    decreases n,
{
    if n > 0 {
        let before = listed_candidates(results, n - 1);
        if k < before.len() {
            listed_results_become_candidates(results, n - 1, k);
        } else {
            assert(results[n - 1].title == listed_candidates(results, n)[k].title);
        }
    }
}

/// The pages of the encyclopedia become candidates with their title, their description
/// and excerpt, and their place as their rank, two at most.
pub proof fn encyclopedia_pages_become_candidates(
    outcome: ProviderSearch,
    value: Option<Json>,
    lang: Seq<char>,
)
    requires
        reads_wikipedia(outcome, value, lang),
    ensures
        value is None ==> outcome is InvalidResponse,
        outcome matches ProviderSearch::Candidates(found) ==> found@.len() <= 2,
        outcome is Candidates || outcome is InvalidResponse,
        value matches Some(answer) ==> (lookup(answer, "pages"@) is None ==> outcome
            is InvalidResponse),
{
    if value is Some {
        match lookup(value->0, "pages"@) {
            Some(Json::Array(pages)) => {
                let n = at_most(pages@.len() as int, 2);
                lemma_wikipedia_count(pages@, n, lang);
                if outcome is Candidates {
                    let found = outcome->Candidates_0;
                    assert(raw_models(found@).len() == found@.len());
                }
            },
            _ => {},
        }
    }
}

proof fn lemma_wikipedia_count(pages: Seq<Json>, n: int, lang: Seq<char>)
    requires
        0 <= n,
    ensures
        wikipedia_candidates(pages, n, lang).len() <= n,
    decreases n,
{
    if n > 0 {
        lemma_wikipedia_count(pages, n - 1, lang);
    }
}

/// A candidate of the encyclopedia is what its page says, and one of the paid provider
/// what its result says; neither is made of one without a title.
pub proof fn search_answers_become_candidates(page: Json, rank: u16, lang: Seq<char>)
    ensures
        wikipedia_candidate(page, rank, lang) matches Some(found) ==> {
            &&& found.rank == rank
            &&& found.title == crate::json::text_or_empty(page, "title"@)
            &&& trim(found.title).len() > 0
            &&& found.snippet == trim(
                crate::json::text_or_empty(page, "description"@) + " "@ + crate::html::visible_text(
                    crate::json::text_or_empty(page, "excerpt"@),
                ),
            )
        },
        trim(crate::json::text_or_empty(page, "title"@)).len() == 0 ==> wikipedia_candidate(
            page,
            rank,
            lang,
        ) is None,
        tavily_candidate(page, rank) matches Some(found) ==> {
            &&& found.rank == rank
            &&& crate::json::text_field(page, "title"@) matches Some(title) && found.title == trim(
                title,
            )
            &&& found.title.len() > 0
            &&& crate::json::text_field(page, "url"@) matches Some(address) && parsed_url(address)
                == Some(found.url)
            &&& found.snippet == crate::json::text_or_empty(page, "content"@)
        },
        crate::json::text_field(page, "title"@) is None || crate::json::text_field(page, "url"@)
            is None ==> tavily_candidate(page, rank) is None,
{
}

/// The paid provider gives six candidates at most, and an answer without results is not
/// one.
pub proof fn paid_answers_are_bounded(outcome: ProviderSearch, value: Option<Json>)
    requires
        reads_tavily(outcome, value),
    ensures
        value is None ==> outcome is InvalidResponse,
        outcome matches ProviderSearch::Candidates(found) ==> found@.len() <= 6,
        value matches Some(answer) ==> (lookup(answer, "results"@) is None ==> outcome
            is InvalidResponse),
{
    if value is Some {
        match lookup(value->0, "results"@) {
            Some(Json::Array(results)) => {
                let n = at_most(results@.len() as int, 6);
                lemma_tavily_count(results@, n);
                if outcome is Candidates {
                    let found = outcome->Candidates_0;
                    assert(raw_models(found@).len() == found@.len());
                }
            },
            _ => {},
        }
    }
}

proof fn lemma_tavily_count(results: Seq<Json>, n: int)
    requires
        0 <= n,
    ensures
        tavily_candidates(results, n).len() <= n,
    decreases n,
{
    if n > 0 {
        lemma_tavily_count(results, n - 1);
    }
}

/// A request to the paid provider asks the question, at basic depth, for six results and
/// for nothing that it would write itself.
pub proof fn paid_requests_ask_for_results_alone(value: Json, query: Seq<char>)
    requires
        is_tavily_request(value, query),
    ensures
        lookup(value, "query"@) matches Some(Json::Text(text)) && text@ == query,
        lookup(value, "search_depth"@) matches Some(Json::Text(text)) && text@ == "basic"@,
        lookup(value, "max_results"@) matches Some(Json::Number { unsigned, .. }) && unsigned
            == Some(6u64),
        lookup(value, "include_answer"@) == Some(Json::Bool(false)),
        lookup(value, "include_raw_content"@) == Some(Json::Bool(false)),
        lookup(value, "include_images"@) == Some(Json::Bool(false)),
{
    reveal_strlit("query");
    reveal_strlit("search_depth");
    reveal_strlit("max_results");
    reveal_strlit("include_answer");
    reveal_strlit("include_raw_content");
    reveal_strlit("include_images");
    assert("query"@[0] == 'q' && "search_depth"@[0] == 's' && "max_results"@[0] == 'm');
    assert("include_answer"@.len() == 14 && "include_raw_content"@.len() == 19
        && "include_images"@.len() == 14);
    assert("include_answer"@[8] == 'a' && "include_images"@[8] == 'i' && "include_answer"@[0]
        == 'i');
    assert("include_raw_content"@[0] == 'i' && "include_images"@[0] == 'i');
    reveal_with_fuel(crate::json::field_index, 8);
}

/// Without a credential nothing is asked of the paid provider; with one it is asked with
/// that credential.
pub proof fn the_paid_provider_needs_a_credential(api_key: Option<Seq<char>>)
    ensures
        api_key is None ==> tavily_gate(api_key, None) == Err::<Seq<char>, ProviderSearch>(
            ProviderSearch::Failed(FailureCode::ConnectorUnavailable),
        ),
        api_key matches Some(key) ==> (trim(key).len() == 0 ==> tavily_gate(api_key, None)
            == Err::<Seq<char>, ProviderSearch>(
            ProviderSearch::Failed(FailureCode::ConnectorUnavailable),
        )),
        api_key matches Some(key) ==> (trim(key).len() > 0 ==> tavily_gate(api_key, None) == Ok::<
            Seq<char>,
            ProviderSearch,
        >(key)),
        tavily_gate(api_key, Some(TavilyAcceptanceFault::Http429)) == Err::<
            Seq<char>,
            ProviderSearch,
        >(ProviderSearch::Failed(FailureCode::RateLimited)),
        tavily_gate(api_key, Some(TavilyAcceptanceFault::Timeout)) == Err::<
            Seq<char>,
            ProviderSearch,
        >(ProviderSearch::TimedOut),
        tavily_gate(api_key, Some(TavilyAcceptanceFault::MalformedResponse)) == Err::<
            Seq<char>,
            ProviderSearch,
        >(ProviderSearch::InvalidResponse),
        tavily_gate(api_key, Some(TavilyAcceptanceFault::MissingCredential)) == Err::<
            Seq<char>,
            ProviderSearch,
        >(ProviderSearch::Failed(FailureCode::ConnectorUnavailable)),
{
}

/// What a provider answered is what is reported of it: the number of its candidates that
/// may be fetched, nothing found, or the failure.
pub proof fn answers_are_reported_as_they_were(outcome: ProviderSearch)
    ensures
        outcome is Challenged <==> provider_status(outcome) is Challenged,
        outcome is TimedOut <==> provider_status(outcome) is TimedOut,
        outcome matches ProviderSearch::Failed(failure) ==> provider_status(outcome)
            == ProviderStatus::Failed(failure),
        outcome is InvalidResponse ==> provider_status(outcome) is InvalidResponse,
        outcome matches ProviderSearch::Candidates(found) ==> (found@.len() == 0
            <==> provider_status(outcome) is Empty),
        outcome matches ProviderSearch::Candidates(found) ==> (provider_status(outcome) matches
            ProviderStatus::Succeeded { result_count } ==> found@.filter(
            |c: RawCandidate| candidate_url_valid(c.url),
        ).len() > 0 && (found@.len() <= 65535 ==> result_count == found@.filter(
            |c: RawCandidate| candidate_url_valid(c.url),
        ).len())),
        outcome matches ProviderSearch::Candidates(found) ==> usable(outcome) == found@.filter(
            |c: RawCandidate| candidate_url_valid(c.url),
        ),
        !(outcome is Candidates) ==> usable(outcome).len() == 0,
{
    match outcome {
        ProviderSearch::Candidates(found) => {
            lemma_fetchable(found@);
            found@.lemma_filter_len(|c: RawCandidate| candidate_url_valid(c.url));
        },
        _ => {},
    }
}

proof fn lemma_fetchable(list: Seq<RawCandidate>)
    ensures
        fetchable(list) == list.filter(|c: RawCandidate| candidate_url_valid(c.url)),
    decreases list.len(),
{
    reveal(Seq::filter);
    if list.len() > 0 {
        lemma_fetchable(list.drop_last());
    }
}

/// A raw candidate becomes one with the same rank, title, address and snippet, under the
/// provider that gave it.
pub proof fn candidates_keep_what_was_found(
    raw: RawCandidate,
    provider: WebProvider,
    candidate: WebCandidate,
)
    requires
        becomes(raw, provider, candidate),
    ensures
        candidate.provider == provider,
        candidate.rank == raw.rank,
        candidate.title@ == raw.title@,
        candidate.requested_url == raw.url,
        candidate.snippet@ == raw.snippet@,
        candidate.candidate_id@ == "web-candidate-"@ + short_digest(normalized_url_text(raw.url)),
{
}

/// A provider is asked again once, where it timed out or failed for the moment, and a
/// paid one never; else the next one is asked, or the search ends.
pub proof fn providers_are_asked_again_once(
    state: SearchState,
    outcome: ProviderSearch,
    elapsed_ms: u64,
    step: SearchStep,
)
    requires
        state.well_formed(),
        search_follows(state, outcome, elapsed_ms, step),
    ensures
        ({
            let provider = state.providers.0@[state.asked as int];
            &&& step matches SearchStep::Ask(next) ==> next.attempts == state.attempts + 1
                && next.query == state.query && next.providers == state.providers
            &&& state.attempts == 2 ==> step is Finished
            &&& state.attempts == 1 && outcome is TimedOut && provider != WebProvider::Tavily ==> (
            step matches SearchStep::Ask(next) && next.asked == state.asked && next.reported
                == state.reported && next.found == state.found)
            &&& outcome is Candidates && step is Ask ==> step->Ask_0.asked == state.asked + 1
                && step->Ask_0.reported@.len() == state.reported@.len() + 1
                && step->Ask_0.reported@.last().provider == provider
                && step->Ask_0.found@.len() == state.found@.len() + usable(outcome).len()
            &&& step matches SearchStep::Finished(result) ==> result.attempts == state.attempts
                && result.execution is Succeeded
        }),
{
}

/// A search that found nothing is empty; one that found something is satisfied where
/// every provider succeeded, and partial else.
pub proof fn searches_contribute_what_they_found(
    candidates: Seq<WebCandidate>,
    reported: Seq<ProviderResult>,
)
    ensures
        candidates.len() == 0 <==> search_contribution(candidates, reported) is Empty,
        candidates.len() > 0 && (forall|i: int|
            0 <= i < reported.len() ==> (#[trigger] reported[i]).status is Succeeded)
            ==> search_contribution(candidates, reported) is Satisfied,
        candidates.len() > 0 && (exists|i: int|
            0 <= i < reported.len() && !((#[trigger] reported[i]).status is Succeeded))
            ==> search_contribution(candidates, reported) is Partial,
{
}

/// A failure of the connector is taken for a timeout, an unreadable answer for an invalid
/// one, and any other failure for what it is.
pub proof fn failed_searches_say_why(failure: FailureCode)
    ensures
        failure is ConnectorUnavailable <==> failed_search(failure) is TimedOut,
        failure is ParseFailure <==> failed_search(failure) is InvalidResponse,
        !(failure is ConnectorUnavailable) && !(failure is ParseFailure) ==> failed_search(failure)
            == ProviderSearch::Failed(failure),
{
}

/// A front of bytes has at most so many of them, and all where there are no more.
pub proof fn fronts_of_bytes_are_bounded(bytes: Seq<u8>, n: nat)
    ensures
        first_bytes(bytes, n as int).is_prefix_of(bytes),
        bytes.len() <= n ==> first_bytes(bytes, n as int) == bytes,
        bytes.len() >= n ==> first_bytes(bytes, n as int).len() == n,
{
}

} // verus!
