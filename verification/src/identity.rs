//! Stable names: of candidates, evidence and passages by their address, and of
//! publishers by the registrable part of their host.

use crate::text::{
    all_graphic, all_hex, ascii_lowercase, chars_of, decimal, decimal_of, drop_prefix, hex,
    hex_is_hexadecimal, hex_of, is_one_of, join, join_chars, lemma_decimal_graphic, lemma_graphic_concat, lemma_hex_graphic,
    lower_ascii, one_of, push_all, push_text, sha256, sha256_digest, split, split_of, string_of,
    texts, without_prefix,
};
use crate::types::{
    lemma_trim_keeps, valid_id, CandidateId, EvidenceId, SourceIdentity, WebCandidate,
};
use crate::weburl::{
    host_text, normalized_url_string, normalized_url_text, WebUrl,
};
use vstd::prelude::*;

verus! {

/// The first eight bytes of the SHA-256 digest of a text, in hexadecimal.
pub open spec fn short_digest(value: Seq<char>) -> Seq<char> {
    hex(sha256(vstd::utf8::encode_utf8(value)).take(8))
}

pub open spec fn first_bytes(bytes: Seq<u8>, n: int) -> Seq<u8> {
    if bytes.len() <= n {
        bytes
    } else {
        bytes.take(n)
    }
}

/// The hexadecimal rendering of the first bytes.
pub fn hex_prefix(bytes: &[u8], count: usize) -> (r: String)
    ensures
        r@ == hex(first_bytes(bytes@, count as int)),
{
    let mut head: Vec<u8> = Vec::new();
    let mut i: usize = 0;
    while i < bytes.len() && i < count
        invariant
            i <= bytes@.len(),
            i <= count,
            head@ == bytes@.take(i as int),
        decreases bytes@.len() - i,
    {
        head.push(bytes[i]);
        proof {
            assert(bytes@.take(i as int + 1) =~= bytes@.take(i as int).push(bytes@[i as int]));
        }
        i = i + 1;
    }
    proof {
        if bytes@.len() <= count {
            assert(bytes@.take(bytes@.len() as int) =~= bytes@);
        }
    }
    let text = hex_of(&head);
    string_of(&text)
}

pub fn short_hash(value: &str) -> (r: String)
    ensures
        r@ == short_digest(value@),
        r@.len() == 16,
        all_hex(r@),
{
    let digest = sha256_digest(value.as_bytes());
    proof {
        hex_is_hexadecimal(first_bytes(digest@, 8));
    }
    hex_prefix(digest.as_slice(), 8)
}

/// A printable text is a valid name.
pub proof fn lemma_graphic_is_valid(s: Seq<char>)
    requires
        all_graphic(s),
        s.len() > 0,
    ensures
        valid_id(s),
{
    assert(33 <= s[0] as u32 <= 126);
    lemma_trim_keeps(s, 0);
}

pub open spec fn candidate_name(url: Seq<char>) -> Seq<char> {
    "web-candidate-"@ + short_digest(url)
}

pub open spec fn evidence_name(url: Seq<char>) -> Seq<char> {
    "web-evidence-"@ + short_digest(url)
}

pub open spec fn passage_name(url: Seq<char>, rank: nat) -> Seq<char> {
    "web-passage-"@ + short_digest(url) + "-"@ + decimal(rank)
}

proof fn lemma_literals_graphic()
    ensures
        all_graphic("web-candidate-"@),
        all_graphic("web-evidence-"@),
        all_graphic("web-passage-"@),
        all_graphic("-"@),
        all_graphic("unknown"@),
        "unknown"@.len() == 7,
{
    reveal_strlit("web-candidate-");
    reveal_strlit("web-evidence-");
    reveal_strlit("web-passage-");
    reveal_strlit("-");
    reveal_strlit("unknown");
    assert("web-candidate-"@ =~= seq![
        'w', 'e', 'b', '-', 'c', 'a', 'n', 'd', 'i', 'd', 'a', 't', 'e', '-',
    ]);
    assert("web-evidence-"@ =~= seq![
        'w', 'e', 'b', '-', 'e', 'v', 'i', 'd', 'e', 'n', 'c', 'e', '-',
    ]);
    assert("web-passage-"@ =~= seq!['w', 'e', 'b', '-', 'p', 'a', 's', 's', 'a', 'g', 'e', '-']);
    assert("-"@ =~= seq!['-']);
    assert("unknown"@ =~= seq!['u', 'n', 'k', 'n', 'o', 'w', 'n']);
}

proof fn lemma_names_valid(url: Seq<char>, rank: nat)
    ensures
        valid_id(candidate_name(url)),
        valid_id(evidence_name(url)),
        valid_id(passage_name(url, rank)),
        valid_id("unknown"@),
{
    lemma_literals_graphic();
    reveal_strlit("web-candidate-");
    reveal_strlit("web-evidence-");
    reveal_strlit("web-passage-");
    let digest = sha256(vstd::utf8::encode_utf8(url)).take(8);
    lemma_hex_graphic(digest);
    lemma_decimal_graphic(rank);
    lemma_graphic_concat("web-candidate-"@, hex(digest));
    lemma_graphic_concat("web-evidence-"@, hex(digest));
    lemma_graphic_concat("web-passage-"@, hex(digest));
    lemma_graphic_concat("web-passage-"@ + hex(digest), "-"@);
    lemma_graphic_concat("web-passage-"@ + hex(digest) + "-"@, decimal(rank));
    lemma_graphic_is_valid(candidate_name(url));
    lemma_graphic_is_valid(evidence_name(url));
    lemma_graphic_is_valid(passage_name(url, rank));
    lemma_graphic_is_valid("unknown"@);
}

/// The name of the candidate with an address given as text.
pub fn candidate_id_for_url_text(url: &str) -> (r: CandidateId)
    ensures
        r@ == candidate_name(url@),
{
    let mut out: Vec<char> = Vec::new();
    push_text(&mut out, "web-candidate-");
    let digest = short_hash(url);
    push_text(&mut out, digest.as_str());
    let name = string_of(&out);
    proof {
        assert(name@ =~= candidate_name(url@));
        lemma_names_valid(url@, 0);
    }
    CandidateId::from_valid(name)
}

/// The name of the candidate with an address, up to the canonical form of it.
pub fn candidate_id_for_url(url: &WebUrl) -> (r: CandidateId)
    ensures
        r@ == candidate_name(normalized_url_text(*url)),
{
    let text = normalized_url_string(url);
    candidate_id_for_url_text(text.as_str())
}

pub fn evidence_id_for_url(url: &WebUrl) -> (r: EvidenceId)
    ensures
        r@ == evidence_name(normalized_url_text(*url)),
{
    let text = normalized_url_string(url);
    let mut out: Vec<char> = Vec::new();
    push_text(&mut out, "web-evidence-");
    let digest = short_hash(text.as_str());
    push_text(&mut out, digest.as_str());
    let name = string_of(&out);
    proof {
        assert(name@ =~= evidence_name(text@));
        lemma_names_valid(text@, 0);
    }
    EvidenceId::from_valid(name)
}

pub fn passage_id_for_url(url: &WebUrl, rank: usize) -> (r: EvidenceId)
    ensures
        r@ == passage_name(normalized_url_text(*url), rank as nat),
{
    let text = normalized_url_string(url);
    let mut out: Vec<char> = Vec::new();
    push_text(&mut out, "web-passage-");
    let digest = short_hash(text.as_str());
    push_text(&mut out, digest.as_str());
    push_text(&mut out, "-");
    push_all(&mut out, &decimal_of(rank as u64));
    let name = string_of(&out);
    proof {
        assert(name@ =~= passage_name(text@, rank as nat));
        lemma_names_valid(text@, rank as nat);
    }
    EvidenceId::from_valid(name)
}

/// The host without leading `www.`, in lower case; empty without a host.
pub open spec fn bare_host(url: WebUrl) -> Seq<char> {
    ascii_lowercase(without_prefix(host_text(url), "www."@))
}

pub fn bare_host_chars(url: &WebUrl) -> (r: Vec<char>)
    ensures
        r@ == bare_host(*url),
{
    let host = crate::weburl::host_chars(url);
    let bare = drop_prefix(&host, "www.");
    lower_ascii(&bare)
}

/// Second-level labels under which countries register names.
pub open spec fn second_level_labels() -> Seq<&'static str> {
    seq!["co", "com", "gov", "org", "net", "ac"]
}

/// The last `n` labels of a host.
pub open spec fn last_labels(labels: Seq<Seq<char>>, n: int) -> Seq<char> {
    join(labels.skip(labels.len() - n), "."@)
}

/// The registrable part of a host: its last two labels, or three below a
/// country's second level.
pub open spec fn registrable(host: Seq<char>) -> Seq<char> {
    let labels = split(host, '.');
    let n = labels.len() as int;
    if n >= 3 && is_one_of(labels[n - 2], second_level_labels()) && labels[n - 1].len() == 2 {
        last_labels(labels, 3)
    } else if n >= 2 {
        last_labels(labels, 2)
    } else {
        host
    }
}

pub open spec fn identity_text(url: WebUrl) -> Seq<char> {
    registrable(
        if url.host is Some {
            bare_host(url)
        } else {
            "unknown"@
        },
    )
}

/// The publisher of an address. A host of which nothing is left names no
/// publisher.
pub open spec fn source_identity(url: WebUrl) -> Seq<char> {
    if valid_id(identity_text(url)) {
        identity_text(url)
    } else {
        "unknown"@
    }
}

fn join_last(labels: &Vec<Vec<char>>, n: usize) -> (r: Vec<char>)
    requires
        n <= labels@.len(),
    ensures
        r@ == last_labels(texts(labels@), n as int),
{
    let start: usize = labels.len() - n;
    let mut tail: Vec<Vec<char>> = Vec::new();
    let mut i: usize = start;
    while i < labels.len()
        invariant
            start <= i <= labels@.len(),
            tail@.len() == i - start,
            forall|k: int| 0 <= k < tail@.len() ==> (#[trigger] tail@[k])@ == labels@[start + k]@,
        decreases labels@.len() - i,
    {
        tail.push(crate::text::copy_chars(&labels[i]));
        i = i + 1;
    }
    proof {
        assert(texts(tail@) =~= texts(labels@).skip(texts(labels@).len() - n));
    }
    join_chars(&tail, ".")
}

fn registrable_of(host: &Vec<char>) -> (r: Vec<char>)
    ensures
        r@ == registrable(host@),
{
    let labels = split_of(host, '.');
    let n: usize = labels.len();
    proof {
        assert(texts(labels@).len() == n);
    }
    if n >= 3 {
        let second = ["co", "com", "gov", "org", "net", "ac"];
        proof {
            assert(second@ =~= second_level_labels());
            assert(texts(labels@)[n - 2] == labels@[n - 2]@);
            assert(texts(labels@)[n - 1] == labels@[n - 1]@);
        }
        if one_of(&labels[n - 2], &second) && labels[n - 1].len() == 2 {
            return join_last(&labels, 3);
        }
    }
    if n >= 2 {
        return join_last(&labels, 2);
    }
    crate::text::copy_chars(host)
}

pub fn source_identity_for(url: &WebUrl) -> (r: SourceIdentity)
    ensures
        r@ == source_identity(*url),
{
    let host = if url.host.is_some() {
        bare_host_chars(url)
    } else {
        chars_of("unknown")
    };
    let chars = registrable_of(&host);
    let text = string_of(&chars);
    proof {
        lemma_names_valid(Seq::empty(), 0);
    }
    match SourceIdentity::new(text) {
        Ok(id) => id,
        Err(_) => SourceIdentity::from_valid("unknown".to_owned()),
    }
}

pub fn candidate_source_identity(candidate: &WebCandidate) -> (r: SourceIdentity)
    ensures
        r@ == source_identity(candidate.requested_url),
{
    source_identity_for(&candidate.requested_url)
}

} // verus!
