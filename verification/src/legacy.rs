//! Search results and pages as the text that a model reads: what came from the
//! web stands escaped inside a block that marks it as untrusted.

use crate::html::{escape_chars, escaped};
use crate::text::{chars_of, decimal, decimal_of, join, join_chars, push_all, push_text, string_of, texts};
use crate::types::{
    EvidencePassage, ExecutionStatus, ExtractionStatus, FailureCode, OperationResult,
    ValidatedReference, WebCandidate, WebFetchEvidence, WebSearchResult,
};
use vstd::prelude::*;

verus! {

/// The name of a failure, with the status where it has one.
pub open spec fn failure_label(failure: FailureCode) -> Seq<char> {
    match failure {
        FailureCode::InvalidInput => "InvalidInput"@,
        FailureCode::ConnectorUnavailable => "ConnectorUnavailable"@,
        FailureCode::ConnectionReset => "ConnectionReset"@,
        FailureCode::RateLimited => "RateLimited"@,
        FailureCode::Http4xx(status) => "Http4xx("@ + decimal(status as nat) + ")"@,
        FailureCode::Http5xx(status) => "Http5xx("@ + decimal(status as nat) + ")"@,
        FailureCode::UnsupportedContentType => "UnsupportedContentType"@,
        FailureCode::UnsafeDestination => "UnsafeDestination"@,
        FailureCode::RedirectUnsafe => "RedirectUnsafe"@,
        FailureCode::BodyTooLarge => "BodyTooLarge"@,
        FailureCode::EmptyExtraction => "EmptyExtraction"@,
        FailureCode::ProviderChallenge => "ProviderChallenge"@,
        FailureCode::ParseFailure => "ParseFailure"@,
        FailureCode::ModelUnavailable => "ModelUnavailable"@,
        FailureCode::ModelInvalidOutput => "ModelInvalidOutput"@,
        FailureCode::AutomationFailed => "AutomationFailed"@,
        FailureCode::OtherNormalized => "OtherNormalized"@,
    }
}

fn label_with_status(name: &str, status: u16) -> (r: Vec<char>)
    ensures
        r@ == name@ + decimal(status as nat) + ")"@,
{
    let mut out = chars_of(name);
    push_all(&mut out, &decimal_of(status as u64));
    push_text(&mut out, ")");
    out
}

fn label_of(failure: &FailureCode) -> (r: Vec<char>)
    ensures
        r@ == failure_label(*failure),
{
    match failure {
        FailureCode::InvalidInput => chars_of("InvalidInput"),
        FailureCode::ConnectorUnavailable => chars_of("ConnectorUnavailable"),
        FailureCode::ConnectionReset => chars_of("ConnectionReset"),
        FailureCode::RateLimited => chars_of("RateLimited"),
        FailureCode::Http4xx(status) => label_with_status("Http4xx(", *status),
        FailureCode::Http5xx(status) => label_with_status("Http5xx(", *status),
        FailureCode::UnsupportedContentType => chars_of("UnsupportedContentType"),
        FailureCode::UnsafeDestination => chars_of("UnsafeDestination"),
        FailureCode::RedirectUnsafe => chars_of("RedirectUnsafe"),
        FailureCode::BodyTooLarge => chars_of("BodyTooLarge"),
        FailureCode::EmptyExtraction => chars_of("EmptyExtraction"),
        FailureCode::ProviderChallenge => chars_of("ProviderChallenge"),
        FailureCode::ParseFailure => chars_of("ParseFailure"),
        FailureCode::ModelUnavailable => chars_of("ModelUnavailable"),
        FailureCode::ModelInvalidOutput => chars_of("ModelInvalidOutput"),
        FailureCode::AutomationFailed => chars_of("AutomationFailed"),
        FailureCode::OtherNormalized => chars_of("OtherNormalized"),
    }
}

/// What a model is told where nothing was found.
pub open spec fn nothing_found(query: Seq<char>) -> Seq<char> {
    "No web results for \""@ + query
        + "\". Tell the user the answer was not found online — do not guess."@
}

fn found_nothing(query: &str) -> (r: String)
    ensures
        r@ == nothing_found(query@),
{
    let mut out = chars_of("No web results for \"");
    push_text(&mut out, query);
    push_text(&mut out, "\". Tell the user the answer was not found online — do not guess.");
    string_of(&out)
}

/// A line for a candidate: its title, address and snippet.
pub open spec fn candidate_line(candidate: WebCandidate) -> Seq<char> {
    escaped(candidate.title@) + " | "@ + candidate.requested_url.text@ + " | "@ + escaped(
        candidate.snippet@,
    )
}

pub open spec fn candidate_lines(candidates: Seq<WebCandidate>) -> Seq<Seq<char>> {
    Seq::new(candidates.len(), |i: int| candidate_line(candidates[i]))
}

fn line_of(candidate: &WebCandidate) -> (r: Vec<char>)
    ensures
        r@ == candidate_line(*candidate),
{
    let mut out = escape_chars(candidate.title.as_str());
    push_text(&mut out, " | ");
    push_text(&mut out, candidate.requested_url.text.as_str());
    push_text(&mut out, " | ");
    push_all(&mut out, &escape_chars(candidate.snippet.as_str()));
    out
}

pub open spec fn search_text(result: OperationResult<WebSearchResult>, query: Seq<char>) -> Seq<
    char,
> {
    match result.value {
        None => match result.execution {
            ExecutionStatus::TimedOut => "Web search timed out."@,
            ExecutionStatus::Failed(failure) => "Web search failed: "@ + failure_label(failure),
            _ => nothing_found(query),
        },
        Some(search) => if search.candidates@.len() == 0 {
            nothing_found(query)
        } else {
            "Web discovery results (title | url | snippet):\n<untrusted source=\"web_search\">\n"@
                + join(candidate_lines(search.candidates@), "\n"@)
                + "\n</untrusted>\nSnippets are discovery data only; fetch a result before using it as evidence."@
        },
    }
}

pub fn render_legacy_search(result: &OperationResult<WebSearchResult>, query: &str) -> (r: String)
    ensures
        r@ == search_text(*result, query@),
{
    let search = match &result.value {
        Some(search) => search,
        None => match &result.execution {
            ExecutionStatus::TimedOut => {
                return "Web search timed out.".to_owned();
            },
            ExecutionStatus::Failed(failure) => {
                let mut out = chars_of("Web search failed: ");
                push_all(&mut out, &label_of(failure));
                return string_of(&out);
            },
            _ => {
                return found_nothing(query);
            },
        },
    };
    if search.candidates.len() == 0 {
        return found_nothing(query);
    }
    let mut lines: Vec<Vec<char>> = Vec::new();
    let mut i: usize = 0;
    while i < search.candidates.len()
        invariant
            i <= search.candidates@.len(),
            lines@.len() == i,
            forall|j: int|
                0 <= j < i ==> #[trigger] lines@[j]@ == candidate_line(search.candidates@[j]),
        decreases search.candidates@.len() - i,
    {
        lines.push(line_of(&search.candidates[i]));
        i = i + 1;
    }
    proof {
        assert(texts(lines@) =~= candidate_lines(search.candidates@));
    }
    let mut out = chars_of(
        "Web discovery results (title | url | snippet):\n<untrusted source=\"web_search\">\n",
    );
    push_all(&mut out, &join_chars(&lines, "\n"));
    push_text(
        &mut out,
        "\n</untrusted>\nSnippets are discovery data only; fetch a result before using it as evidence.",
    );
    string_of(&out)
}

pub open spec fn passage_texts(passages: Seq<EvidencePassage>) -> Seq<Seq<char>> {
    Seq::new(passages.len(), |i: int| escaped(passages[i].text@))
}

pub open spec fn link_line(link: ValidatedReference) -> Seq<char> {
    "\n- "@ + escaped(link.label@) + " — "@ + link.url.text@
}

pub open spec fn link_lines(links: Seq<ValidatedReference>) -> Seq<char>
    decreases links.len(),
{
    if links.len() == 0 {
        Seq::empty()
    } else {
        link_lines(links.drop_last()) + link_line(links.last())
    }
}

pub open spec fn link_block(links: Seq<ValidatedReference>) -> Seq<char> {
    if links.len() == 0 {
        Seq::empty()
    } else {
        "\n\nValidated links — web_fetch a promising relevant reference before using it:"@
            + link_lines(links)
    }
}

pub open spec fn truncation_note(extraction: ExtractionStatus) -> Seq<char> {
    if extraction is ReadableTruncated {
        " [truncated]"@
    } else {
        ""@
    }
}

/// A page as a model reads it.
pub open spec fn page_text(fetch: WebFetchEvidence) -> Seq<char> {
    match fetch.extraction {
        ExtractionStatus::Unsupported =>
            "<untrusted source=\"web_fetch\">\nUnsupported content type: "@ + escaped(
            fetch.content_type@,
        ) + "\n</untrusted>"@,
        ExtractionStatus::Empty => "<untrusted source=\"web_fetch\">\nSource: "@
            + fetch.final_url.text@ + "\n(No readable text found on the page.)\n</untrusted>"@,
        _ => "<untrusted source=\"web_fetch\">\nSource: "@ + fetch.final_url.text@ + "\n"@ + join(
            passage_texts(fetch.passages@),
            "\n\n"@,
        ) + truncation_note(fetch.extraction) + link_block(fetch.links@) + "\n</untrusted>"@,
    }
}

pub open spec fn fetch_text(result: OperationResult<WebFetchEvidence>) -> Seq<char> {
    match result.execution {
        ExecutionStatus::TimedOut => "Fetch failed: timed out"@,
        ExecutionStatus::Failed(FailureCode::UnsafeDestination)
        | ExecutionStatus::Failed(FailureCode::RedirectUnsafe) =>
            "Fetching local/private addresses is not allowed."@,
        _ => match result.value {
            None => match result.execution {
                ExecutionStatus::Failed(failure) => "Fetch failed: "@ + failure_label(failure),
                _ => "Fetch failed."@,
            },
            Some(fetch) => match result.execution {
                ExecutionStatus::Failed(FailureCode::Http4xx(status))
                | ExecutionStatus::Failed(FailureCode::Http5xx(status)) => "Fetch failed: HTTP "@
                    + decimal(status as nat),
                ExecutionStatus::Failed(FailureCode::RateLimited) => "Fetch failed: HTTP 429"@,
                ExecutionStatus::Failed(FailureCode::UnsupportedContentType)
                | ExecutionStatus::Failed(FailureCode::EmptyExtraction)
                | ExecutionStatus::Succeeded => page_text(fetch),
                ExecutionStatus::Failed(failure) => "Fetch failed: "@ + failure_label(failure),
                _ => "Fetch denied."@,
            },
        },
    }
}

fn labelled_failure(failure: &FailureCode) -> (r: String)
    ensures
        r@ == "Fetch failed: "@ + failure_label(*failure),
{
    let mut out = chars_of("Fetch failed: ");
    push_all(&mut out, &label_of(failure));
    string_of(&out)
}

fn push_links(out: &mut Vec<char>, links: &Vec<ValidatedReference>)
    ensures
        final(out)@ == old(out)@ + link_block(links@),
{
    let ghost before = out@;
    if links.len() == 0 {
        proof {
            assert(out@ =~= before + link_block(links@));
        }
        return;
    }
    push_text(
        out,
        "\n\nValidated links — web_fetch a promising relevant reference before using it:",
    );
    let ghost head = out@;
    let mut i: usize = 0;
    proof {
        assert(links@.take(0) =~= Seq::empty());
        assert(out@ =~= head + link_lines(links@.take(0)));
    }
    while i < links.len()
        invariant
            i <= links@.len(),
            out@ == head + link_lines(links@.take(i as int)),
        decreases links@.len() - i,
    {
        let ghost next = links@.take(i + 1);
        let ghost held = out@;
        proof {
            assert(next.drop_last() =~= links@.take(i as int));
            assert(next.last() == links@[i as int]);
        }
        push_text(out, "\n- ");
        push_all(out, &escape_chars(links[i].label.as_str()));
        push_text(out, " — ");
        push_text(out, links[i].url.text.as_str());
        proof {
            assert(out@ =~= held + link_line(links@[i as int]));
            assert(out@ =~= head + link_lines(next));
        }
        i = i + 1;
    }
    proof {
        assert(links@.take(links@.len() as int) =~= links@);
        assert(out@ =~= before + link_block(links@));
    }
}

fn render_page(fetch: &WebFetchEvidence) -> (r: String)
    ensures
        r@ == page_text(*fetch),
{
    match fetch.extraction {
        ExtractionStatus::Unsupported => {
            let mut out = chars_of("<untrusted source=\"web_fetch\">\nUnsupported content type: ");
            push_all(&mut out, &escape_chars(fetch.content_type.as_str()));
            push_text(&mut out, "\n</untrusted>");
            return string_of(&out);
        },
        ExtractionStatus::Empty => {
            let mut out = chars_of("<untrusted source=\"web_fetch\">\nSource: ");
            push_text(&mut out, fetch.final_url.text.as_str());
            push_text(&mut out, "\n(No readable text found on the page.)\n</untrusted>");
            return string_of(&out);
        },
        _ => {},
    }
    let mut parts: Vec<Vec<char>> = Vec::new();
    let mut i: usize = 0;
    while i < fetch.passages.len()
        invariant
            i <= fetch.passages@.len(),
            parts@.len() == i,
            forall|j: int|
                0 <= j < i ==> #[trigger] parts@[j]@ == escaped(fetch.passages@[j].text@),
        decreases fetch.passages@.len() - i,
    {
        parts.push(escape_chars(fetch.passages[i].text.as_str()));
        i = i + 1;
    }
    proof {
        assert(texts(parts@) =~= passage_texts(fetch.passages@));
    }
    let mut out = chars_of("<untrusted source=\"web_fetch\">\nSource: ");
    push_text(&mut out, fetch.final_url.text.as_str());
    push_text(&mut out, "\n");
    push_all(&mut out, &join_chars(&parts, "\n\n"));
    match fetch.extraction {
        ExtractionStatus::ReadableTruncated => push_text(&mut out, " [truncated]"),
        _ => push_text(&mut out, ""),
    }
    push_links(&mut out, &fetch.links);
    push_text(&mut out, "\n</untrusted>");
    string_of(&out)
}

pub fn render_legacy_fetch(result: &OperationResult<WebFetchEvidence>) -> (r: String)
    ensures
        r@ == fetch_text(*result),
{
    match &result.execution {
        ExecutionStatus::TimedOut => {
            return "Fetch failed: timed out".to_owned();
        },
        ExecutionStatus::Failed(FailureCode::UnsafeDestination)
        | ExecutionStatus::Failed(FailureCode::RedirectUnsafe) => {
            return "Fetching local/private addresses is not allowed.".to_owned();
        },
        _ => {},
    }
    let fetch = match &result.value {
        Some(fetch) => fetch,
        None => match &result.execution {
            ExecutionStatus::Failed(failure) => {
                return labelled_failure(failure);
            },
            _ => {
                return "Fetch failed.".to_owned();
            },
        },
    };
    match &result.execution {
        ExecutionStatus::Failed(FailureCode::Http4xx(status))
        | ExecutionStatus::Failed(FailureCode::Http5xx(status)) => {
            let mut out = chars_of("Fetch failed: HTTP ");
            push_all(&mut out, &decimal_of(*status as u64));
            string_of(&out)
        },
        ExecutionStatus::Failed(FailureCode::RateLimited) => "Fetch failed: HTTP 429".to_owned(),
        ExecutionStatus::Failed(FailureCode::UnsupportedContentType)
        | ExecutionStatus::Failed(FailureCode::EmptyExtraction)
        | ExecutionStatus::Succeeded => render_page(fetch),
        ExecutionStatus::Failed(failure) => labelled_failure(failure),
        _ => "Fetch denied.".to_owned(),
    }
}

} // verus!
