//! Fixtures that stand for the mail connector and the web in acceptance runs.
//! They are chosen by the process that runs them, never by a prompt.

use crate::identity::lemma_graphic_is_valid;
use crate::page::total_length;
use crate::text::{
    all_graphic, chars_of, decimal, decimal_of, lemma_decimal_graphic, lemma_graphic_concat,
    push_all, push_text, same, string_of,
};
use crate::types::{
    operation_key, valid_id, BodyOrigin, BodyState, CandidateId, EvidenceContribution, EvidenceId,
    EvidenceOperation, EvidencePassage, ExecutionStatus, ExtractionQuality, ExtractionStatus,
    FailureCode, MailBodyEvidence, MailHeaderEvidence, OperationResult, ProviderResult, ProviderSet,
    ProviderStatus, SourceAuthority, SourceIdentity, ValidatedMailId, WebCandidate,
    WebFetchEvidence, WebProvider, WebSearchResult,
};
use crate::weburl::{parsed_url, WebUrl};
use vstd::prelude::*;

verus! {

/// The variable that admits the fixtures.
pub fn acceptance_variable() -> (r: &'static str)
    ensures
        r@ == "BAGENT_STAGE8_ACCEPTANCE_FIXTURES"@,
{
    "BAGENT_STAGE8_ACCEPTANCE_FIXTURES"
}

/// The fixtures run where the variable is exactly one.
pub fn acceptance_runtime_enabled(value: Option<&str>) -> (r: bool)
    ensures
        r == (match value {
            Some(text) => text@ == "1"@,
            None => false,
        }),
{
    match value {
        Some(text) => same(text, "1"),
        None => false,
    }
}

#[derive(Clone, Copy, Debug, PartialEq, Eq, Structural)]
pub enum AcceptanceAcquisition {
    MailComplete,
    MailTransientRetry,
    MailPartial,
    MailUnavailable,
    MailDenied,
    MailEmpty,
    WebAuthoritative,
    WebCorroborated,
    WebConflict,
    WebAmbiguousTable,
    WebIrrelevantEntity,
    WebRedirect,
    WebTavilyMissingCredential,
    WebTavily429,
    WebTavilyTimeout,
    WebTavilyMalformed,
    WebDdgFallback,
    WebAllFetchFailure,
}

#[derive(Clone, Copy, Debug, PartialEq, Eq, Structural)]
pub enum AcceptancePolish {
    Passthrough,
    Accepted,
    Rejected,
    Unavailable,
}

#[derive(Clone, Copy, Debug, PartialEq, Eq, Structural)]
pub struct AcceptanceFixtureSelection {
    pub acquisition: AcceptanceAcquisition,
    pub polish: AcceptancePolish,
}

/// Which fixture is chosen, if one is. Whoever chooses and whoever reads share
/// one value, so there are no copies of it.
#[derive(Debug, PartialEq, Eq, Structural)]
pub struct AcceptanceControl {
    pub selected: Option<AcceptanceFixtureSelection>,
}

impl Default for AcceptanceControl {
    fn default() -> (r: Self)
        ensures
            r.selected is None,
    {
        AcceptanceControl { selected: None }
    }
}

pub open spec fn is_mail_scenario(scenario: AcceptanceAcquisition) -> bool {
    scenario is MailComplete || scenario is MailTransientRetry || scenario is MailPartial
        || scenario is MailUnavailable || scenario is MailDenied || scenario is MailEmpty
}

impl AcceptanceControl {
    pub fn set(&mut self, selection: Option<AcceptanceFixtureSelection>)
        ensures
            final(self).selected == selection,
    {
        self.selected = selection;
    }

    pub fn selection(&self) -> (r: Option<AcceptanceFixtureSelection>)
        ensures
            r == self.selected,
    {
        self.selected
    }

    /// The mail fixture, where one is chosen.
    pub fn mail_adapter(&self) -> (r: Option<AcceptanceMailAdapter>)
        ensures
            match r {
                Some(adapter) => self.selected is Some && adapter.scenario
                    == self.selected->0.acquisition && is_mail_scenario(adapter.scenario)
                    && adapter.reads@.len() == 0,
                None => self.selected is Some ==> !is_mail_scenario(
                    self.selected->0.acquisition,
                ),
            },
    {
        match self.selected {
            Some(selection) => AcceptanceMailAdapter::new(selection.acquisition),
            None => None,
        }
    }

    /// The web fixture, where one is chosen.
    pub fn web_adapter(&self) -> (r: Option<AcceptanceWebAdapter>)
        ensures
            match r {
                Some(adapter) => self.selected is Some && adapter.scenario
                    == self.selected->0.acquisition && !is_mail_scenario(adapter.scenario)
                    && adapter.discovered@.len() == 0,
                None => self.selected is Some ==> is_mail_scenario(self.selected->0.acquisition),
            },
    {
        match self.selected {
            Some(selection) => AcceptanceWebAdapter::new(selection.acquisition),
            None => None,
        }
    }
}

/// A mail connector with three messages.
#[derive(Debug, PartialEq, Eq)]
pub struct AcceptanceMailAdapter {
    pub scenario: AcceptanceAcquisition,
    /// The messages that were read, in the order of the reads.
    pub reads: Vec<ValidatedMailId>,
}

/// Web providers with fixed pages.
#[derive(Debug, PartialEq, Eq)]
pub struct AcceptanceWebAdapter {
    pub scenario: AcceptanceAcquisition,
    /// The candidates that searches have found.
    pub discovered: Vec<CandidateId>,
}

fn mail_scenario(scenario: AcceptanceAcquisition) -> (r: bool)
    ensures
        r == is_mail_scenario(scenario),
{
    matches!(
        scenario,
        AcceptanceAcquisition::MailComplete | AcceptanceAcquisition::MailTransientRetry
        | AcceptanceAcquisition::MailPartial | AcceptanceAcquisition::MailUnavailable
        | AcceptanceAcquisition::MailDenied | AcceptanceAcquisition::MailEmpty
    )
}

proof fn lemma_names_graphic()
    ensures
        all_graphic("mail-header-"@),
        all_graphic("mail-body-"@),
        all_graphic("web-"@),
        all_graphic("passage-"@),
        all_graphic("opaque-mail-"@),
        all_graphic("discovered-candidate-"@),
        all_graphic("public-office.example"@),
        all_graphic("publisher-one.example"@),
        all_graphic("publisher-two.example"@),
        all_graphic("reference.example"@),
        all_graphic("acceptance.example"@),
        all_graphic("-"@),
        "mail-header-"@.len() > 0,
        "mail-body-"@.len() > 0,
        "web-"@.len() > 0,
        "passage-"@.len() > 0,
        "opaque-mail-"@.len() > 0,
        "discovered-candidate-"@.len() > 0,
        "public-office.example"@.len() > 0,
        "publisher-one.example"@.len() > 0,
        "publisher-two.example"@.len() > 0,
        "reference.example"@.len() > 0,
        "acceptance.example"@.len() > 0,
        "-"@.len() > 0,
{
    reveal_strlit("mail-header-");
    reveal_strlit("mail-body-");
    reveal_strlit("web-");
    reveal_strlit("passage-");
    reveal_strlit("opaque-mail-");
    reveal_strlit("discovered-candidate-");
    reveal_strlit("public-office.example");
    reveal_strlit("publisher-one.example");
    reveal_strlit("publisher-two.example");
    reveal_strlit("reference.example");
    reveal_strlit("acceptance.example");
    reveal_strlit("-");
    assert("mail-header-"@ =~= seq!['m', 'a', 'i', 'l', '-', 'h', 'e', 'a', 'd', 'e', 'r', '-']);
    assert("mail-body-"@ =~= seq!['m', 'a', 'i', 'l', '-', 'b', 'o', 'd', 'y', '-']);
    assert("web-"@ =~= seq!['w', 'e', 'b', '-']);
    assert("passage-"@ =~= seq!['p', 'a', 's', 's', 'a', 'g', 'e', '-']);
    assert("opaque-mail-"@ =~= seq!['o', 'p', 'a', 'q', 'u', 'e', '-', 'm', 'a', 'i', 'l', '-']);
    assert("discovered-candidate-"@ =~= seq!['d', 'i', 's', 'c', 'o', 'v', 'e', 'r', 'e', 'd', '-', 'c', 'a', 'n', 'd', 'i', 'd', 'a', 't', 'e', '-']);
    assert("public-office.example"@ =~= seq!['p', 'u', 'b', 'l', 'i', 'c', '-', 'o', 'f', 'f', 'i', 'c', 'e', '.', 'e', 'x', 'a', 'm', 'p', 'l', 'e']);
    assert("publisher-one.example"@ =~= seq!['p', 'u', 'b', 'l', 'i', 's', 'h', 'e', 'r', '-', 'o', 'n', 'e', '.', 'e', 'x', 'a', 'm', 'p', 'l', 'e']);
    assert("publisher-two.example"@ =~= seq!['p', 'u', 'b', 'l', 'i', 's', 'h', 'e', 'r', '-', 't', 'w', 'o', '.', 'e', 'x', 'a', 'm', 'p', 'l', 'e']);
    assert("reference.example"@ =~= seq!['r', 'e', 'f', 'e', 'r', 'e', 'n', 'c', 'e', '.', 'e', 'x', 'a', 'm', 'p', 'l', 'e']);
    assert("acceptance.example"@ =~= seq!['a', 'c', 'c', 'e', 'p', 't', 'a', 'n', 'c', 'e', '.', 'e', 'x', 'a', 'm', 'p', 'l', 'e']);
    assert("-"@ =~= seq!['-']);
}

/// A name with a number behind it.
pub open spec fn numbered(stem: Seq<char>, n: nat) -> Seq<char> {
    stem + decimal(n)
}

fn numbered_name(stem: &str, n: u64) -> (r: String)
    requires
        all_graphic(stem@),
        stem@.len() > 0,
    ensures
        r@ == numbered(stem@, n as nat),
        all_graphic(r@),
        valid_id(r@),
{
    let mut text = chars_of(stem);
    push_all(&mut text, &decimal_of(n));
    proof {
        lemma_decimal_graphic(n as nat);
        lemma_graphic_concat(stem@, decimal(n as nat));
        lemma_graphic_is_valid(text@);
    }
    string_of(&text)
}

fn numbered_text(stem: &str, n: u64) -> (r: String)
    ensures
        r@ == numbered(stem@, n as nat),
{
    let mut text = chars_of(stem);
    push_all(&mut text, &decimal_of(n));
    string_of(&text)
}

pub fn acceptance_evidence_id(value: String) -> (r: EvidenceId)
    requires
        valid_id(value@),
    ensures
        r@ == value@,
{
    EvidenceId::from_valid(value)
}

/// The message with this number: received on 28 July 2026 at ten o'clock and as
/// many minutes.
pub open spec fn is_acceptance_header(header: MailHeaderEvidence, n: int) -> bool {
    &&& header.evidence_id@ == numbered("mail-header-"@, n as nat)
    &&& header.connector_id@ == numbered("opaque-mail-"@, n as nat)
    &&& header.sender@ == numbered("Sender "@, n as nat)
    &&& header.subject@ == numbered("Subject "@, n as nat)
    &&& header.received_at == 1785232800 + 60 * n
}

pub open spec fn are_acceptance_headers(headers: Seq<MailHeaderEvidence>, count: int) -> bool {
    &&& headers.len() == count
    &&& forall|i: int| 0 <= i < count ==> is_acceptance_header(#[trigger] headers[i], i + 1)
}

fn acceptance_header(n: u64) -> (r: MailHeaderEvidence)
    requires
        1 <= n <= 3,
    ensures
        is_acceptance_header(r, n as int),
{
    proof {
        lemma_names_graphic();
    }
    let minutes: i64 = 60 * (n as i64);
    MailHeaderEvidence {
        evidence_id: acceptance_evidence_id(numbered_name("mail-header-", n)),
        connector_id: ValidatedMailId::from_valid(numbered_name("opaque-mail-", n)),
        sender: numbered_text("Sender ", n),
        subject: numbered_text("Subject ", n),
        received_at: 1785232800 + minutes,
    }
}

pub open spec fn fewer(a: int, b: int) -> int {
    if a <= b {
        a
    } else {
        b
    }
}

pub fn acceptance_mail_headers(count: usize) -> (r: Vec<MailHeaderEvidence>)
    ensures
        are_acceptance_headers(r@, fewer(count as int, 3)),
{
    let mut out: Vec<MailHeaderEvidence> = Vec::new();
    let mut i: usize = 0;
    while i < count && i < 3
        invariant
            i <= count,
            i <= 3,
            are_acceptance_headers(out@, i as int),
        decreases 3 - i,
    {
        let ghost before = out@;
        out.push(acceptance_header(i as u64 + 1));
        proof {
            assert forall|k: int| 0 <= k < i + 1 implies is_acceptance_header(
                #[trigger] out@[k],
                k + 1,
            ) by {
                if k < i {
                    assert(out@[k] == before[k]);
                }
            }
        }
        i = i + 1;
    }
    out
}

/// A result without a value, after one attempt.
pub open spec fn ends_without_value<T>(
    result: OperationResult<T>,
    key: Seq<char>,
    execution: ExecutionStatus,
) -> bool {
    &&& result.key@ == key
    &&& result.attempts == 1
    &&& result.execution == execution
    &&& result.contribution is Empty
    &&& result.value is None
    &&& result.duration_ms == 0
    &&& result.invalid_items == 0
}

/// A result with a value, after one attempt.
pub open spec fn ends_with_value<T>(result: OperationResult<T>, key: Seq<char>) -> bool {
    &&& result.key@ == key
    &&& result.attempts == 1
    &&& result.execution is Succeeded
    &&& result.contribution is Satisfied
    &&& result.value is Some
    &&& result.duration_ms == 0
    &&& result.invalid_items == 0
}

fn without<T>(operation: &EvidenceOperation, execution: ExecutionStatus) -> (r: OperationResult<T>)
    ensures
        ends_without_value(r, operation_key(*operation), execution),
{
    OperationResult::without_value(operation.key(), execution, EvidenceContribution::Empty)
}

/// How the fixture lists messages.
pub open spec fn lists_messages(
    scenario: AcceptanceAcquisition,
    limit: u8,
    unread_only: bool,
    result: OperationResult<Vec<MailHeaderEvidence>>,
) -> bool {
    let key = operation_key(EvidenceOperation::MailList { limit, unread_only });
    if scenario is MailDenied {
        ends_without_value(result, key, ExecutionStatus::Denied)
    } else if scenario is MailEmpty {
        ends_without_value(result, key, ExecutionStatus::Succeeded)
    } else {
        ends_with_value(result, key) && are_acceptance_headers(
            result.value->0@,
            fewer(limit as int, 3),
        )
    }
}

/// Which message has this name, counted from one.
pub open spec fn message_number(id: Seq<char>) -> Option<int> {
    if id == numbered("opaque-mail-"@, 1) {
        Some(1)
    } else if id == numbered("opaque-mail-"@, 2) {
        Some(2)
    } else if id == numbered("opaque-mail-"@, 3) {
        Some(3)
    } else {
        None
    }
}

pub open spec fn times_read(reads: Seq<ValidatedMailId>, id: Seq<char>) -> nat
    decreases reads.len(),
{
    if reads.len() == 0 {
        0
    } else {
        times_read(reads.drop_last(), id) + if reads.last()@ == id {
            1nat
        } else {
            0nat
        }
    }
}

pub open spec fn is_acceptance_body(
    body: MailBodyEvidence,
    n: int,
    readable: bool,
) -> bool {
    &&& body.evidence_id@ == numbered("mail-body-"@, n as nat)
    &&& body.header_id@ == numbered("mail-header-"@, n as nat)
    &&& if readable {
        &&& body.body@ == numbered("Body for Subject "@, n as nat)
        &&& body.body_state is Readable
        &&& body.body_origin is LocalEmlx
    } else {
        &&& body.body@.len() == 0
        &&& body.body_state is UnavailableLocally
        &&& body.body_origin is Unavailable
    }
}

/// How the fixture reads a message: the first one times out once where a retry
/// is tried, and bodies are missing where they are to be.
pub open spec fn reads_message(
    scenario: AcceptanceAcquisition,
    reads: Seq<ValidatedMailId>,
    id: Seq<char>,
    result: OperationResult<MailBodyEvidence>,
) -> bool {
    let key = "mail_read:"@ + id;
    match message_number(id) {
        None => ends_without_value(
            result,
            key,
            ExecutionStatus::Failed(FailureCode::InvalidInput),
        ),
        Some(n) => if scenario is MailTransientRetry && n == 1 && times_read(reads, id) == 0 {
            ends_without_value(result, key, ExecutionStatus::TimedOut)
        } else {
            ends_with_value(result, key) && is_acceptance_body(
                result.value->0,
                n,
                !(scenario is MailUnavailable || (scenario is MailPartial && n > 1)),
            )
        },
    }
}

impl AcceptanceMailAdapter {
    pub fn new(scenario: AcceptanceAcquisition) -> (r: Option<Self>)
        ensures
            match r {
                Some(adapter) => is_mail_scenario(scenario) && adapter.scenario == scenario
                    && adapter.reads@.len() == 0,
                None => !is_mail_scenario(scenario),
            },
    {
        if mail_scenario(scenario) {
            Some(AcceptanceMailAdapter { scenario, reads: Vec::new() })
        } else {
            None
        }
    }

    pub fn list(&self, limit: u8, unread_only: bool) -> (r: OperationResult<
        Vec<MailHeaderEvidence>,
    >)
        ensures
            lists_messages(self.scenario, limit, unread_only, r),
    {
        let operation = EvidenceOperation::MailList { limit, unread_only };
        match self.scenario {
            AcceptanceAcquisition::MailDenied => without(&operation, ExecutionStatus::Denied),
            AcceptanceAcquisition::MailEmpty => without(&operation, ExecutionStatus::Succeeded),
            _ => OperationResult::succeeded(
                operation.key(),
                acceptance_mail_headers(limit as usize),
            ),
        }
    }

    /// The fixture has nothing to search.
    pub fn search(&self, normalized_query: &str, limit: u8) -> (r: OperationResult<
        Vec<MailHeaderEvidence>,
    >)
        ensures
            ends_without_value(
                r,
                "mail_search:"@ + decimal(limit as nat) + ":"@ + crate::types::key_part(
                    normalized_query@,
                ),
                ExecutionStatus::Failed(FailureCode::InvalidInput),
            ),
    {
        let operation = EvidenceOperation::MailSearch {
            normalized_query: normalized_query.to_owned(),
            limit,
        };
        without(&operation, ExecutionStatus::Failed(FailureCode::InvalidInput))
    }

    pub fn read(&mut self, message_id: &ValidatedMailId) -> (r: OperationResult<MailBodyEvidence>)
        ensures
            final(self).scenario == old(self).scenario,
            reads_message(old(self).scenario, old(self).reads@, message_id@, r),
            final(self).reads@ == (if message_number(message_id@) is Some {
                old(self).reads@.push(*message_id)
            } else {
                old(self).reads@
            }),
    {
        let operation = EvidenceOperation::MailRead { message_id: message_id.clone() };
        let first = numbered_text("opaque-mail-", 1);
        let second = numbered_text("opaque-mail-", 2);
        let third = numbered_text("opaque-mail-", 3);
        let n: u64 = if same(message_id.as_str(), first.as_str()) {
            1
        } else if same(message_id.as_str(), second.as_str()) {
            2
        } else if same(message_id.as_str(), third.as_str()) {
            3
        } else {
            return without(&operation, ExecutionStatus::Failed(FailureCode::InvalidInput));
        };
        let earlier = count_reads(&self.reads, message_id);
        self.reads.push(message_id.clone());
        if matches!(self.scenario, AcceptanceAcquisition::MailTransientRetry) && n == 1 && earlier
            == 0 {
            return without(&operation, ExecutionStatus::TimedOut);
        }
        proof {
            lemma_names_graphic();
        }
        let missing = matches!(self.scenario, AcceptanceAcquisition::MailUnavailable) || (matches!(
            self.scenario,
            AcceptanceAcquisition::MailPartial
        ) && n > 1);
        let body = if missing {
            let none: Vec<char> = Vec::new();
            MailBodyEvidence {
                evidence_id: acceptance_evidence_id(numbered_name("mail-body-", n)),
                header_id: acceptance_evidence_id(numbered_name("mail-header-", n)),
                body: string_of(&none),
                body_state: BodyState::UnavailableLocally,
                body_origin: BodyOrigin::Unavailable,
            }
        } else {
            MailBodyEvidence {
                evidence_id: acceptance_evidence_id(numbered_name("mail-body-", n)),
                header_id: acceptance_evidence_id(numbered_name("mail-header-", n)),
                body: numbered_text("Body for Subject ", n),
                body_state: BodyState::Readable,
                body_origin: BodyOrigin::LocalEmlx,
            }
        };
        OperationResult::succeeded(operation.key(), body)
    }
}

fn count_reads(reads: &Vec<ValidatedMailId>, id: &ValidatedMailId) -> (r: usize)
    ensures
        r == times_read(reads@, id@),
{
    let mut count: usize = 0;
    let mut i: usize = 0;
    proof {
        assert(reads@.take(0) =~= Seq::empty());
    }
    while i < reads.len()
        invariant
            i <= reads@.len(),
            count <= i,
            count == times_read(reads@.take(i as int), id@),
        decreases reads@.len() - i,
    {
        proof {
            let next = reads@.take(i as int + 1);
            assert(next.drop_last() =~= reads@.take(i as int));
            assert(next.last() == reads@[i as int]);
        }
        if reads[i].same(id) {
            count = count + 1;
        }
        i = i + 1;
    }
    proof {
        assert(reads@.take(reads@.len() as int) =~= reads@);
    }
    count
}

/// The pages of a scenario: their addresses and titles.
pub open spec fn scenario_pages(scenario: AcceptanceAcquisition) -> Seq<(
    &'static str,
    &'static str,
)> {
    match scenario {
        AcceptanceAcquisition::WebAuthoritative => seq![
            ("https://public-office.example/president", "President of the Slovak Republic"),
        ],
        AcceptanceAcquisition::WebDdgFallback => seq![
            ("https://public-office.example/president", "President of the Slovak Republic"),
        ],
        AcceptanceAcquisition::WebRedirect => seq![
            ("https://public-office.example/requested", "President of the Slovak Republic"),
        ],
        AcceptanceAcquisition::WebCorroborated => population_pages(),
        AcceptanceAcquisition::WebConflict => population_pages(),
        AcceptanceAcquisition::WebAmbiguousTable => population_pages(),
        AcceptanceAcquisition::WebIrrelevantEntity => seq![
            ("https://reference.example/president", "President profile"),
        ],
        AcceptanceAcquisition::WebAllFetchFailure => seq![
            ("https://failed-one.example/fact", "Slovakia capital"),
            ("https://failed-two.example/fact", "Slovakia capital"),
        ],
        _ => Seq::empty(),
    }
}

pub open spec fn population_pages() -> Seq<(&'static str, &'static str)> {
    seq![
        ("https://publisher-one.example/fact", "Bratislava population"),
        ("https://publisher-two.example/fact", "Bratislava population"),
    ]
}

fn pages_of(scenario: AcceptanceAcquisition) -> (r: Vec<(&'static str, &'static str)>)
    ensures
        r@ == scenario_pages(scenario),
{
    let mut pages: Vec<(&'static str, &'static str)> = Vec::new();
    match scenario {
        AcceptanceAcquisition::WebAuthoritative | AcceptanceAcquisition::WebDdgFallback => {
            pages.push(
                ("https://public-office.example/president", "President of the Slovak Republic"),
            );
        },
        AcceptanceAcquisition::WebRedirect => {
            pages.push(
                ("https://public-office.example/requested", "President of the Slovak Republic"),
            );
        },
        AcceptanceAcquisition::WebCorroborated | AcceptanceAcquisition::WebConflict
        | AcceptanceAcquisition::WebAmbiguousTable => {
            pages.push(("https://publisher-one.example/fact", "Bratislava population"));
            pages.push(("https://publisher-two.example/fact", "Bratislava population"));
        },
        AcceptanceAcquisition::WebIrrelevantEntity => {
            pages.push(("https://reference.example/president", "President profile"));
        },
        AcceptanceAcquisition::WebAllFetchFailure => {
            pages.push(("https://failed-one.example/fact", "Slovakia capital"));
            pages.push(("https://failed-two.example/fact", "Slovakia capital"));
        },
        _ => {},
    }
    proof {
        assert(pages@ =~= scenario_pages(scenario));
    }
    pages
}

pub open spec fn is_acceptance_candidate(
    candidate: WebCandidate,
    n: int,
    page: (&str, &str),
) -> bool {
    &&& candidate.candidate_id@ == numbered("discovered-candidate-"@, n as nat)
    &&& candidate.provider == WebProvider::DuckDuckGo
    &&& candidate.rank == n
    &&& candidate.title@ == page.1@
    &&& parsed_url(page.0@) == Some(candidate.requested_url)
    &&& candidate.snippet@ == "Discovery-only fixture snippet; never evidence."@
}

/// The candidates among the first `n` pages, each with its place as its rank.
pub open spec fn are_acceptance_candidates(
    candidates: Seq<WebCandidate>,
    pages: Seq<(&str, &str)>,
    n: int,
) -> bool
    decreases n,
{
    if n <= 0 {
        candidates.len() == 0
    } else if parsed_url(pages[n - 1].0@) is Some {
        candidates.len() > 0 && is_acceptance_candidate(candidates.last(), n, pages[n - 1])
            && are_acceptance_candidates(candidates.drop_last(), pages, n - 1)
    } else {
        are_acceptance_candidates(candidates, pages, n - 1)
    }
}

pub fn acceptance_candidates(scenario: AcceptanceAcquisition) -> (r: Vec<WebCandidate>)
    ensures
        are_acceptance_candidates(
            r@,
            scenario_pages(scenario),
            scenario_pages(scenario).len() as int,
        ),
        r@.len() <= 2,
{
    let pages = pages_of(scenario);
    let ghost model = pages@;
    let mut out: Vec<WebCandidate> = Vec::new();
    let mut i: usize = 0;
    proof {
        lemma_names_graphic();
        assert(model.len() <= 2);
    }
    while i < pages.len()
        invariant
            i <= pages@.len(),
            pages@.len() <= 2,
            out@.len() <= i,
            model == pages@,
            all_graphic("discovered-candidate-"@),
            "discovered-candidate-"@.len() > 0,
            are_acceptance_candidates(out@, model, i as int),
        decreases pages@.len() - i,
    {
        let page = pages[i];
        if let Some(url) = WebUrl::parse(page.0) {
            let ghost before = out@;
            out.push(
                WebCandidate {
                    candidate_id: CandidateId::from_valid(
                        numbered_name("discovered-candidate-", i as u64 + 1),
                    ),
                    provider: WebProvider::DuckDuckGo,
                    rank: (i + 1) as u16,
                    title: page.1.to_owned(),
                    requested_url: url,
                    snippet: "Discovery-only fixture snippet; never evidence.".to_owned(),
                },
            );
            proof {
                assert(out@.drop_last() =~= before);
            }
        }
        i = i + 1;
    }
    out
}

/// What the providers report, where a scenario is about them.
pub open spec fn scenario_statuses(scenario: AcceptanceAcquisition) -> Option<Seq<ProviderStatus>> {
    match scenario {
        AcceptanceAcquisition::WebTavilyMissingCredential => Some(
            seq![ProviderStatus::Failed(FailureCode::ConnectorUnavailable), ProviderStatus::Empty],
        ),
        AcceptanceAcquisition::WebTavily429 => Some(
            seq![ProviderStatus::Failed(FailureCode::RateLimited), ProviderStatus::Empty],
        ),
        AcceptanceAcquisition::WebTavilyTimeout => Some(
            seq![ProviderStatus::TimedOut, ProviderStatus::Empty],
        ),
        AcceptanceAcquisition::WebTavilyMalformed => Some(
            seq![ProviderStatus::InvalidResponse, ProviderStatus::Empty],
        ),
        AcceptanceAcquisition::WebDdgFallback => Some(
            seq![
                ProviderStatus::Failed(FailureCode::RateLimited),
                ProviderStatus::Succeeded { result_count: 1 },
            ],
        ),
        _ => None,
    }
}

pub open spec fn two_reports(first: ProviderStatus, second: ProviderStatus) -> Seq<ProviderResult> {
    seq![
        ProviderResult { provider: WebProvider::Tavily, status: first, duration_ms: 0 },
        ProviderResult { provider: WebProvider::DuckDuckGo, status: second, duration_ms: 0 },
    ]
}

/// How the fixture searches.
pub open spec fn searches_pages(
    scenario: AcceptanceAcquisition,
    query: Seq<char>,
    providers: Seq<WebProvider>,
    result: OperationResult<WebSearchResult>,
) -> bool {
    &&& ends_with_value(result, crate::search::search_key(query, providers))
    &&& {
        let found = result.value->0;
        match scenario_statuses(scenario) {
            Some(statuses) => {
                &&& found.providers@ == two_reports(statuses[0], statuses[1])
                &&& if scenario is WebDdgFallback {
                    are_acceptance_candidates(
                        found.candidates@,
                        scenario_pages(scenario),
                        scenario_pages(scenario).len() as int,
                    )
                } else {
                    found.candidates@.len() == 0
                }
            },
            None => {
                &&& are_acceptance_candidates(
                    found.candidates@,
                    scenario_pages(scenario),
                    scenario_pages(scenario).len() as int,
                )
                &&& found.providers@ == seq![
                    ProviderResult {
                        provider: WebProvider::DuckDuckGo,
                        status: ProviderStatus::Succeeded {
                            result_count: found.candidates@.len() as u16,
                        },
                        duration_ms: 0,
                    },
                ]
            },
        }
    }
}

pub open spec fn candidate_ids(candidates: Seq<WebCandidate>) -> Seq<CandidateId> {
    Seq::new(candidates.len(), |i: int| candidates[i].candidate_id)
}

pub open spec fn was_discovered(discovered: Seq<CandidateId>, id: Seq<char>) -> bool {
    exists|i: int| 0 <= i < discovered.len() && (#[trigger] discovered[i])@ == id
}

/// What a page of a scenario says.
pub open spec fn scenario_passages(scenario: AcceptanceAcquisition, rank: u16) -> Seq<&'static str> {
    match scenario {
        AcceptanceAcquisition::WebAuthoritative => office_passages(),
        AcceptanceAcquisition::WebDdgFallback => office_passages(),
        AcceptanceAcquisition::WebRedirect => office_passages(),
        AcceptanceAcquisition::WebCorroborated => if rank == 1 {
            seq!["Bratislava city proper population stands at 475,503 as of 2024."]
        } else {
            seq!["The city proper population of Bratislava was 475,503 at the end of 2024."]
        },
        AcceptanceAcquisition::WebConflict => if rank == 1 {
            seq!["The city proper population of Bratislava was 475,503 at the end of 2024."]
        } else {
            seq!["The urban-area population estimate for Bratislava was 440,948 in 2025."]
        },
        AcceptanceAcquisition::WebAmbiguousTable => if rank == 1 {
            seq!["Bratislava 442,197 428,672 411,228 475,503 480,902"]
        } else {
            seq!["Bratislava population statistics table 2020 2021 2022 2023 2024"]
        },
        AcceptanceAcquisition::WebIrrelevantEntity => seq![
            "Peter Novak is the president of an unrelated sports association.",
        ],
        _ => seq!["Acceptance fixture page."],
    }
}

pub open spec fn office_passages() -> Seq<&'static str> {
    seq![
        "President of the Slovak Republic",
        "Office of the President of the Slovak Republic",
        "Peter Pellegrini is the President of the Slovak Republic.",
    ]
}

pub open spec fn is_office(scenario: AcceptanceAcquisition) -> bool {
    scenario is WebAuthoritative || scenario is WebDdgFallback || scenario is WebRedirect
}

pub open spec fn scenario_identity(scenario: AcceptanceAcquisition, rank: u16) -> Seq<char> {
    if is_office(scenario) {
        "public-office.example"@
    } else if scenario is WebCorroborated || scenario is WebConflict
        || scenario is WebAmbiguousTable {
        if rank == 1 {
            "publisher-one.example"@
        } else {
            "publisher-two.example"@
        }
    } else if scenario is WebIrrelevantEntity {
        "reference.example"@
    } else {
        "acceptance.example"@
    }
}

/// Where a page is reached: one scenario redirects.
pub open spec fn scenario_address(scenario: AcceptanceAcquisition, requested: WebUrl) -> WebUrl {
    if scenario is WebRedirect {
        match parsed_url("https://public-office.example/final"@) {
            Some(url) => url,
            None => requested,
        }
    } else {
        requested
    }
}

pub open spec fn literal_texts(list: Seq<&str>) -> Seq<Seq<char>> {
    Seq::new(list.len(), |i: int| list[i]@)
}

pub open spec fn acceptance_passage_name(rank: u16, place: int) -> Seq<char> {
    numbered(numbered("passage-"@, rank as nat) + "-"@, place as nat)
}

pub open spec fn is_acceptance_fetch(
    evidence: WebFetchEvidence,
    scenario: AcceptanceAcquisition,
    candidate: WebCandidate,
) -> bool {
    let contents = scenario_passages(scenario, candidate.rank);
    let length = total_length(literal_texts(contents));
    let address = scenario_address(scenario, candidate.requested_url);
    &&& evidence.evidence_id@ == numbered("web-"@, candidate.rank as nat)
    &&& evidence.candidate_id == candidate.candidate_id
    &&& evidence.requested_url == candidate.requested_url
    &&& evidence.final_url == address
    &&& evidence.redirect_chain@ == (if address.text@ == candidate.requested_url.text@ {
        seq![address]
    } else {
        seq![candidate.requested_url, address]
    })
    &&& evidence.http_status == 200
    &&& evidence.content_type@ == "text/html"@
    &&& evidence.bytes_read == length
    &&& evidence.characters_extracted == length
    &&& evidence.extraction is Readable
    &&& evidence.quality == (ExtractionQuality {
        useful_text_length: length as u64,
        boilerplate_ratio_basis_points: 0,
        query_coverage_basis_points: 0,
        low_quality_reason: None,
    })
    &&& evidence.page_owner_identity_bound == is_office(scenario)
    &&& evidence.authority is Other
    &&& evidence.source_identity@ == scenario_identity(scenario, candidate.rank)
    &&& evidence.passages@.len() == contents.len()
    &&& forall|i: int|
        0 <= i < contents.len() ==> {
            let passage = #[trigger] evidence.passages@[i];
            &&& passage.passage_id@ == acceptance_passage_name(candidate.rank, i)
            &&& passage.text@ == contents[i]@
            &&& !passage.truncated
        }
    &&& evidence.links@.len() == 0
}

fn passages_for(scenario: AcceptanceAcquisition, rank: u16) -> (r: Vec<&'static str>)
    ensures
        r@ == scenario_passages(scenario, rank),
        r@.len() <= 3,
{
    let mut out: Vec<&'static str> = Vec::new();
    match scenario {
        AcceptanceAcquisition::WebAuthoritative | AcceptanceAcquisition::WebDdgFallback
        | AcceptanceAcquisition::WebRedirect => {
            out.push("President of the Slovak Republic");
            out.push("Office of the President of the Slovak Republic");
            out.push("Peter Pellegrini is the President of the Slovak Republic.");
        },
        AcceptanceAcquisition::WebCorroborated => {
            if rank == 1 {
                out.push("Bratislava city proper population stands at 475,503 as of 2024.");
            } else {
                out.push("The city proper population of Bratislava was 475,503 at the end of 2024.");
            }
        },
        AcceptanceAcquisition::WebConflict => {
            if rank == 1 {
                out.push("The city proper population of Bratislava was 475,503 at the end of 2024.");
            } else {
                out.push("The urban-area population estimate for Bratislava was 440,948 in 2025.");
            }
        },
        AcceptanceAcquisition::WebAmbiguousTable => {
            if rank == 1 {
                out.push("Bratislava 442,197 428,672 411,228 475,503 480,902");
            } else {
                out.push("Bratislava population statistics table 2020 2021 2022 2023 2024");
            }
        },
        AcceptanceAcquisition::WebIrrelevantEntity => {
            out.push("Peter Novak is the president of an unrelated sports association.");
        },
        _ => {
            out.push("Acceptance fixture page.");
        },
    }
    proof {
        assert(out@ =~= scenario_passages(scenario, rank));
    }
    out
}

fn identity_for(scenario: AcceptanceAcquisition, rank: u16) -> (r: &'static str)
    ensures
        r@ == scenario_identity(scenario, rank),
{
    match scenario {
        AcceptanceAcquisition::WebAuthoritative | AcceptanceAcquisition::WebDdgFallback
        | AcceptanceAcquisition::WebRedirect => "public-office.example",
        AcceptanceAcquisition::WebCorroborated | AcceptanceAcquisition::WebConflict
        | AcceptanceAcquisition::WebAmbiguousTable => if rank == 1 {
            "publisher-one.example"
        } else {
            "publisher-two.example"
        },
        AcceptanceAcquisition::WebIrrelevantEntity => "reference.example",
        _ => "acceptance.example",
    }
}

fn passage_id(rank: u16, place: usize) -> (r: EvidenceId)
    ensures
        r@ == acceptance_passage_name(rank, place as int),
{
    proof {
        lemma_names_graphic();
    }
    let head = numbered_name("passage-", rank as u64);
    let mut stem = chars_of(head.as_str());
    push_text(&mut stem, "-");
    proof {
        lemma_graphic_concat(head@, "-"@);
    }
    let stem_text = string_of(&stem);
    acceptance_evidence_id(numbered_name(stem_text.as_str(), place as u64))
}

fn short_text(text: &str) -> (r: u64)
    ensures
        r == text@.len(),
{
    let chars = chars_of(text);
    chars.len() as u64
}

proof fn lemma_fixture_lengths(scenario: AcceptanceAcquisition, rank: u16)
    ensures
        total_length(literal_texts(scenario_passages(scenario, rank))) <= 1000,
        forall|i: int|
            0 <= i < scenario_passages(scenario, rank).len() ==> (
            #[trigger] scenario_passages(scenario, rank)[i])@.len() <= 100,
{
    reveal_strlit("President of the Slovak Republic");
    reveal_strlit("Office of the President of the Slovak Republic");
    reveal_strlit("Peter Pellegrini is the President of the Slovak Republic.");
    reveal_strlit("Bratislava city proper population stands at 475,503 as of 2024.");
    reveal_strlit("The city proper population of Bratislava was 475,503 at the end of 2024.");
    reveal_strlit("The urban-area population estimate for Bratislava was 440,948 in 2025.");
    reveal_strlit("Bratislava 442,197 428,672 411,228 475,503 480,902");
    reveal_strlit("Bratislava population statistics table 2020 2021 2022 2023 2024");
    reveal_strlit("Peter Novak is the president of an unrelated sports association.");
    reveal_strlit("Acceptance fixture page.");
    let list = literal_texts(scenario_passages(scenario, rank));
    assert(list.len() <= 3);
    lemma_total_bounded(list);
}

proof fn lemma_total_bounded(list: Seq<Seq<char>>)
    requires
        forall|i: int| 0 <= i < list.len() ==> (#[trigger] list[i]).len() <= 100,
    ensures
        total_length(list) <= 100 * list.len(),
    decreases list.len(),
{
    if list.len() > 0 {
        lemma_total_bounded(list.drop_last());
    }
}

pub fn acceptance_fetch(scenario: AcceptanceAcquisition, candidate: &WebCandidate) -> (r:
    WebFetchEvidence)
    ensures
        is_acceptance_fetch(r, scenario, *candidate),
{
    let contents = passages_for(scenario, candidate.rank);
    let ghost model = literal_texts(contents@);
    let mut passages: Vec<EvidencePassage> = Vec::new();
    let mut length: u64 = 0;
    let mut i: usize = 0;
    proof {
        lemma_fixture_lengths(scenario, candidate.rank);
        assert(model.take(0) =~= Seq::empty());
    }
    while i < contents.len()
        invariant
            i <= contents@.len(),
            contents@.len() <= 3,
            contents@ == scenario_passages(scenario, candidate.rank),
            model == literal_texts(contents@),
            forall|k: int|
                0 <= k < scenario_passages(scenario, candidate.rank).len() ==> (
                #[trigger] scenario_passages(scenario, candidate.rank)[k])@.len() <= 100,
            length == total_length(model.take(i as int)),
            length <= 100 * i,
            passages@.len() == i,
            forall|k: int|
                0 <= k < i ==> {
                    let passage = #[trigger] passages@[k];
                    &&& passage.passage_id@ == acceptance_passage_name(candidate.rank, k)
                    &&& passage.text@ == contents@[k]@
                    &&& !passage.truncated
                },
        decreases contents@.len() - i,
    {
        proof {
            let next = model.take(i as int + 1);
            assert(next.drop_last() =~= model.take(i as int));
            assert(next.last() == contents@[i as int]@);
            assert(scenario_passages(scenario, candidate.rank)[i as int]@.len() <= 100);
        }
        let text = contents[i];
        length = length + short_text(text);
        passages.push(
            EvidencePassage {
                passage_id: passage_id(candidate.rank, i),
                text: text.to_owned(),
                truncated: false,
            },
        );
        i = i + 1;
    }
    proof {
        assert(model.take(model.len() as int) =~= model);
        lemma_names_graphic();
        let identity = scenario_identity(scenario, candidate.rank);
        lemma_graphic_is_valid(identity);
    }
    let final_url = match scenario {
        AcceptanceAcquisition::WebRedirect => match WebUrl::parse(
            "https://public-office.example/final",
        ) {
            Some(url) => url,
            None => candidate.requested_url.clone(),
        },
        _ => candidate.requested_url.clone(),
    };
    let mut chain: Vec<WebUrl> = Vec::new();
    if !final_url.same(&candidate.requested_url) {
        chain.push(candidate.requested_url.clone());
    }
    chain.push(final_url.clone());
    proof {
        assert(chain@ =~= if final_url.text@ == candidate.requested_url.text@ {
            seq![final_url]
        } else {
            seq![candidate.requested_url, final_url]
        });
    }
    let owner_bound = matches!(
        scenario,
        AcceptanceAcquisition::WebAuthoritative | AcceptanceAcquisition::WebDdgFallback
        | AcceptanceAcquisition::WebRedirect
    );
    WebFetchEvidence {
        evidence_id: acceptance_evidence_id(numbered_name("web-", candidate.rank as u64)),
        candidate_id: candidate.candidate_id.clone(),
        requested_url: candidate.requested_url.clone(),
        final_url,
        redirect_chain: chain,
        http_status: 200,
        content_type: "text/html".to_owned(),
        bytes_read: length,
        characters_extracted: length,
        extraction: ExtractionStatus::Readable,
        quality: ExtractionQuality {
            useful_text_length: length,
            boilerplate_ratio_basis_points: 0,
            query_coverage_basis_points: 0,
            low_quality_reason: None,
        },
        page_owner_identity_bound: owner_bound,
        authority: SourceAuthority::Other,
        source_identity: SourceIdentity::from_valid(
            identity_for(scenario, candidate.rank).to_owned(),
        ),
        passages,
        links: Vec::new(),
    }
}

/// How the fixture fetches: what a search has not found is no valid input.
pub open spec fn fetches_page(
    scenario: AcceptanceAcquisition,
    discovered: Seq<CandidateId>,
    candidate: WebCandidate,
    result: OperationResult<WebFetchEvidence>,
) -> bool {
    let key = "web_fetch:"@ + candidate.candidate_id@;
    if !was_discovered(discovered, candidate.candidate_id@) {
        ends_without_value(result, key, ExecutionStatus::Failed(FailureCode::InvalidInput))
    } else if scenario is WebAllFetchFailure {
        ends_without_value(result, key, ExecutionStatus::Failed(FailureCode::ConnectionReset))
    } else {
        ends_with_value(result, key) && is_acceptance_fetch(result.value->0, scenario, candidate)
    }
}

impl AcceptanceWebAdapter {
    pub fn new(scenario: AcceptanceAcquisition) -> (r: Option<Self>)
        ensures
            match r {
                Some(adapter) => !is_mail_scenario(scenario) && adapter.scenario == scenario
                    && adapter.discovered@.len() == 0,
                None => is_mail_scenario(scenario),
            },
    {
        if mail_scenario(scenario) {
            None
        } else {
            Some(AcceptanceWebAdapter { scenario, discovered: Vec::new() })
        }
    }

    pub fn tavily_configured(&self) -> (r: bool)
        ensures
            r == (scenario_statuses(self.scenario) is Some),
    {
        matches!(
            self.scenario,
            AcceptanceAcquisition::WebTavilyMissingCredential | AcceptanceAcquisition::WebTavily429
            | AcceptanceAcquisition::WebTavilyTimeout | AcceptanceAcquisition::WebTavilyMalformed
            | AcceptanceAcquisition::WebDdgFallback
        )
    }

    pub fn provider_statuses(&self) -> (r: Option<Vec<ProviderResult>>)
        ensures
            match (r, scenario_statuses(self.scenario)) {
                (Some(reports), Some(statuses)) => reports@ == two_reports(
                    statuses[0],
                    statuses[1],
                ),
                (None, None) => true,
                _ => false,
            },
    {
        let (first, second) = match self.scenario {
            AcceptanceAcquisition::WebTavilyMissingCredential => (
                ProviderStatus::Failed(FailureCode::ConnectorUnavailable),
                ProviderStatus::Empty,
            ),
            AcceptanceAcquisition::WebTavily429 => (
                ProviderStatus::Failed(FailureCode::RateLimited),
                ProviderStatus::Empty,
            ),
            AcceptanceAcquisition::WebTavilyTimeout => (
                ProviderStatus::TimedOut,
                ProviderStatus::Empty,
            ),
            AcceptanceAcquisition::WebTavilyMalformed => (
                ProviderStatus::InvalidResponse,
                ProviderStatus::Empty,
            ),
            AcceptanceAcquisition::WebDdgFallback => (
                ProviderStatus::Failed(FailureCode::RateLimited),
                ProviderStatus::Succeeded { result_count: 1 },
            ),
            _ => {
                return None;
            },
        };
        let mut reports: Vec<ProviderResult> = Vec::new();
        reports.push(
            ProviderResult { provider: WebProvider::Tavily, status: first, duration_ms: 0 },
        );
        reports.push(
            ProviderResult { provider: WebProvider::DuckDuckGo, status: second, duration_ms: 0 },
        );
        proof {
            assert(reports@ =~= two_reports(first, second));
        }
        Some(reports)
    }

    pub fn search(&mut self, query: &str, providers: &ProviderSet) -> (r: OperationResult<
        WebSearchResult,
    >)
        ensures
            final(self).scenario == old(self).scenario,
            searches_pages(old(self).scenario, query@, providers.0@, r),
            r.value is Some,
            final(self).discovered@ == old(self).discovered@ + candidate_ids(
                r.value->0.candidates@,
            ),
    {
        let operation = EvidenceOperation::WebSearch {
            normalized_query: query.to_owned(),
            provider_set: providers.clone(),
        };
        let statuses = self.provider_statuses();
        let fallback = matches!(self.scenario, AcceptanceAcquisition::WebDdgFallback);
        let candidates: Vec<WebCandidate> = if statuses.is_some() && !fallback {
            Vec::new()
        } else {
            acceptance_candidates(self.scenario)
        };
        let ghost start = self.discovered@;
        let ghost ids = candidate_ids(candidates@);
        let mut i: usize = 0;
        proof {
            assert(start + ids.take(0) =~= start);
        }
        while i < candidates.len()
            invariant
                i <= candidates@.len(),
                self.scenario == old(self).scenario,
                ids == candidate_ids(candidates@),
                self.discovered@ == start + ids.take(i as int),
            decreases candidates@.len() - i,
        {
            self.discovered.push(candidates[i].candidate_id.clone());
            proof {
                assert(start + ids.take(i as int + 1) =~= (start + ids.take(i as int)).push(
                    ids[i as int],
                ));
            }
            i = i + 1;
        }
        proof {
            assert(ids.take(ids.len() as int) =~= ids);
        }
        let reports = match statuses {
            Some(reports) => reports,
            None => {
                let mut own: Vec<ProviderResult> = Vec::new();
                own.push(
                    ProviderResult {
                        provider: WebProvider::DuckDuckGo,
                        status: ProviderStatus::Succeeded {
                            result_count: candidates.len() as u16,
                        },
                        duration_ms: 0,
                    },
                );
                own
            },
        };
        OperationResult::succeeded(
            operation.key(),
            WebSearchResult { providers: reports, candidates },
        )
    }

    pub fn fetch(&self, candidate: &WebCandidate) -> (r: OperationResult<WebFetchEvidence>)
        ensures
            fetches_page(self.scenario, self.discovered@, *candidate, r),
    {
        let operation = EvidenceOperation::WebFetch {
            candidate_id: candidate.candidate_id.clone(),
        };
        let mut known = false;
        let mut i: usize = 0;
        while i < self.discovered.len()
            invariant
                i <= self.discovered@.len(),
                known == exists|k: int|
                    0 <= k < i && (#[trigger] self.discovered@[k])@ == candidate.candidate_id@,
            decreases self.discovered@.len() - i,
        {
            if self.discovered[i].same(&candidate.candidate_id) {
                known = true;
                assert(self.discovered@[i as int]@ == candidate.candidate_id@);
            }
            i = i + 1;
        }
        if !known {
            return without(&operation, ExecutionStatus::Failed(FailureCode::InvalidInput));
        }
        if matches!(self.scenario, AcceptanceAcquisition::WebAllFetchFailure) {
            return without(&operation, ExecutionStatus::Failed(FailureCode::ConnectionReset));
        }
        OperationResult::succeeded(operation.key(), acceptance_fetch(self.scenario, candidate))
    }
}

/// The entry of a message in the answer about the three messages.
pub open spec fn canonical_entry(n: int) -> Seq<char> {
    decimal(n as nat) + ". Sender: Sender "@ + decimal(n as nat) + "\n   Subject: Subject "@
        + decimal(n as nat) + "\n   Date: 2026-07-28 10:0"@ + decimal(n as nat)
        + " UTC\n   Summary: Body for Subject "@ + decimal(n as nat)
}

fn canonical_line(n: u64) -> (r: Vec<char>)
    ensures
        r@ == canonical_entry(n as int),
{
    let number = decimal_of(n);
    let mut text = crate::text::copy_chars(&number);
    push_text(&mut text, ". Sender: Sender ");
    push_all(&mut text, &number);
    push_text(&mut text, "\n   Subject: Subject ");
    push_all(&mut text, &number);
    push_text(&mut text, "\n   Date: 2026-07-28 10:0");
    push_all(&mut text, &number);
    push_text(&mut text, " UTC\n   Summary: Body for Subject ");
    push_all(&mut text, &number);
    text
}

/// The answer about the three messages.
pub fn acceptance_canonical_mail_text() -> (r: String)
    ensures
        r@ == canonical_entry(1) + "\n"@ + canonical_entry(2) + "\n"@ + canonical_entry(3),
{
    let mut text = canonical_line(1);
    push_text(&mut text, "\n");
    push_all(&mut text, &canonical_line(2));
    push_text(&mut text, "\n");
    push_all(&mut text, &canonical_line(3));
    string_of(&text)
}

/// A fetch of a page that no search has found is refused.
pub proof fn only_discovered_pages_are_fetched(
    scenario: AcceptanceAcquisition,
    discovered: Seq<CandidateId>,
    candidate: WebCandidate,
    result: OperationResult<WebFetchEvidence>,
)
    requires
        fetches_page(scenario, discovered, candidate, result),
        !was_discovered(discovered, candidate.candidate_id@),
    ensures
        result.value is None,
        result.execution == ExecutionStatus::Failed(FailureCode::InvalidInput),
{
}

} // verus!
