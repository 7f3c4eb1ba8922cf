//! The values that planning, acquisition and validation exchange.

use crate::order::{
    same_texts, sort_set, sorted_set, sorted_set_holds_each_text_once, sorted_sets_agree,
    strictly_ascending,
};
use crate::spacing::{
    are_words, collapsed_ascii_is_ascii, collapsed_texts_are_spaced_once,
    collapsing_and_lowering_commute, is_spaced_once, joined_words_come_apart,
    lower_case_keeps_the_spacing, none_in, visible, words_ignore_the_space_between,
};
use crate::text::{
    all_ascii, ascii_lowercase, chars_of, collapse, collapsed, control, decimal, decimal_of,
    is_control, join, join_chars, lower, lowercase, no_ascii_capital, push_all, push_text,
    string_of, texts, trim, trimmed,
};
use crate::weburl::WebUrl;
use vstd::prelude::*;

verus! {

pub const EVIDENCE_SCHEMA_VERSION: u16 = 1;

#[derive(Clone, Copy, Debug, PartialEq, Eq, Structural)]
pub enum EvidenceOrigin {
    Chat,
    Automation,
}

#[derive(Debug, PartialEq, Eq)]
pub struct EvidenceRequest {
    pub version: u16,
    pub turn_id: String,
    pub session_id: String,
    pub original_text: String,
    pub origin: EvidenceOrigin,
}

#[derive(Clone, Copy, Debug, PartialEq, Eq, Structural)]
pub enum VerificationLevel {
    SingleAuthoritative,
    Corroborated,
}

/// What a request asks to be grounded in.
#[derive(Debug, PartialEq, Eq)]
pub enum EvidenceIntent {
    MailLatestHeaders { count: u8, unread_only: bool },
    MailLatestContent { count: u8, requested_count: u8, unread_only: bool },
    MailTargeted { query: String, needs_content: bool },
    WebDirectPage { url: WebUrl },
    WebFact { query: String, verification: VerificationLevel },
    /// The wrapped intent, with its content quoted and analysed as data.
    AnalyzeQuotedEvidence { intent: Box<EvidenceIntent> },
}

impl Clone for EvidenceIntent {
    fn clone(&self) -> (r: Self)
        ensures
            r == *self,
        decreases self,
    {
        match self {
            EvidenceIntent::MailLatestHeaders { count, unread_only } => {
                EvidenceIntent::MailLatestHeaders { count: *count, unread_only: *unread_only }
            },
            EvidenceIntent::MailLatestContent { count, requested_count, unread_only } => {
                EvidenceIntent::MailLatestContent {
                    count: *count,
                    requested_count: *requested_count,
                    unread_only: *unread_only,
                }
            },
            EvidenceIntent::MailTargeted { query, needs_content } => EvidenceIntent::MailTargeted {
                query: query.clone(),
                needs_content: *needs_content,
            },
            EvidenceIntent::WebDirectPage { url } => EvidenceIntent::WebDirectPage {
                url: url.clone(),
            },
            EvidenceIntent::WebFact { query, verification } => EvidenceIntent::WebFact {
                query: query.clone(),
                verification: *verification,
            },
            EvidenceIntent::AnalyzeQuotedEvidence { intent } => {
                let inner: EvidenceIntent = (&**intent).clone();
                EvidenceIntent::AnalyzeQuotedEvidence { intent: Box::new(inner) }
            },
        }
    }
}

/// The intent that is carried out: the wrapped one of a quoted analysis.
pub open spec fn operational(intent: EvidenceIntent) -> EvidenceIntent {
    match intent {
        EvidenceIntent::AnalyzeQuotedEvidence { intent: inner } => *inner,
        _ => intent,
    }
}

/// At most one layer of quoted analysis.
pub open spec fn quoted_once(intent: EvidenceIntent) -> bool {
    !(operational(intent) is AnalyzeQuotedEvidence)
}

#[derive(Clone, Copy, Debug, PartialEq, Eq, Structural)]
pub enum EvidenceScope {
    MailHeaders,
    MailContent,
    Web,
}

#[derive(Debug, PartialEq, Eq)]
pub struct IntentSummary {
    pub label: String,
    pub scope: EvidenceScope,
}

#[derive(Debug, PartialEq, Eq)]
pub enum Classification {
    Recognized(EvidenceIntent),
    NeedsClarification { prompt: String, alternatives: Vec<IntentSummary> },
    NotEvidenceIntent,
}

#[derive(Clone, Copy, Debug, PartialEq, Eq, Structural)]
pub enum EvidenceRequirement {
    MailHeaders { count: u8 },
    MailBodies { count: u8 },
    TargetedMail { needs_content: bool },
    DirectPage,
    FetchedSources { count: u8 },
}

#[derive(Clone, Copy, Debug, PartialEq, Eq, Structural)]
pub struct EvidenceBudget {
    pub mail_list_attempts: u8,
    pub mail_body_attempts: u8,
    pub web_search_attempts: u8,
    pub web_fetch_attempts: u8,
    pub max_parallel_fetches: u8,
    pub optional_exploration_rounds: u8,
}

#[derive(Debug, PartialEq, Eq)]
pub struct EvidencePlan {
    pub version: u16,
    pub intent: EvidenceIntent,
    pub requirements: Vec<EvidenceRequirement>,
    pub budget: EvidenceBudget,
}

#[derive(Clone, Copy, Debug, PartialEq, Eq, Structural)]
pub enum FailureCode {
    InvalidInput,
    ConnectorUnavailable,
    ConnectionReset,
    RateLimited,
    Http4xx(u16),
    Http5xx(u16),
    UnsupportedContentType,
    UnsafeDestination,
    RedirectUnsafe,
    BodyTooLarge,
    EmptyExtraction,
    ProviderChallenge,
    ParseFailure,
    ModelUnavailable,
    ModelInvalidOutput,
    AutomationFailed,
    OtherNormalized,
}

/// A failure that may pass by itself.
pub open spec fn transient_failure(failure: FailureCode) -> bool {
    failure is ConnectionReset || failure is RateLimited || failure is Http5xx
}

impl FailureCode {
    pub fn retryable(&self) -> (r: bool)
        ensures
            r == transient_failure(*self),
    {
        matches!(self, FailureCode::ConnectionReset | FailureCode::RateLimited | FailureCode::Http5xx(_))
    }
}

#[derive(Clone, Copy, Debug, PartialEq, Eq, Structural)]
pub enum ExecutionStatus {
    Succeeded,
    Failed(FailureCode),
    Denied,
    TimedOut,
}

/// A time-out or a failure that may pass by itself.
pub open spec fn transient(status: ExecutionStatus) -> bool {
    match status {
        ExecutionStatus::TimedOut => true,
        ExecutionStatus::Failed(failure) => transient_failure(failure),
        _ => false,
    }
}

impl ExecutionStatus {
    pub fn retryable(&self) -> (r: bool)
        ensures
            r == transient(*self),
    {
        match self {
            ExecutionStatus::TimedOut => true,
            ExecutionStatus::Failed(failure) => failure.retryable(),
            _ => false,
        }
    }
}

#[derive(Clone, Copy, Debug, PartialEq, Eq, Structural)]
pub enum EvidenceContribution {
    Satisfied,
    Partial,
    Empty,
    Duplicate,
    Irrelevant,
}

/// Names an operation up to spelling differences of its arguments.
#[derive(Debug, PartialEq, Eq, Hash)]
pub struct OperationKey {
    value: String,
}

impl View for OperationKey {
    type V = Seq<char>;

    closed spec fn view(&self) -> Seq<char> {
        self.value@
    }
}

impl Clone for OperationKey {
    fn clone(&self) -> (r: Self)
        ensures
            r == *self,
    {
        OperationKey { value: self.value.clone() }
    }
}

impl OperationKey {
    pub fn new(value: String) -> (r: Self)
        ensures
            r@ == value@,
    {
        OperationKey { value }
    }

    pub fn as_str(&self) -> (r: &str)
        ensures
            r@ == self@,
    {
        self.value.as_str()
    }
}

/// Not blank, and without control characters.
pub open spec fn valid_id(value: Seq<char>) -> bool {
    &&& trim(value).len() > 0
    &&& forall|i: int| 0 <= i < value.len() ==> !is_control(#[trigger] value[i])
}

pub fn is_valid_id(value: &str) -> (r: bool)
    ensures
        r == valid_id(value@),
{
    let chars = chars_of(value);
    let core = trimmed(&chars);
    if core.len() == 0 {
        return false;
    }
    let mut i: usize = 0;
    while i < chars.len()
        invariant
            i <= chars@.len(),
            chars@ == value@,
            forall|k: int| 0 <= k < i ==> !is_control(#[trigger] chars@[k]),
        decreases chars@.len() - i,
    {
        if control(chars[i]) {
            return false;
        }
        i = i + 1;
    }
    true
}

/// A text with a character that is not white space does not trim to nothing.
pub proof fn lemma_trim_keeps(value: Seq<char>, i: int)
    requires
        0 <= i < value.len(),
        !crate::text::is_white_space(value[i]),
    ensures
        trim(value).len() > 0,
{
    lemma_trim_start_keeps(value, i);
    let rest = crate::text::trim_start(value);
    lemma_trim_end_keeps(rest, i - (value.len() - rest.len()));
}

proof fn lemma_trim_start_keeps(value: Seq<char>, i: int)
    requires
        0 <= i < value.len(),
        !crate::text::is_white_space(value[i]),
    ensures
        crate::text::trim_start(value).len() <= value.len(),
        value.len() - crate::text::trim_start(value).len() <= i,
        crate::text::trim_start(value)[i - (value.len() - crate::text::trim_start(value).len())]
            == value[i],
    decreases value.len(),
{
    if crate::text::is_white_space(value[0]) {
        lemma_trim_start_keeps(value.drop_first(), i - 1);
    }
}

proof fn lemma_trim_end_keeps(value: Seq<char>, i: int)
    requires
        0 <= i < value.len(),
        !crate::text::is_white_space(value[i]),
    ensures
        crate::text::trim_end(value).len() > i,
    decreases value.len(),
{
    if crate::text::is_white_space(value.last()) {
        lemma_trim_end_keeps(value.drop_last(), i);
    }
}

/// Names the mail connector's name of a message.
#[derive(Debug, PartialEq, Eq, Hash)]
pub struct ValidatedMailId {
    value: String,
}

impl View for ValidatedMailId {
    type V = Seq<char>;

    closed spec fn view(&self) -> Seq<char> {
        self.value@
    }
}

impl Clone for ValidatedMailId {
    fn clone(&self) -> (r: Self)
        ensures
            r == *self,
    {
        proof {
            use_type_invariant(self);
        }
        ValidatedMailId { value: self.value.clone() }
    }
}

impl ValidatedMailId {
    #[verifier::type_invariant]
    spec fn well_formed(self) -> bool {
        valid_id(self.value@)
    }

    pub fn from_valid(value: String) -> (r: Self)
        requires
            valid_id(value@),
        ensures
            r@ == value@,
    {
        ValidatedMailId { value }
    }

    /// Takes a text that is not blank and holds no control character.
    pub fn new(value: String) -> (r: Result<Self, FailureCode>)
        ensures
            match r {
                Ok(id) => valid_id(value@) && id@ == value@,
                Err(failure) => !valid_id(value@) && failure == FailureCode::InvalidInput,
            },
    {
        if is_valid_id(value.as_str()) {
            Ok(ValidatedMailId { value })
        } else {
            Err(FailureCode::InvalidInput)
        }
    }

    pub fn as_str(&self) -> (r: &str)
        ensures
            r@ == self@,
            valid_id(r@),
    {
        proof {
            use_type_invariant(self);
        }
        self.value.as_str()
    }

    pub fn same(&self, other: &Self) -> (r: bool)
        ensures
            r == (self@ == other@),
    {
        self.value == other.value
    }
}

/// Names a page that may be fetched.
#[derive(Debug, PartialEq, Eq, Hash)]
pub struct CandidateId {
    value: String,
}

impl View for CandidateId {
    type V = Seq<char>;

    closed spec fn view(&self) -> Seq<char> {
        self.value@
    }
}

impl Clone for CandidateId {
    fn clone(&self) -> (r: Self)
        ensures
            r == *self,
    {
        proof {
            use_type_invariant(self);
        }
        CandidateId { value: self.value.clone() }
    }
}

impl CandidateId {
    #[verifier::type_invariant]
    spec fn well_formed(self) -> bool {
        valid_id(self.value@)
    }

    pub fn from_valid(value: String) -> (r: Self)
        requires
            valid_id(value@),
        ensures
            r@ == value@,
    {
        CandidateId { value }
    }

    /// Takes a text that is not blank and holds no control character.
    pub fn new(value: String) -> (r: Result<Self, FailureCode>)
        ensures
            match r {
                Ok(id) => valid_id(value@) && id@ == value@,
                Err(failure) => !valid_id(value@) && failure == FailureCode::InvalidInput,
            },
    {
        if is_valid_id(value.as_str()) {
            Ok(CandidateId { value })
        } else {
            Err(FailureCode::InvalidInput)
        }
    }

    pub fn as_str(&self) -> (r: &str)
        ensures
            r@ == self@,
            valid_id(r@),
    {
        proof {
            use_type_invariant(self);
        }
        self.value.as_str()
    }

    pub fn same(&self, other: &Self) -> (r: bool)
        ensures
            r == (self@ == other@),
    {
        self.value == other.value
    }
}

/// Names a piece of evidence.
#[derive(Debug, PartialEq, Eq, Hash)]
pub struct EvidenceId {
    value: String,
}

impl View for EvidenceId {
    type V = Seq<char>;

    closed spec fn view(&self) -> Seq<char> {
        self.value@
    }
}

impl Clone for EvidenceId {
    fn clone(&self) -> (r: Self)
        ensures
            r == *self,
    {
        proof {
            use_type_invariant(self);
        }
        EvidenceId { value: self.value.clone() }
    }
}

impl EvidenceId {
    #[verifier::type_invariant]
    spec fn well_formed(self) -> bool {
        valid_id(self.value@)
    }

    pub fn from_valid(value: String) -> (r: Self)
        requires
            valid_id(value@),
        ensures
            r@ == value@,
    {
        EvidenceId { value }
    }

    /// Takes a text that is not blank and holds no control character.
    pub fn new(value: String) -> (r: Result<Self, FailureCode>)
        ensures
            match r {
                Ok(id) => valid_id(value@) && id@ == value@,
                Err(failure) => !valid_id(value@) && failure == FailureCode::InvalidInput,
            },
    {
        if is_valid_id(value.as_str()) {
            Ok(EvidenceId { value })
        } else {
            Err(FailureCode::InvalidInput)
        }
    }

    pub fn as_str(&self) -> (r: &str)
        ensures
            r@ == self@,
            valid_id(r@),
    {
        proof {
            use_type_invariant(self);
        }
        self.value.as_str()
    }

    pub fn same(&self, other: &Self) -> (r: bool)
        ensures
            r == (self@ == other@),
    {
        self.value == other.value
    }
}

/// Names the publisher of a page.
#[derive(Debug, PartialEq, Eq, Hash)]
pub struct SourceIdentity {
    value: String,
}

impl View for SourceIdentity {
    type V = Seq<char>;

    closed spec fn view(&self) -> Seq<char> {
        self.value@
    }
}

impl Clone for SourceIdentity {
    fn clone(&self) -> (r: Self)
        ensures
            r == *self,
    {
        proof {
            use_type_invariant(self);
        }
        SourceIdentity { value: self.value.clone() }
    }
}

impl SourceIdentity {
    #[verifier::type_invariant]
    spec fn well_formed(self) -> bool {
        valid_id(self.value@)
    }

    pub fn from_valid(value: String) -> (r: Self)
        requires
            valid_id(value@),
        ensures
            r@ == value@,
    {
        SourceIdentity { value }
    }

    /// Takes a text that is not blank and holds no control character.
    pub fn new(value: String) -> (r: Result<Self, FailureCode>)
        ensures
            match r {
                Ok(id) => valid_id(value@) && id@ == value@,
                Err(failure) => !valid_id(value@) && failure == FailureCode::InvalidInput,
            },
    {
        if is_valid_id(value.as_str()) {
            Ok(SourceIdentity { value })
        } else {
            Err(FailureCode::InvalidInput)
        }
    }

    pub fn as_str(&self) -> (r: &str)
        ensures
            r@ == self@,
            valid_id(r@),
    {
        proof {
            use_type_invariant(self);
        }
        self.value.as_str()
    }

    pub fn same(&self, other: &Self) -> (r: bool)
        ensures
            r == (self@ == other@),
    {
        self.value == other.value
    }
}

#[derive(Clone, Copy, Debug, PartialEq, Eq, Structural)]
pub enum WebProvider {
    DuckDuckGo,
    Wikipedia,
    Tavily,
    Direct,
}

pub open spec fn provider_name(provider: WebProvider) -> Seq<char> {
    match provider {
        WebProvider::DuckDuckGo => "duckduckgo"@,
        WebProvider::Wikipedia => "wikipedia"@,
        WebProvider::Tavily => "tavily"@,
        WebProvider::Direct => "direct"@,
    }
}

impl WebProvider {
    pub fn as_str(&self) -> (r: &'static str)
        ensures
            r@ == provider_name(*self),
    {
        match self {
            WebProvider::DuckDuckGo => "duckduckgo",
            WebProvider::Wikipedia => "wikipedia",
            WebProvider::Tavily => "tavily",
            WebProvider::Direct => "direct",
        }
    }
}

/// The providers of a search, in the order in which they are asked.
#[derive(Debug, PartialEq, Eq)]
pub struct ProviderSet(pub Vec<WebProvider>);

pub open spec fn provider_names(providers: Seq<WebProvider>) -> Seq<Seq<char>> {
    Seq::new(providers.len(), |i: int| provider_name(providers[i]))
}

/// The names in ascending order, each once, with a plus sign between two.
pub open spec fn provider_key(providers: Seq<WebProvider>) -> Seq<char> {
    join(sorted_set(provider_names(providers)), "+"@)
}

impl ProviderSet {
    pub fn key_part(&self) -> (r: String)
        ensures
            r@ == provider_key(self.0@),
    {
        let mut names: Vec<Vec<char>> = Vec::new();
        let mut i: usize = 0;
        while i < self.0.len()
            invariant
                i <= self.0@.len(),
                names@.len() == i,
                forall|k: int| 0 <= k < i ==> (#[trigger] names@[k])@ == provider_name(self.0@[k]),
            decreases self.0@.len() - i,
        {
            names.push(chars_of(self.0[i].as_str()));
            i = i + 1;
        }
        proof {
            assert(texts(names@) =~= provider_names(self.0@));
        }
        let ordered = sort_set(&names);
        let joined = join_chars(&ordered, "+");
        string_of(&joined)
    }
}

impl Clone for ProviderSet {
    fn clone(&self) -> (r: Self)
        ensures
            r.0@ == self.0@,
    {
        let mut copy: Vec<WebProvider> = Vec::new();
        let mut i: usize = 0;
        while i < self.0.len()
            invariant
                i <= self.0@.len(),
                copy@ == self.0@.take(i as int),
            decreases self.0@.len() - i,
        {
            copy.push(self.0[i]);
            proof {
                assert(self.0@.take(i as int + 1) =~= self.0@.take(i as int).push(self.0@[i as int]));
            }
            i = i + 1;
        }
        proof {
            assert(self.0@.take(self.0@.len() as int) =~= self.0@);
        }
        ProviderSet(copy)
    }
}

/// One step of acquisition.
#[derive(Debug, PartialEq, Eq)]
pub enum EvidenceOperation {
    MailList { limit: u8, unread_only: bool },
    MailSearch { normalized_query: String, limit: u8 },
    MailRead { message_id: ValidatedMailId },
    WebSearch { normalized_query: String, provider_set: ProviderSet },
    WebFetch { candidate_id: CandidateId },
}

/// One space between words, in lower case.
pub open spec fn key_part(value: Seq<char>) -> Seq<char> {
    lowercase(collapse(value))
}

/// One space between words, with the capitals of ASCII in lower case.
pub open spec fn ascii_key_part(value: Seq<char>) -> Seq<char> {
    ascii_lowercase(collapse(value))
}

/// The form of a query in a key. What is said of ASCII text alone is what
/// `str::to_lowercase` documents.
pub fn normalize_key_part(value: &str) -> (r: String)
    ensures
        r@ == key_part(value@),
        all_ascii(value@) ==> r@ == ascii_key_part(value@),
        all_ascii(value@) ==> is_spaced_once(r@),
        no_ascii_capital(r@),
{
    let chars = chars_of(value);
    let spaced = collapsed(&chars);
    let text = string_of(&spaced);
    proof {
        collapsed_texts_are_spaced_once(value@);
        lower_case_keeps_the_spacing(collapse(value@));
        if all_ascii(value@) {
            collapsed_ascii_is_ascii(value@);
        }
    }
    let lowered = lower(text.as_str());
    string_of(&lowered)
}

pub open spec fn bool_text(value: bool) -> Seq<char> {
    if value {
        "true"@
    } else {
        "false"@
    }
}

pub open spec fn operation_key(operation: EvidenceOperation) -> Seq<char> {
    match operation {
        EvidenceOperation::MailList { limit, unread_only } => "mail_list:"@ + decimal(limit as nat)
            + ":"@ + bool_text(unread_only),
        EvidenceOperation::MailSearch { normalized_query, limit } => "mail_search:"@ + decimal(
            limit as nat,
        ) + ":"@ + key_part(normalized_query@),
        EvidenceOperation::MailRead { message_id } => "mail_read:"@ + message_id@,
        EvidenceOperation::WebSearch { normalized_query, provider_set } => "web_search:"@
            + provider_key(provider_set.0@) + ":"@ + key_part(normalized_query@),
        EvidenceOperation::WebFetch { candidate_id } => "web_fetch:"@ + candidate_id@,
    }
}

impl Clone for EvidenceOperation {
    fn clone(&self) -> (r: Self)
        ensures
            operation_key(r) == operation_key(*self),
            match (*self, r) {
                (
                    EvidenceOperation::WebSearch { normalized_query: query, provider_set: set },
                    EvidenceOperation::WebSearch { normalized_query, provider_set },
                ) => normalized_query == query && provider_set.0@ == set.0@,
                (EvidenceOperation::WebSearch { .. }, _) => false,
                _ => r == *self,
            },
    {
        match self {
            EvidenceOperation::MailList { limit, unread_only } => EvidenceOperation::MailList {
                limit: *limit,
                unread_only: *unread_only,
            },
            EvidenceOperation::MailSearch { normalized_query, limit } => {
                EvidenceOperation::MailSearch {
                    normalized_query: normalized_query.clone(),
                    limit: *limit,
                }
            },
            EvidenceOperation::MailRead { message_id } => EvidenceOperation::MailRead {
                message_id: message_id.clone(),
            },
            EvidenceOperation::WebSearch { normalized_query, provider_set } => {
                EvidenceOperation::WebSearch {
                    normalized_query: normalized_query.clone(),
                    provider_set: provider_set.clone(),
                }
            },
            EvidenceOperation::WebFetch { candidate_id } => EvidenceOperation::WebFetch {
                candidate_id: candidate_id.clone(),
            },
        }
    }
}

impl EvidenceOperation {
    pub fn key(&self) -> (r: OperationKey)
        ensures
            r@ == operation_key(*self),
    {
        let mut out: Vec<char> = Vec::new();
        match self {
            EvidenceOperation::MailList { limit, unread_only } => {
                push_text(&mut out, "mail_list:");
                push_all(&mut out, &decimal_of(*limit as u64));
                push_text(&mut out, ":");
                if *unread_only {
                    push_text(&mut out, "true");
                } else {
                    push_text(&mut out, "false");
                }
            },
            EvidenceOperation::MailSearch { normalized_query, limit } => {
                push_text(&mut out, "mail_search:");
                push_all(&mut out, &decimal_of(*limit as u64));
                push_text(&mut out, ":");
                let query = normalize_key_part(normalized_query.as_str());
                push_text(&mut out, query.as_str());
            },
            EvidenceOperation::MailRead { message_id } => {
                push_text(&mut out, "mail_read:");
                push_text(&mut out, message_id.as_str());
            },
            EvidenceOperation::WebSearch { normalized_query, provider_set } => {
                push_text(&mut out, "web_search:");
                let providers = provider_set.key_part();
                push_text(&mut out, providers.as_str());
                push_text(&mut out, ":");
                let query = normalize_key_part(normalized_query.as_str());
                push_text(&mut out, query.as_str());
            },
            EvidenceOperation::WebFetch { candidate_id } => {
                push_text(&mut out, "web_fetch:");
                push_text(&mut out, candidate_id.as_str());
            },
        }
        proof {
            assert(out@ =~= operation_key(*self));
        }
        OperationKey::new(string_of(&out))
    }
}

/// What came of an operation: whether it ran, what it contributed, and its value.
#[derive(Debug, PartialEq, Eq)]
pub struct OperationResult<T> {
    pub key: OperationKey,
    pub attempts: u8,
    pub execution: ExecutionStatus,
    pub contribution: EvidenceContribution,
    pub value: Option<T>,
    pub duration_ms: u64,
    /// How many items came back that could not be used.
    pub invalid_items: u8,
}

impl<T> OperationResult<T> {
    pub fn succeeded(key: OperationKey, value: T) -> (r: Self)
        ensures
            r == (OperationResult {
                key,
                attempts: 1,
                execution: ExecutionStatus::Succeeded,
                contribution: EvidenceContribution::Satisfied,
                value: Some(value),
                duration_ms: 0,
                invalid_items: 0,
            }),
    {
        OperationResult {
            key,
            attempts: 1,
            execution: ExecutionStatus::Succeeded,
            contribution: EvidenceContribution::Satisfied,
            value: Some(value),
            duration_ms: 0,
            invalid_items: 0,
        }
    }

    pub fn without_value(
        key: OperationKey,
        execution: ExecutionStatus,
        contribution: EvidenceContribution,
    ) -> (r: Self)
        ensures
            r == (OperationResult {
                key,
                attempts: 1,
                execution,
                contribution,
                value: None::<T>,
                duration_ms: 0,
                invalid_items: 0,
            }),
    {
        OperationResult {
            key,
            attempts: 1,
            execution,
            contribution,
            value: None,
            duration_ms: 0,
            invalid_items: 0,
        }
    }

    /// An operation that was not run because one with its key was.
    pub fn suppressed_duplicate(key: OperationKey) -> (r: Self)
        ensures
            r == (OperationResult {
                key,
                attempts: 0,
                execution: ExecutionStatus::Succeeded,
                contribution: EvidenceContribution::Duplicate,
                value: None::<T>,
                duration_ms: 0,
                invalid_items: 0,
            }),
    {
        OperationResult {
            key,
            attempts: 0,
            execution: ExecutionStatus::Succeeded,
            contribution: EvidenceContribution::Duplicate,
            value: None,
            duration_ms: 0,
            invalid_items: 0,
        }
    }

    /// One retry, after a transient failure, while the budget lasts.
    pub fn retry_permitted(&self, remaining_global_budget: u8) -> (r: bool)
        ensures
            r == retry_allowed(*self, remaining_global_budget),
    {
        remaining_global_budget > 0 && self.attempts < 2 && self.execution.retryable()
    }
}

pub open spec fn retry_allowed<T>(result: OperationResult<T>, remaining_budget: u8) -> bool {
    remaining_budget > 0 && result.attempts < 2 && transient(result.execution)
}

#[derive(Debug, PartialEq, Eq)]
pub struct MailHeaderEvidence {
    pub evidence_id: EvidenceId,
    pub connector_id: ValidatedMailId,
    pub sender: String,
    pub subject: String,
    /// Seconds since the Unix epoch.
    pub received_at: i64,
}

impl Clone for MailHeaderEvidence {
    fn clone(&self) -> (r: Self)
        ensures
            r == *self,
    {
        MailHeaderEvidence {
            evidence_id: self.evidence_id.clone(),
            connector_id: self.connector_id.clone(),
            sender: self.sender.clone(),
            subject: self.subject.clone(),
            received_at: self.received_at,
        }
    }
}

#[derive(Clone, Copy, Debug, PartialEq, Eq, Structural)]
pub enum BodyState {
    Readable,
    UnavailableLocally,
    Empty,
}

/// Where a message body was read.
#[derive(Clone, Copy, Debug, PartialEq, Eq, Structural)]
pub enum BodyOrigin {
    LocalEmlx,
    MailAutomation,
    Unavailable,
}

pub open spec fn origin_name(origin: BodyOrigin) -> Seq<char> {
    match origin {
        BodyOrigin::LocalEmlx => "local_emlx"@,
        BodyOrigin::MailAutomation => "mail_automation"@,
        BodyOrigin::Unavailable => "unavailable"@,
    }
}

impl BodyOrigin {
    pub fn as_str(&self) -> (r: &'static str)
        ensures
            r@ == origin_name(*self),
    {
        match self {
            BodyOrigin::LocalEmlx => "local_emlx",
            BodyOrigin::MailAutomation => "mail_automation",
            BodyOrigin::Unavailable => "unavailable",
        }
    }
}

#[derive(Debug, PartialEq, Eq)]
pub struct MailBodyEvidence {
    pub evidence_id: EvidenceId,
    pub header_id: EvidenceId,
    pub body: String,
    pub body_state: BodyState,
    pub body_origin: BodyOrigin,
}

impl Clone for MailBodyEvidence {
    fn clone(&self) -> (r: Self)
        ensures
            r == *self,
    {
        MailBodyEvidence {
            evidence_id: self.evidence_id.clone(),
            header_id: self.header_id.clone(),
            body: self.body.clone(),
            body_state: self.body_state,
            body_origin: self.body_origin,
        }
    }
}

#[derive(Clone, Copy, Debug, PartialEq, Eq, Structural)]
pub enum ProviderStatus {
    Succeeded { result_count: u16 },
    Empty,
    Challenged,
    TimedOut,
    InvalidResponse,
    Failed(FailureCode),
}

#[derive(Clone, Copy, Debug, PartialEq, Eq, Structural)]
pub struct ProviderResult {
    pub provider: WebProvider,
    pub status: ProviderStatus,
    pub duration_ms: u64,
}

/// A page that a search found. Its title and snippet are discovery data only.
#[derive(Debug, PartialEq, Eq)]
pub struct WebCandidate {
    pub candidate_id: CandidateId,
    pub provider: WebProvider,
    pub rank: u16,
    pub title: String,
    pub requested_url: WebUrl,
    pub snippet: String,
}

impl Clone for WebCandidate {
    fn clone(&self) -> (r: Self)
        ensures
            r == *self,
    {
        WebCandidate {
            candidate_id: self.candidate_id.clone(),
            provider: self.provider,
            rank: self.rank,
            title: self.title.clone(),
            requested_url: self.requested_url.clone(),
            snippet: self.snippet.clone(),
        }
    }
}

pub fn clone_candidates(candidates: &Vec<WebCandidate>) -> (r: Vec<WebCandidate>)
    ensures
        r@ == candidates@,
{
    let mut r: Vec<WebCandidate> = Vec::new();
    let mut i: usize = 0;
    while i < candidates.len()
        invariant
            i <= candidates@.len(),
            r@.len() == i,
            forall|k: int| 0 <= k < i ==> r@[k] == candidates@[k],
        decreases candidates@.len() - i,
    {
        r.push(candidates[i].clone());
        i = i + 1;
    }
    r
}

#[derive(Debug, PartialEq, Eq)]
pub struct WebSearchResult {
    pub providers: Vec<ProviderResult>,
    pub candidates: Vec<WebCandidate>,
}

#[derive(Clone, Copy, Debug, PartialEq, Eq, Structural)]
pub enum SourceAuthority {
    FirstParty,
    AuthoritativeReference,
    Other,
}

#[derive(Clone, Copy, Debug, PartialEq, Eq, Structural)]
pub enum ExtractionStatus {
    Readable,
    ReadableTruncated,
    Empty,
    Unsupported,
}

pub open spec fn readable(status: ExtractionStatus) -> bool {
    status is Readable || status is ReadableTruncated
}

pub fn is_readable(status: ExtractionStatus) -> (r: bool)
    ensures
        r == readable(status),
{
    matches!(status, ExtractionStatus::Readable | ExtractionStatus::ReadableTruncated)
}

#[derive(Clone, Copy, Debug, PartialEq, Eq, Structural)]
pub enum ExtractionLowQualityReason {
    TooLittleUsefulText,
    MostlyBoilerplate,
    LowQueryCoverage,
    NoClaimRelevantPassage,
}

#[derive(Clone, Copy, Debug, PartialEq, Eq, Structural)]
pub struct ExtractionQuality {
    pub useful_text_length: u64,
    pub boilerplate_ratio_basis_points: u16,
    pub query_coverage_basis_points: u16,
    pub low_quality_reason: Option<ExtractionLowQualityReason>,
}

/// How far a passage bears on a question.
#[derive(Clone, Copy, Debug, PartialEq, Eq, Structural)]
pub struct ClaimEvidenceRelevance {
    pub query_coverage_basis_points: u16,
    pub numeric_or_date_relevant: bool,
    pub eligible: bool,
}

#[derive(Debug, PartialEq, Eq)]
pub struct EvidencePassage {
    pub passage_id: EvidenceId,
    pub text: String,
    pub truncated: bool,
}

impl Clone for EvidencePassage {
    fn clone(&self) -> (r: Self)
        ensures
            r == *self,
    {
        EvidencePassage {
            passage_id: self.passage_id.clone(),
            text: self.text.clone(),
            truncated: self.truncated,
        }
    }
}

#[derive(Debug, PartialEq, Eq)]
pub struct ValidatedReference {
    pub url: WebUrl,
    pub label: String,
}

impl Clone for ValidatedReference {
    fn clone(&self) -> (r: Self)
        ensures
            r == *self,
    {
        ValidatedReference { url: self.url.clone(), label: self.label.clone() }
    }
}

/// A page as it was fetched and read.
#[derive(Debug, PartialEq, Eq)]
pub struct WebFetchEvidence {
    pub evidence_id: EvidenceId,
    pub candidate_id: CandidateId,
    pub requested_url: WebUrl,
    pub final_url: WebUrl,
    pub redirect_chain: Vec<WebUrl>,
    pub http_status: u16,
    pub content_type: String,
    pub bytes_read: u64,
    pub characters_extracted: u64,
    pub extraction: ExtractionStatus,
    pub quality: ExtractionQuality,
    /// The page names the organisation that publishes it.
    pub page_owner_identity_bound: bool,
    pub authority: SourceAuthority,
    pub source_identity: SourceIdentity,
    pub passages: Vec<EvidencePassage>,
    pub links: Vec<ValidatedReference>,
}

#[derive(Debug, PartialEq, Eq)]
pub struct EvidenceConflict {
    pub evidence_ids: Vec<EvidenceId>,
    pub description: String,
}

/// All that the operations of a turn returned.
#[derive(Debug, PartialEq, Eq)]
pub struct EvidenceResults {
    pub mail_list: Vec<OperationResult<Vec<MailHeaderEvidence>>>,
    pub mail_search: Vec<OperationResult<Vec<MailHeaderEvidence>>>,
    pub mail_bodies: Vec<OperationResult<MailBodyEvidence>>,
    pub web_searches: Vec<OperationResult<WebSearchResult>>,
    pub web_fetches: Vec<OperationResult<WebFetchEvidence>>,
    pub conflicts: Vec<EvidenceConflict>,
}

impl EvidenceResults {
    pub fn none() -> (r: Self)
        ensures
            r.mail_list@.len() == 0,
            r.mail_search@.len() == 0,
            r.mail_bodies@.len() == 0,
            r.web_searches@.len() == 0,
            r.web_fetches@.len() == 0,
            r.conflicts@.len() == 0,
    {
        EvidenceResults {
            mail_list: Vec::new(),
            mail_search: Vec::new(),
            mail_bodies: Vec::new(),
            web_searches: Vec::new(),
            web_fetches: Vec::new(),
            conflicts: Vec::new(),
        }
    }
}

#[derive(Clone, Copy, Debug, PartialEq, Eq, Structural)]
pub enum Completeness {
    Complete,
    Partial,
}

#[derive(Clone, Copy, Debug, PartialEq, Eq, Structural)]
pub struct EvidenceCounts {
    pub mail_headers: u8,
    pub mail_bodies: u8,
    pub web_sources: u8,
}

#[derive(Clone, Copy, Debug, PartialEq, Eq, Structural)]
pub enum ShortfallReason {
    Empty,
    Denied,
    Unavailable,
    BodyUnavailable,
    Duplicate,
    Malformed,
    VerificationFailed,
    Ambiguous,
    BatchLimit,
    ExcludedAsInstruction,
}

#[derive(Clone, Copy, Debug, PartialEq, Eq, Structural)]
pub struct EvidenceShortfall {
    pub requirement: EvidenceRequirement,
    pub missing_count: u8,
    pub reason: ShortfallReason,
}

/// A message as it enters an answer: without the connector's name of it.
#[derive(Debug, PartialEq, Eq)]
pub struct MailBundleItem {
    pub evidence_id: EvidenceId,
    pub sender: String,
    pub subject: String,
    pub received_at: i64,
    pub body: Option<String>,
    pub body_state: Option<BodyState>,
    pub body_origin: Option<BodyOrigin>,
}

#[derive(Debug, PartialEq, Eq)]
pub struct WebBundleItem {
    pub evidence: WebFetchEvidence,
}

#[derive(Debug, PartialEq, Eq)]
pub struct EvidenceExclusion {
    pub evidence_id: EvidenceId,
    pub reason: String,
}

#[derive(Debug, PartialEq, Eq)]
pub struct CitationTarget {
    pub evidence_id: EvidenceId,
    pub url: WebUrl,
}

#[derive(Debug, PartialEq, Eq)]
pub struct EvidenceBundle {
    pub version: u16,
    pub turn_id: String,
    pub intent: EvidenceIntent,
    pub completeness: Completeness,
    pub requested: EvidenceCounts,
    pub acquired: EvidenceCounts,
    pub missing: Vec<EvidenceShortfall>,
    pub mail: Vec<MailBundleItem>,
    pub web: Vec<WebBundleItem>,
    pub conflicts: Vec<EvidenceConflict>,
    pub exclusions: Vec<EvidenceExclusion>,
    pub citation_allowlist: Vec<CitationTarget>,
}

#[derive(Clone, Copy, Debug, PartialEq, Eq, Structural)]
pub enum RecoveryKind {
    Empty,
    Unavailable,
    Denied,
    InvalidInput,
    Malformed,
    VerificationShortfall,
    NoUsableEvidence,
}

#[derive(Debug, PartialEq, Eq)]
pub struct RecoveryOutcome {
    pub kind: RecoveryKind,
    pub requested: EvidenceCounts,
    pub message: String,
    pub missing: Vec<EvidenceShortfall>,
    pub exclusions: Vec<EvidenceExclusion>,
}

#[derive(Debug, PartialEq, Eq)]
pub enum ValidationOutcome {
    Bundle(Box<EvidenceBundle>),
    Recovery(RecoveryOutcome),
    Clarification { headers: Vec<MailHeaderEvidence>, prompt: String },
}

/// How far the grounded answer is supported.
#[derive(Clone, Copy, Debug, PartialEq, Eq, Structural)]
pub enum CanonicalOutcomeStatus {
    Verified,
    Conflict,
    Partial,
    VerificationShortfall,
}

/// The answer that the evidence alone supports.
#[derive(Debug, PartialEq, Eq)]
pub struct CanonicalGroundedAnswer {
    pub text: String,
    pub completeness: Completeness,
    pub outcome_status: CanonicalOutcomeStatus,
    pub covered_evidence_ids: Vec<EvidenceId>,
    pub citation_targets: Vec<CitationTarget>,
    pub conflicts: Vec<EvidenceConflict>,
    pub shortfalls: Vec<EvidenceShortfall>,
    pub source_identities: Vec<SourceIdentity>,
}

/// A query in ASCII has one form in a key: it is spaced once, and taking it
/// again, or in other capitals, changes nothing.
pub proof fn key_parts_have_one_form(value: Seq<char>)
    ensures
        is_spaced_once(ascii_key_part(value)),
        ascii_key_part(ascii_key_part(value)) == ascii_key_part(value),
        ascii_key_part(ascii_lowercase(value)) == ascii_key_part(value),
{
    let spaced = collapse(value);
    collapsed_texts_are_spaced_once(value);
    lower_case_keeps_the_spacing(spaced);
    collapsed_texts_are_spaced_once(ascii_key_part(value));
    collapsing_and_lowering_commute(value);
}

/// A key in lower case that is spaced once is taken as it is, whatever letters it
/// has.
pub proof fn lower_case_keys_stay(value: Seq<char>)
    ensures
        is_spaced_once(value) && lowercase(value) == value ==> key_part(value) == value,
{
    collapsed_texts_are_spaced_once(value);
}

/// What white space stands between the words of a query, or around them, does not
/// show in its key.
pub proof fn key_parts_ignore_spacing(first: Seq<char>, gap: Seq<char>, second: Seq<char>)
    requires
        gap.len() > 0,
        none_in(gap, visible()),
    ensures
        key_part(first + gap + second) == key_part(first + " "@ + second),
        key_part(gap + second) == key_part(second),
        key_part(first + gap) == key_part(first),
{
    words_ignore_the_space_between(first, gap, second);
}

/// A character that can stand in the name of a provider.
spec fn name_char() -> spec_fn(char) -> bool {
    |c: char| c != '+'
}

proof fn lemma_provider_names(a: WebProvider, b: WebProvider)
    ensures
        provider_name(a).len() > 0,
        forall|i: int| 0 <= i < provider_name(a).len() ==> #[trigger] provider_name(a)[i] != '+',
        provider_name(a) == provider_name(b) ==> a == b,
{
    reveal_strlit("duckduckgo");
    reveal_strlit("wikipedia");
    reveal_strlit("tavily");
    reveal_strlit("direct");
    if provider_name(a) == provider_name(b) {
        assert(provider_name(a)[0] == provider_name(b)[0]);
        assert(provider_name(a)[1] == provider_name(b)[1]);
    }
}

proof fn lemma_set_names(providers: Seq<WebProvider>)
    ensures
        are_words(sorted_set(provider_names(providers)), name_char()),
{
    let names = provider_names(providers);
    let set = sorted_set(names);
    sorted_set_holds_each_text_once(names);
    assert forall|i: int| 0 <= i < set.len() implies (#[trigger] set[i]).len() > 0
        && crate::spacing::all_in(set[i], name_char()) by {
        assert(set.contains(set[i]));
        assert(names.contains(set[i]));
        let k = choose|k: int| 0 <= k < names.len() && names[k] == set[i];
        lemma_provider_names(providers[k], providers[k]);
    }
}

/// The key of a set of providers goes by what the set holds: its names ascend,
/// each of them once, and two sets have one key if and only if they hold the same
/// providers.
pub proof fn provider_keys_go_by_the_set(first: Seq<WebProvider>, second: Seq<WebProvider>)
    ensures
        strictly_ascending(sorted_set(provider_names(first))),
        same_texts(sorted_set(provider_names(first)), provider_names(first)),
        provider_key(first) == provider_key(second) <==> (forall|p: WebProvider|
            #[trigger] first.contains(p) <==> second.contains(p)),
        first.len() == 0 ==> provider_key(first) == ""@,
{
    let a = provider_names(first);
    let b = provider_names(second);
    reveal_strlit("+");
    reveal_strlit("");
    assert("+"@ =~= seq!['+']);
    sorted_set_holds_each_text_once(a);
    sorted_sets_agree(a, b);
    lemma_set_names(first);
    lemma_set_names(second);
    joined_words_come_apart(sorted_set(a), name_char(), '+');
    joined_words_come_apart(sorted_set(b), name_char(), '+');
    if provider_key(first) == provider_key(second) {
        assert(same_texts(a, b));
        assert forall|p: WebProvider| #[trigger] first.contains(p) <==> second.contains(p) by {
            if first.contains(p) {
                let k = choose|k: int| 0 <= k < first.len() && first[k] == p;
                assert(a[k] == provider_name(p));
                assert(a.contains(provider_name(p)));
                let m = choose|m: int| 0 <= m < b.len() && b[m] == provider_name(p);
                lemma_provider_names(p, second[m]);
            }
            if second.contains(p) {
                let k = choose|k: int| 0 <= k < second.len() && second[k] == p;
                assert(b[k] == provider_name(p));
                assert(b.contains(provider_name(p)));
                assert(a.contains(provider_name(p)));
                let m = choose|m: int| 0 <= m < a.len() && a[m] == provider_name(p);
                lemma_provider_names(p, first[m]);
            }
        }
    }
    if forall|p: WebProvider| #[trigger] first.contains(p) <==> second.contains(p) {
        assert forall|t: Seq<char>| #[trigger] a.contains(t) <==> b.contains(t) by {
            if a.contains(t) {
                let k = choose|k: int| 0 <= k < a.len() && a[k] == t;
                assert(first.contains(first[k]));
                let m = choose|m: int| 0 <= m < second.len() && second[m] == first[k];
                assert(b[m] == t);
            }
            if b.contains(t) {
                let k = choose|k: int| 0 <= k < b.len() && b[k] == t;
                assert(second.contains(second[k]));
                assert(first.contains(second[k]));
                let m = choose|m: int| 0 <= m < first.len() && first[m] == second[k];
                assert(a[m] == t);
            }
        }
    }
    if first.len() == 0 {
        if sorted_set(a).len() > 0 {
            assert(sorted_set(a).contains(sorted_set(a)[0]));
            assert(a.contains(sorted_set(a)[0]));
        }
        assert(provider_key(first) =~= ""@);
    }
}

/// A search or list operation has one key whatever the spacing of its query.
pub proof fn operation_key_ignores_spacing(
    first: String,
    second: String,
    limit: u8,
    providers: ProviderSet,
)
    requires
        crate::text::words(first@) == crate::text::words(second@),
    ensures
        operation_key(EvidenceOperation::MailSearch { normalized_query: first, limit })
            == operation_key(EvidenceOperation::MailSearch { normalized_query: second, limit }),
        operation_key(
            EvidenceOperation::WebSearch { normalized_query: first, provider_set: providers },
        ) == operation_key(
            EvidenceOperation::WebSearch { normalized_query: second, provider_set: providers },
        ),
{
}

/// A result that was retried once is not retried again, nor is one that the
/// policy denied or that succeeded.
pub proof fn no_second_retry<T>(result: OperationResult<T>, budget: u8)
    requires
        result.attempts >= 2 || result.execution is Denied || result.execution is Succeeded
            || budget == 0,
    ensures
        !retry_allowed(result, budget),
{
}

} // verus!
