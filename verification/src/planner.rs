//! What a recognised intent requires, and the attempts it may spend.

use crate::types::{
    operational, quoted_once, EvidenceBudget, EvidenceIntent, EvidencePlan, EvidenceRequirement,
    VerificationLevel, EVIDENCE_SCHEMA_VERSION,
};
use vstd::prelude::*;

verus! {

/// How many independent sources an answer needs.
pub open spec fn required_sources(verification: VerificationLevel) -> u8 {
    match verification {
        VerificationLevel::SingleAuthoritative => 1,
        VerificationLevel::Corroborated => 2,
    }
}

pub fn sources_for(verification: VerificationLevel) -> (r: u8)
    ensures
        r == required_sources(verification),
{
    match verification {
        VerificationLevel::SingleAuthoritative => 1,
        VerificationLevel::Corroborated => 2,
    }
}

/// What must be acquired for an intent that is not a quoted analysis.
pub open spec fn requirements_of(intent: EvidenceIntent) -> Seq<EvidenceRequirement> {
    match intent {
        EvidenceIntent::MailLatestHeaders { count, .. } => seq![
            EvidenceRequirement::MailHeaders { count },
        ],
        EvidenceIntent::MailLatestContent { count, .. } => seq![
            EvidenceRequirement::MailHeaders { count },
            EvidenceRequirement::MailBodies { count },
        ],
        EvidenceIntent::MailTargeted { needs_content, .. } => seq![
            EvidenceRequirement::TargetedMail { needs_content },
        ],
        EvidenceIntent::WebDirectPage { .. } => seq![EvidenceRequirement::DirectPage],
        EvidenceIntent::WebFact { verification, .. } => seq![
            EvidenceRequirement::FetchedSources { count: required_sources(verification) },
        ],
        EvidenceIntent::AnalyzeQuotedEvidence { .. } => Seq::empty(),
    }
}

/// One list attempt and the given number of body attempts.
pub open spec fn mail_budget(body_attempts: u8) -> EvidenceBudget {
    EvidenceBudget {
        mail_list_attempts: 1,
        mail_body_attempts: body_attempts,
        web_search_attempts: 0,
        web_fetch_attempts: 0,
        max_parallel_fetches: 0,
        optional_exploration_rounds: 0,
    }
}

/// The attempts that an intent may spend: at most ten message bodies, one
/// fetch of a given page, and five fetches for a question to the web.
pub open spec fn budget_of(intent: EvidenceIntent) -> EvidenceBudget {
    match intent {
        EvidenceIntent::MailLatestHeaders { .. } => mail_budget(0),
        EvidenceIntent::MailLatestContent { count, .. } => mail_budget(
            if count <= 10 {
                count
            } else {
                10
            },
        ),
        EvidenceIntent::MailTargeted { needs_content, .. } => mail_budget(
            if needs_content {
                2
            } else {
                0
            },
        ),
        EvidenceIntent::WebDirectPage { .. } => EvidenceBudget {
            mail_list_attempts: 0,
            mail_body_attempts: 0,
            web_search_attempts: 0,
            web_fetch_attempts: 1,
            max_parallel_fetches: 1,
            optional_exploration_rounds: 0,
        },
        _ => EvidenceBudget {
            mail_list_attempts: 0,
            mail_body_attempts: 0,
            web_search_attempts: 2,
            web_fetch_attempts: 5,
            max_parallel_fetches: 2,
            optional_exploration_rounds: 1,
        },
    }
}

fn mail_attempts(body_attempts: u8) -> (r: EvidenceBudget)
    ensures
        r == mail_budget(body_attempts),
{
    EvidenceBudget {
        mail_list_attempts: 1,
        mail_body_attempts: body_attempts,
        web_search_attempts: 0,
        web_fetch_attempts: 0,
        max_parallel_fetches: 0,
        optional_exploration_rounds: 0,
    }
}

fn outline(intent: &EvidenceIntent) -> (r: (Vec<EvidenceRequirement>, EvidenceBudget))
    requires
        !(intent is AnalyzeQuotedEvidence),
    ensures
        r.0@ == requirements_of(*intent),
        r.1 == budget_of(*intent),
{
    let mut requirements: Vec<EvidenceRequirement> = Vec::new();
    let budget = match intent {
        EvidenceIntent::MailLatestHeaders { count, .. } => {
            requirements.push(EvidenceRequirement::MailHeaders { count: *count });
            mail_attempts(0)
        },
        EvidenceIntent::MailLatestContent { count, .. } => {
            requirements.push(EvidenceRequirement::MailHeaders { count: *count });
            requirements.push(EvidenceRequirement::MailBodies { count: *count });
            mail_attempts(
                if *count <= 10 {
                    *count
                } else {
                    10
                },
            )
        },
        EvidenceIntent::MailTargeted { needs_content, .. } => {
            requirements.push(EvidenceRequirement::TargetedMail { needs_content: *needs_content });
            mail_attempts(
                if *needs_content {
                    2
                } else {
                    0
                },
            )
        },
        EvidenceIntent::WebDirectPage { .. } => {
            requirements.push(EvidenceRequirement::DirectPage);
            EvidenceBudget {
                mail_list_attempts: 0,
                mail_body_attempts: 0,
                web_search_attempts: 0,
                web_fetch_attempts: 1,
                max_parallel_fetches: 1,
                optional_exploration_rounds: 0,
            }
        },
        EvidenceIntent::WebFact { verification, .. } => {
            requirements.push(
                EvidenceRequirement::FetchedSources { count: sources_for(*verification) },
            );
            EvidenceBudget {
                mail_list_attempts: 0,
                mail_body_attempts: 0,
                web_search_attempts: 2,
                web_fetch_attempts: 5,
                max_parallel_fetches: 2,
                optional_exploration_rounds: 1,
            }
        },
        EvidenceIntent::AnalyzeQuotedEvidence { .. } => mail_attempts(0),
    };
    proof {
        assert(requirements@ =~= requirements_of(*intent));
    }
    (requirements, budget)
}

pub struct EvidencePlanner;

impl EvidencePlanner {
    /// The plan of an intent. A quoted analysis is planned like the intent it wraps.
    pub fn plan(intent: EvidenceIntent) -> (r: EvidencePlan)
        requires
            quoted_once(intent),
        ensures
            r.version == EVIDENCE_SCHEMA_VERSION,
            r.intent == intent,
            r.requirements@ == requirements_of(operational(intent)),
            r.budget == budget_of(operational(intent)),
    {
        let (requirements, budget) = match &intent {
            EvidenceIntent::AnalyzeQuotedEvidence { intent: inner } => outline(&**inner),
            _ => outline(&intent),
        };
        EvidencePlan { version: EVIDENCE_SCHEMA_VERSION, intent, requirements, budget }
    }
}

/// No plan mixes mail and web attempts, and none spends more than one list
/// call, ten body reads, two searches or five fetches.
pub proof fn budgets_are_bounded(intent: EvidenceIntent)
    requires
        quoted_once(intent),
    ensures
        budget_of(operational(intent)).mail_list_attempts <= 1,
        budget_of(operational(intent)).mail_body_attempts <= 10,
        budget_of(operational(intent)).web_search_attempts <= 2,
        budget_of(operational(intent)).web_fetch_attempts <= 5,
        budget_of(operational(intent)).max_parallel_fetches <= 2,
        budget_of(operational(intent)).optional_exploration_rounds <= 1,
        budget_of(operational(intent)).mail_list_attempts == 0 || budget_of(
            operational(intent),
        ).web_fetch_attempts == 0,
{
}

} // verus!
