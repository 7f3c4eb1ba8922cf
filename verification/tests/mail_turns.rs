use bagent_evidence::gate::{decide, operation_args, user_decides, ApprovalLevel, GateDecision};
use bagent_evidence::json::Json;
use bagent_evidence::mail_plan::{
    first_decided, first_done, is_mail_intent, proceed_mail, read_decided, read_done,
    reread_decided, reread_done, start_mail_turn, MailStep,
};
use bagent_evidence::planner::EvidencePlanner;
use bagent_evidence::types::{
    BodyOrigin, BodyState, Completeness, EvidenceContribution, EvidenceId, EvidenceIntent,
    EvidenceOperation, EvidencePlan, ExecutionStatus, FailureCode, MailBodyEvidence,
    MailHeaderEvidence, OperationResult, ProviderSet, RecoveryKind, ShortfallReason,
    ValidatedMailId, ValidationOutcome, VerificationLevel, WebProvider,
};
use bagent_evidence::web_plan::EvidenceTurnOutcome;

fn evidence_id(value: &str) -> EvidenceId {
    EvidenceId::new(value.to_string()).unwrap()
}

/// A mailbox of three messages that records what is asked of it.
struct Mailbox {
    headers: Vec<MailHeaderEvidence>,
    log: Vec<String>,
    deny_all: bool,
    deny_read_number: Option<usize>,
    reads_asked: usize,
    reads_run: usize,
    first_read_times_out: bool,
    every_read_times_out: bool,
}

impl Mailbox {
    fn new() -> Self {
        let headers = (1..=3)
            .map(|index| MailHeaderEvidence {
                evidence_id: evidence_id(&format!("header-{index}")),
                connector_id: ValidatedMailId::new(format!("fixture-mail-{index}")).unwrap(),
                sender: format!("Sender {index}"),
                subject: format!("Subject {index}"),
                received_at: 1_785_232_800 + 60 * index,
            })
            .collect();
        Mailbox {
            headers,
            log: Vec::new(),
            deny_all: false,
            deny_read_number: None,
            reads_asked: 0,
            reads_run: 0,
            first_read_times_out: false,
            every_read_times_out: false,
        }
    }

    fn allow(&mut self, operation: &EvidenceOperation) -> bool {
        if self.deny_all {
            return false;
        }
        self.log.push(format!("gate:{}", operation.key().as_str()));
        if matches!(operation, EvidenceOperation::MailRead { .. }) {
            self.reads_asked += 1;
            if self.deny_read_number == Some(self.reads_asked) {
                return false;
            }
        }
        true
    }

    fn list(&mut self, operation: &EvidenceOperation) -> OperationResult<Vec<MailHeaderEvidence>> {
        self.log
            .push(format!("execute:{}", operation.key().as_str()));
        let limit = match operation {
            EvidenceOperation::MailList { limit, .. } => usize::from(*limit),
            _ => unreachable!(),
        };
        OperationResult::succeeded(
            operation.key(),
            self.headers.iter().take(limit).cloned().collect(),
        )
    }

    fn read(&mut self, message_id: &ValidatedMailId) -> OperationResult<MailBodyEvidence> {
        let operation = EvidenceOperation::MailRead {
            message_id: message_id.clone(),
        };
        self.log
            .push(format!("execute:{}", operation.key().as_str()));
        self.reads_run += 1;
        if self.every_read_times_out || (self.first_read_times_out && self.reads_run == 1) {
            return OperationResult::without_value(
                operation.key(),
                ExecutionStatus::TimedOut,
                EvidenceContribution::Empty,
            );
        }
        match self
            .headers
            .iter()
            .find(|header| header.connector_id == *message_id)
        {
            Some(header) => OperationResult::succeeded(
                operation.key(),
                MailBodyEvidence {
                    evidence_id: evidence_id(&format!("body-{}", header.evidence_id.as_str())),
                    header_id: header.evidence_id.clone(),
                    body: format!("Body for {}", header.subject),
                    body_state: BodyState::Readable,
                    body_origin: BodyOrigin::LocalEmlx,
                },
            ),
            None => OperationResult::without_value(
                operation.key(),
                ExecutionStatus::Failed(FailureCode::InvalidInput),
                EvidenceContribution::Empty,
            ),
        }
    }

    fn count(&self, prefix: &str) -> usize {
        self.log
            .iter()
            .filter(|entry| entry.starts_with(prefix))
            .count()
    }
}

fn execute_mail_plan(
    mailbox: &mut Mailbox,
    turn_id: &str,
    plan: &EvidencePlan,
) -> EvidenceTurnOutcome {
    let mut step = start_mail_turn(plan);
    loop {
        step = match step {
            MailStep::AskFirst { operation } => {
                let allowed = mailbox.allow(&operation);
                first_decided(plan, operation, allowed)
            }
            MailStep::RunFirst { operation } => {
                let result = mailbox.list(&operation);
                first_done(plan, &operation, result)
            }
            MailStep::Proceed(turn) => proceed_mail(turn_id, plan, turn),
            MailStep::AskRead { turn, message_id } => {
                let allowed = mailbox.allow(&EvidenceOperation::MailRead {
                    message_id: message_id.clone(),
                });
                read_decided(turn, message_id, allowed)
            }
            MailStep::RunRead { turn, message_id } => {
                let result = mailbox.read(&message_id);
                read_done(plan, turn, message_id, result)
            }
            MailStep::AskRetry {
                turn,
                message_id,
                first,
            } => {
                let allowed = mailbox.allow(&EvidenceOperation::MailRead {
                    message_id: message_id.clone(),
                });
                reread_decided(turn, message_id, first, allowed)
            }
            MailStep::RunRetry {
                turn,
                message_id,
                first,
            } => {
                let retry = mailbox.read(&message_id);
                reread_done(turn, first, retry)
            }
            MailStep::Finished(outcome) => return outcome,
        };
    }
}

fn content_plan(count: u8) -> EvidencePlan {
    EvidencePlanner::plan(EvidenceIntent::MailLatestContent {
        count,
        requested_count: count,
        unread_only: false,
    })
}

#[test]
fn orchestrator_gates_immediately_before_each_mail_execution() {
    let mut mailbox = Mailbox::new();

    let outcome = execute_mail_plan(&mut mailbox, "turn-1", &content_plan(3));

    assert!(matches!(
        outcome.validation,
        ValidationOutcome::Bundle(bundle)
            if bundle.completeness == Completeness::Complete
                && bundle.acquired.mail_bodies == 3
    ));
    assert_eq!(mailbox.log.len(), 8);
    for pair in mailbox.log.chunks_exact(2) {
        assert!(pair[0].starts_with("gate:"));
        assert_eq!(
            pair[0].strip_prefix("gate:"),
            pair[1].strip_prefix("execute:")
        );
    }
}

#[test]
fn denied_read_is_not_executed_and_remains_a_distinct_partial_shortfall() {
    let mut mailbox = Mailbox::new();
    mailbox.deny_read_number = Some(2);

    let outcome = execute_mail_plan(&mut mailbox, "turn-2", &content_plan(3));

    assert_eq!(outcome.approvals_denied, 1);
    assert_eq!(outcome.operations_executed, 3);
    assert!(matches!(
        outcome.validation,
        ValidationOutcome::Bundle(bundle)
            if bundle.completeness == Completeness::Partial
                && bundle.acquired.mail_bodies == 2
    ));
    assert_eq!(mailbox.count("gate:mail_read:"), 3);
    assert_eq!(mailbox.count("execute:mail_read:"), 2);
}

#[test]
fn denied_list_never_executes_the_adapter_and_returns_denied_recovery() {
    let mut mailbox = Mailbox::new();
    mailbox.deny_all = true;
    let plan = EvidencePlanner::plan(EvidenceIntent::MailLatestHeaders {
        count: 3,
        unread_only: false,
    });

    let outcome = execute_mail_plan(&mut mailbox, "turn-3", &plan);

    assert!(mailbox.log.is_empty());
    assert_eq!(outcome.operations_executed, 0);
    assert_eq!(outcome.approvals_denied, 1);
    assert!(matches!(
        outcome.validation,
        ValidationOutcome::Recovery(recovery) if recovery.kind == RecoveryKind::Denied
    ));
}

#[test]
fn duplicate_identifiers_are_typed_and_suppressed_without_gate_or_budget_use() {
    let mut mailbox = Mailbox::new();
    mailbox.headers[2] = mailbox.headers[0].clone();

    let outcome = execute_mail_plan(&mut mailbox, "turn-duplicate", &content_plan(3));

    assert_eq!(outcome.operations_executed, 3);
    assert!(matches!(
        outcome.validation,
        ValidationOutcome::Bundle(bundle)
            if bundle.completeness == Completeness::Partial
                && bundle.acquired.mail_bodies == 2
                && bundle.missing.iter().any(|missing| {
                    missing.reason == ShortfallReason::Duplicate && missing.missing_count == 1
                })
    ));
    assert_eq!(mailbox.count("gate:mail_read:"), 2);
    assert_eq!(mailbox.count("execute:mail_read:"), 2);
}

#[test]
fn transient_read_retries_once_with_a_fresh_gate_and_consumes_body_budget() {
    let mut mailbox = Mailbox::new();
    mailbox.first_read_times_out = true;

    let outcome = execute_mail_plan(&mut mailbox, "turn-retry", &content_plan(2));

    assert_eq!(mailbox.reads_run, 2);
    assert_eq!(outcome.operations_executed, 3);
    assert!(matches!(
        outcome.validation,
        ValidationOutcome::Bundle(bundle)
            if bundle.completeness == Completeness::Partial
                && bundle.acquired.mail_bodies == 1
    ));
    assert_eq!(mailbox.count("gate:mail_read:"), 2);
}

#[test]
fn the_list_or_search_runs_only_once_it_was_allowed() {
    let plan = content_plan(3);
    let MailStep::AskFirst { operation } = start_mail_turn(&plan) else {
        panic!("a turn begins with a question");
    };
    assert_eq!(operation.key().as_str(), "mail_list:3:false");
    let allowed = first_decided(&plan, operation.clone(), true);
    assert_eq!(
        allowed,
        MailStep::RunFirst {
            operation: operation.clone()
        }
    );
    let MailStep::Proceed(turn) = first_decided(&plan, operation, false) else {
        panic!("the turn goes on without the list");
    };
    assert!(turn.headers.is_empty());
    assert_eq!(turn.operations_executed, 0);
    assert_eq!(turn.approvals_denied, 1);
    assert_eq!(turn.results.mail_list[0].execution, ExecutionStatus::Denied);

    let targeted = EvidencePlanner::plan(EvidenceIntent::AnalyzeQuotedEvidence {
        intent: Box::new(EvidenceIntent::MailTargeted {
            query: "Jana  Nová".into(),
            needs_content: true,
        }),
    });
    let MailStep::AskFirst { operation } = start_mail_turn(&targeted) else {
        panic!("a turn begins with a question");
    };
    assert_eq!(operation.key().as_str(), "mail_search:10:jana nová");
}

#[test]
fn a_turn_counts_what_ran_and_reads_no_message_more_than_twice() {
    let mut mailbox = Mailbox::new();
    mailbox.every_read_times_out = true;

    let plan = content_plan(3);
    let outcome = execute_mail_plan(&mut mailbox, "turn-timeouts", &plan);

    for index in 1..=3 {
        let read = format!("execute:mail_read:fixture-mail-{index}");
        assert!(mailbox.count(&read) <= 2);
    }
    assert!(mailbox.reads_run <= plan.budget.mail_body_attempts as usize);
    assert_eq!(outcome.operations_executed, mailbox.count("execute:"));
    assert_eq!(outcome.operations_executed, 1 + mailbox.reads_run);
    assert_eq!(outcome.approvals_denied, 0);
}

#[test]
fn the_rules_or_the_user_decide_on_an_operation() {
    assert_eq!(decide(ApprovalLevel::Auto), GateDecision::Allow);
    assert_eq!(decide(ApprovalLevel::Forbidden), GateDecision::Deny);
    assert_eq!(decide(ApprovalLevel::Ask), GateDecision::Ask);
    assert_eq!(user_decides(true), GateDecision::Allow);
    assert_eq!(user_decides(false), GateDecision::Deny);
}

#[test]
fn policy_arguments_match_the_real_mail_connector_shape() {
    let read = EvidenceOperation::MailRead {
        message_id: ValidatedMailId::new("42".to_string()).unwrap(),
    };
    assert_eq!(
        operation_args(&read),
        Json::Object(vec![(
            "rowid".to_string(),
            Json::Number {
                text: "42".to_string(),
                unsigned: Some(42),
                signed: Some(42),
            }
        )])
    );
    let search = EvidenceOperation::WebSearch {
        normalized_query: "current fact".into(),
        provider_set: ProviderSet(vec![WebProvider::Wikipedia, WebProvider::DuckDuckGo]),
    };
    assert_eq!(
        operation_args(&search),
        Json::Object(vec![(
            "query".to_string(),
            Json::Text("current fact".to_string())
        )])
    );
}

#[test]
fn quoted_web_intent_is_not_admitted_to_the_stage_two_mail_executor() {
    let intent = EvidenceIntent::AnalyzeQuotedEvidence {
        intent: Box::new(EvidenceIntent::WebFact {
            query: "current fact".into(),
            verification: VerificationLevel::SingleAuthoritative,
        }),
    };
    assert!(!is_mail_intent(&intent));
}
