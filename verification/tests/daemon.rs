use bagent_evidence::attachments::{
    attachment_mime_is_supported, finish_upload, is_file_field, receive_upload, show_attachment,
    AttachmentView, Extraction, UploadError, UploadField, MAX_ATTACHMENT_BYTES,
};
use bagent_evidence::authorized::{plan_sealing, seal_position, AuthorizedWebAdapter};
use bagent_evidence::codex::{
    admit_task, read_answer, task_decided, CodexRefusal, CodexRun, CodexRunTaskRequest, CodexStep,
    CodexSummary,
    TaskRating,
};
use bagent_evidence::gate::ApprovalLevel;
use bagent_evidence::json::Json;
use bagent_evidence::models::{chat_models, matching_loaded_model, models_to_unload};
use bagent_evidence::policy::{
    accept_credential, account_name, admit_send, audit_payload, default_limit, default_und,
    is_authorized, is_on_ac_power, limit_or, rest_allows, settle_approval, sync_window,
    send_decided, RestRefusal, SendRefusal, SendStep, SendTarget, WhatsappSendRequest,
};
use bagent_evidence::runtime_control::{
    launch_target, managed_pid, new_process, pid_in_listing, restart_step, restart_supported,
    RestartStep,
};

fn list(texts: &[&str]) -> Vec<String> {
    texts.iter().map(|text| text.to_string()).collect()
}

fn text(value: &str) -> Json {
    Json::Text(value.to_string())
}

fn upload(filename: &str, mime: &str, bytes: &[u8]) -> Option<UploadField> {
    Some(UploadField {
        filename: Some(filename.to_string()),
        content_type: Some(mime.to_string()),
        bytes: Ok(bytes.to_vec()),
    })
}

#[test]
fn attachment_upload_policy_rejects_images_for_text_only_basert() {
    assert!(!attachment_mime_is_supported("image/png"));
    assert!(!attachment_mime_is_supported("image/jpeg"));
    assert!(attachment_mime_is_supported("application/pdf"));
    assert!(attachment_mime_is_supported("text/plain"));
}

#[test]
fn uploads_are_stored_by_the_digest_of_their_bytes() {
    let digest = "ba7816bf8f01cfea414140de5dae2223b00361a396177a9cb410ff61f20015ad";
    let taken = receive_upload(upload("report.final.PDF", "application/pdf", b"abc")).unwrap();
    assert_eq!(taken.sha256, digest);
    assert_eq!(taken.stored_name, format!("{digest}.PDF"));
    let named = receive_upload(upload("notes", "text/plain", b"abc")).unwrap();
    assert_eq!(named.stored_name, format!("{digest}.notes"));
    let odd = receive_upload(upload("a.tar-gz", "text/plain", b"abc")).unwrap();
    assert_eq!(odd.stored_name, format!("{digest}.bin"));
    let long = receive_upload(upload("a.document", "text/plain", b"abc")).unwrap();
    assert_eq!(long.stored_name, format!("{digest}.bin"));
    let bare = receive_upload(Some(UploadField {
        filename: None,
        content_type: None,
        bytes: Ok(b"abc".to_vec()),
    }))
    .unwrap();
    assert_eq!(bare.filename, "attachment");
    assert_eq!(bare.mime, "application/octet-stream");
    assert_eq!(bare.stored_name, format!("{digest}.bin"));
}

#[test]
fn uploads_are_refused_for_a_reason() {
    let large = receive_upload(upload("a.txt", "text/plain", &vec![0; MAX_ATTACHMENT_BYTES + 1]));
    assert_eq!(large, Err(UploadError::TooLarge));
    assert_eq!(large.unwrap_err().status(), 413);
    assert!(receive_upload(upload("a.txt", "text/plain", &vec![0; MAX_ATTACHMENT_BYTES])).is_ok());
    let image = receive_upload(upload("a.png", "image/png", b"abc"));
    assert_eq!(image, Err(UploadError::ImageUnsupported));
    assert_eq!(UploadError::ImageUnsupported.status(), 415);
    let empty = receive_upload(upload("a.txt", "text/plain", b""));
    assert_eq!(empty, Err(UploadError::NoFile));
    assert_eq!(receive_upload(None), Err(UploadError::NoFile));
    assert_eq!(UploadError::NoFile.message(), "no file field in multipart");
    let unreadable = receive_upload(Some(UploadField {
        filename: None,
        content_type: None,
        bytes: Err("broken".to_string()),
    }));
    assert_eq!(unreadable, Err(UploadError::Unreadable("broken".to_string())));
    assert!(is_file_field(None));
    assert!(is_file_field(Some("file")));
    assert!(!is_file_field(Some("comment")));
}

#[test]
fn the_same_bytes_keep_their_attachment() {
    let taken = receive_upload(upload("a.txt", "text/plain", b"abc")).unwrap();
    let fresh = finish_upload(
        &taken,
        Some(Extraction {
            kind: "text".to_string(),
            text: Some("abc".to_string()),
        }),
        None,
        "new".to_string(),
    );
    assert!(fresh.is_new);
    assert_eq!(fresh.attachment_id, "new");
    assert_eq!(fresh.kind, "text");
    assert_eq!(fresh.size, 3);
    let known = finish_upload(&taken, None, Some("old".to_string()), "new".to_string());
    assert!(!known.is_new);
    assert_eq!(known.attachment_id, "old");
    assert_eq!(known.kind, "other");
}

#[test]
fn images_are_shown_as_base64() {
    assert_eq!(
        show_attachment("image/png", Some(b"hello".to_vec()), None),
        AttachmentView::Data("aGVsbG8=".to_string())
    );
    assert_eq!(
        show_attachment("text/plain", Some(b"hello".to_vec()), Some("hello".to_string())),
        AttachmentView::Text(Some("hello".to_string()))
    );
    assert_eq!(
        show_attachment("image/png", None, None),
        AttachmentView::Text(None)
    );
}

#[test]
fn an_address_is_sealed_once() {
    let urls = vec![
        Some("https://a.example/".to_string()),
        Some("https://b.example/".to_string()),
        Some("https://a.example/".to_string()),
    ];
    let plan = plan_sealing(&urls);
    assert_eq!(plan.places, [0, 1]);
    assert!(!plan.refused);
    let refused = plan_sealing(&vec![urls[0].clone(), None, urls[1].clone()]);
    assert_eq!(refused.places, [0]);
    assert!(refused.refused);
    assert_eq!(seal_position(3), 3);
    assert_eq!(seal_position(256), 0);
    assert_eq!(AuthorizedWebAdapter::new(7).transport, 7);
}

fn task(force: bool) -> CodexRunTaskRequest {
    CodexRunTaskRequest {
        description: "Compare contracts".to_string(),
        context_sources: list(&["mail", "notes"]),
        context_refs: list(&["mail:rowid:123", "loose"]),
        force_codex: force,
    }
}

fn rating(local: bool) -> TaskRating {
    TaskRating {
        local,
        level: "codex_required".to_string(),
        privacy_risk: "high".to_string(),
    }
}

#[test]
fn codex_runs_only_after_every_hurdle_and_never_unasked() {
    let auto = ApprovalLevel::Auto;
    assert_eq!(
        admit_task(&task(false), &rating(true), true, auto),
        CodexStep::Refused(CodexRefusal::LocalSufficient)
    );
    assert_eq!(
        admit_task(&task(true), &rating(true), false, auto),
        CodexStep::Refused(CodexRefusal::NotFound)
    );
    assert_eq!(
        admit_task(&task(false), &rating(false), true, ApprovalLevel::Forbidden),
        CodexStep::Refused(CodexRefusal::Forbidden)
    );
    let CodexStep::AskApproval(proposal) =
        admit_task(&task(true), &rating(true), true, auto)
    else {
        panic!("the user is asked");
    };
    assert_eq!(proposal.allowed_context.len(), 2);
    assert_eq!(proposal.allowed_context[0].source, "mail");
    assert_eq!(
        proposal.allowed_context[0].summary,
        "(Summary for mail:rowid:123 pending user approval)"
    );
    assert_eq!(proposal.allowed_context[1].source, "loose");
    assert!(proposal.allowed_context.iter().all(|item| item.pii));
    assert_eq!(
        proposal.approval_description,
        "Codex External Reasoning — Compare contracts\n\
         Level: codex_required | Privacy: high | Sources: mail, notes\n\
         Codex is an external harness. It will receive only the approved context packet \
         (summaries and record refs, no raw bodies). It cannot perform side effects directly."
    );
    let mut plain = task(true);
    plain.context_sources.clear();
    let CodexStep::AskApproval(proposal) =
        admit_task(&plain, &rating(false), true, ApprovalLevel::Ask)
    else {
        panic!("the user is asked");
    };
    assert!(proposal
        .approval_description
        .contains("| Sources: none declared\n"));
}

#[test]
fn tasks_run_only_when_the_user_approves() {
    let ask = || match admit_task(&task(true), &rating(true), true, ApprovalLevel::Auto) {
        CodexStep::AskApproval(proposal) => proposal,
        other => panic!("the user is asked: {other:?}"),
    };
    assert_eq!(task_decided(ask(), true), CodexStep::Run(ask()));
    assert_eq!(
        task_decided(ask(), false),
        CodexStep::Refused(CodexRefusal::Denied)
    );
    let told: Vec<(u16, bool, &str, bool)> = [
        CodexRefusal::LocalSufficient,
        CodexRefusal::NotFound,
        CodexRefusal::Forbidden,
        CodexRefusal::Denied,
        CodexRefusal::NotStarted,
    ]
    .iter()
    .map(|refusal| {
        let told = refusal.message().is_some();
        (refusal.status(), refusal.is_error(), refusal.reason(), told)
    })
    .collect();
    assert_eq!(
        told,
        [
            (200, false, "local_sufficient", false),
            (200, true, "codex_not_found", true),
            (403, true, "forbidden", true),
            (200, false, "denied", false),
            (500, true, "spawn_failed", false),
        ]
    );
    assert_eq!(
        CodexRefusal::Forbidden.message(),
        Some("codex.run_task is forbidden by the rules engine.")
    );
}

#[test]
fn messages_go_out_only_when_the_user_approves() {
    let ask = || match admit_send(&send(Some("c"), None, " hi "), ApprovalLevel::Auto) {
        SendStep::AskApproval(proposal) => proposal,
        other => panic!("the user is asked: {other:?}"),
    };
    assert_eq!(send_decided(ask(), true), SendStep::Send(ask()));
    assert_eq!(
        send_decided(ask(), false),
        SendStep::Refused(SendRefusal::Denied)
    );
    let told: Vec<(u16, &str)> = [
        SendRefusal::TextEmpty,
        SendRefusal::TargetRequired,
        SendRefusal::Forbidden,
        SendRefusal::Denied,
        SendRefusal::Undelivered,
    ]
    .iter()
    .map(|refusal| (refusal.status(), refusal.reason()))
    .collect();
    assert_eq!(
        told,
        [
            (400, "text_empty"),
            (400, "chat_id_or_phone_required"),
            (403, "forbidden_by_rules"),
            (200, "denied"),
            (503, "send_error"),
        ]
    );
}

#[test]
fn codex_answers_are_read_by_their_parts() {
    let run = CodexRun {
        parsed_output: Some(Json::Object(vec![
            ("summary".to_string(), text("short")),
            ("findings".to_string(), Json::Array(vec![text("one")])),
            ("drafts".to_string(), text("no list")),
        ])),
        result_text: "raw".to_string(),
        stdout: "x".repeat(2_049),
        stderr: "y".repeat(1_024),
    };
    let answer = read_answer(&run);
    assert_eq!(answer.summary, CodexSummary::Value(&text("short")));
    assert_eq!(answer.findings, Some(&vec![text("one")]));
    assert_eq!(answer.drafts, None);
    assert_eq!(answer.stdout_snippet, format!("{}…", "x".repeat(2_048)));
    assert_eq!(answer.stderr_snippet, "y".repeat(1_024));

    let plain = CodexRun {
        parsed_output: None,
        result_text: "raw".to_string(),
        stdout: String::new(),
        stderr: String::new(),
    };
    assert_eq!(read_answer(&plain).summary, CodexSummary::Text("raw"));

    let wide = CodexRun {
        parsed_output: None,
        result_text: String::new(),
        stdout: format!("x{}", "ž".repeat(1_024)),
        stderr: format!("y{}", "ž".repeat(512)),
    };
    let answer = read_answer(&wide);
    assert_eq!(answer.stdout_snippet, format!("x{}…", "ž".repeat(1_023)));
    assert_eq!(answer.stderr_snippet, format!("y{}…", "ž".repeat(511)));
}

#[test]
fn loaded_models_are_found_with_and_without_their_tag() {
    let loaded = list(&[" qwen:latest ", "base/35b", "tiny:q4"]);
    assert_eq!(
        matching_loaded_model(&loaded, "qwen").as_deref(),
        Some("qwen:latest")
    );
    assert_eq!(
        matching_loaded_model(&loaded, "base/35b:latest").as_deref(),
        Some("base/35b")
    );
    assert_eq!(
        matching_loaded_model(&loaded, " tiny:q4 ").as_deref(),
        Some("tiny:q4")
    );
    assert_eq!(matching_loaded_model(&loaded, "tiny"), None);
    assert_eq!(matching_loaded_model(&loaded, "  "), None);
    assert_eq!(
        models_to_unload(&loaded, "qwen", "tiny:q4"),
        list(&["qwen:latest", "tiny:q4"])
    );
    assert_eq!(
        models_to_unload(&loaded, "qwen", " qwen "),
        list(&["qwen:latest"])
    );
    assert_eq!(
        chat_models(&list(&["a", "b", "a"]), "a"),
        list(&["a", "a"])
    );
}

#[test]
fn only_the_token_of_the_daemon_lets_a_caller_in() {
    assert!(is_authorized(Some("Bearer secret"), "secret"));
    assert!(!is_authorized(Some("bearer secret"), "secret"));
    assert!(!is_authorized(Some("Bearer secret "), "secret"));
    assert!(!is_authorized(None, "secret"));
}

#[test]
fn limits_have_defaults_and_bounds() {
    assert_eq!(limit_or(None, 30, 200), 30);
    assert_eq!(limit_or(Some(250), 30, 200), 200);
    assert_eq!(limit_or(Some(0), 30, 200), 0);
    assert_eq!(default_limit(), 20);
    assert_eq!(default_und(), "und");
    assert_eq!(sync_window(None), (0, 5_000));
    assert_eq!(sync_window(Some(77)), (77, 500));
}

#[test]
fn nothing_that_needs_asking_is_allowed_over_the_network() {
    assert_eq!(rest_allows(ApprovalLevel::Auto), Ok(()));
    assert_eq!(
        rest_allows(ApprovalLevel::Ask),
        Err(RestRefusal::ApprovalRequired)
    );
    assert_eq!(
        rest_allows(ApprovalLevel::Forbidden),
        Err(RestRefusal::Blocked)
    );
    assert_eq!(RestRefusal::Blocked.status(), 403);
    assert_eq!(RestRefusal::ApprovalRequired.status(), 409);
    assert_eq!(RestRefusal::Blocked.message(), "blocked by rules");
}

#[test]
fn audit_entries_hold_digests_of_paths() {
    assert_eq!(
        audit_payload(Some("abc"), None, Some("gone")),
        Json::Object(vec![
            (
                "path_hash".to_string(),
                text("ba7816bf8f01cfea414140de5dae2223b00361a396177a9cb410ff61f20015ad")
            ),
            ("ok".to_string(), Json::Bool(false)),
            ("error".to_string(), text("gone")),
        ])
    );
    assert_eq!(
        audit_payload(None, Some("Safari"), None),
        Json::Object(vec![
            ("app".to_string(), text("Safari")),
            ("ok".to_string(), Json::Bool(true)),
        ])
    );
}

#[test]
fn credentials_are_trimmed_and_bounded() {
    assert_eq!(
        accept_credential(Some("  tvly-key ")),
        Ok(Some("tvly-key".to_string()))
    );
    assert_eq!(accept_credential(Some("   ")), Ok(None));
    assert_eq!(accept_credential(None), Ok(None));
    assert!(accept_credential(Some(&"k".repeat(512))).is_ok());
    assert_eq!(accept_credential(Some(&"k".repeat(513))), Err(()));
    assert_eq!(accept_credential(Some(&"ž".repeat(257))), Err(()));
}

#[test]
fn an_approval_that_does_not_come_is_a_denial() {
    let allowed = settle_approval(Some(true));
    assert!(allowed.allowed);
    assert_eq!((allowed.decision, allowed.audit_action), ("allow", "approval"));
    let denied = settle_approval(Some(false));
    assert!(!denied.allowed);
    assert_eq!((denied.decision, denied.audit_action), ("deny", "approval"));
    let silent = settle_approval(None);
    assert!(!silent.allowed);
    assert_eq!(
        (silent.decision, silent.audit_action),
        ("deny", "approval_timeout")
    );
}

#[test]
fn power_is_taken_to_be_there_unless_the_battery_is_named() {
    assert!(is_on_ac_power(None));
    assert!(is_on_ac_power(Some(b"Now drawing from 'AC Power'\n\xff")));
    assert!(!is_on_ac_power(Some(b"Now drawing from 'Battery Power'")));
}

fn send(chat_id: Option<&str>, phone: Option<&str>, body: &str) -> WhatsappSendRequest {
    WhatsappSendRequest {
        chat_id: chat_id.map(str::to_string),
        phone: phone.map(str::to_string),
        text: body.to_string(),
    }
}

#[test]
fn messages_are_sent_only_after_asking() {
    let auto = ApprovalLevel::Auto;
    assert_eq!(
        admit_send(&send(Some("c"), None, "  \n"), auto),
        SendStep::Refused(SendRefusal::TextEmpty)
    );
    assert_eq!(
        admit_send(&send(None, None, "hi"), auto),
        SendStep::Refused(SendRefusal::TargetRequired)
    );
    assert_eq!(
        admit_send(&send(None, Some("421"), "hi"), ApprovalLevel::Forbidden),
        SendStep::Refused(SendRefusal::Forbidden)
    );
    let SendStep::AskApproval(proposal) = admit_send(&send(Some("c"), Some("421"), " hi "), auto)
    else {
        panic!("the user is asked");
    };
    assert_eq!(proposal.target, SendTarget::ChatId("c".to_string()));
    assert_eq!(proposal.text, "hi");
    assert_eq!(
        proposal.description,
        "Odoslať WhatsApp správu — Príjemca: c | Náhľad: hi"
    );
    let long = "a".repeat(61);
    let SendStep::AskApproval(proposal) = admit_send(&send(None, Some("421"), &long), auto)
    else {
        panic!("the user is asked");
    };
    assert_eq!(proposal.target, SendTarget::Phone("421".to_string()));
    assert_eq!(proposal.text, long);
    assert_eq!(
        proposal.description,
        format!(
            "Odoslať WhatsApp správu — Príjemca: 421 | Náhľad: {}… (61 znakov)",
            "a".repeat(60)
        )
    );
    let wide = format!("a{}", "ž".repeat(40));
    let SendStep::AskApproval(proposal) = admit_send(&send(None, Some("421"), &wide), auto)
    else {
        panic!("the user is asked");
    };
    assert_eq!(proposal.text, wide);
    assert_eq!(
        proposal.description,
        format!(
            "Odoslať WhatsApp správu — Príjemca: 421 | Náhľad: a{}… (81 znakov)",
            "ž".repeat(29)
        )
    );
    assert_eq!(
        admit_send(&send(None, Some("421"), &wide), ApprovalLevel::Forbidden),
        SendStep::Refused(SendRefusal::Forbidden)
    );
    assert_eq!(
        admit_send(&send(None, None, &wide), auto),
        SendStep::Refused(SendRefusal::TargetRequired)
    );
}

#[test]
fn accounts_are_shown_by_their_own_name_first() {
    let name = Some("Jana".to_string());
    let push = Some("J".to_string());
    assert_eq!(account_name(&name, &push), name);
    assert_eq!(account_name(&None, &push), push);
    assert_eq!(account_name(&None, &None), None);
}

#[test]
fn the_managed_process_is_read_from_the_listing() {
    let listing = "com.bagent.basert = {\r\n\tactive count = 1\n\tpid = 4242\n\tpid = 7\n}";
    assert_eq!(pid_in_listing(listing), Some(4_242));
    assert_eq!(pid_in_listing("pid = +5"), Some(5));
    assert_eq!(pid_in_listing("pid = 4294967296"), None);
    assert_eq!(pid_in_listing("pid = -1\npid = 3"), None);
    assert_eq!(pid_in_listing("pids = 3"), None);
    assert_eq!(managed_pid(true, listing.as_bytes()), Some(4_242));
    assert_eq!(managed_pid(false, listing.as_bytes()), None);
    assert_eq!(launch_target("501"), "gui/501/com.bagent.basert");
}

#[test]
fn a_restart_ends_with_a_new_and_clean_process() {
    assert!(new_process(None, Some(2)));
    assert!(new_process(Some(1), Some(2)));
    assert!(!new_process(Some(2), Some(2)));
    assert!(!new_process(Some(2), None));
    let clean = vec![false, false];
    let busy = vec![false, true];
    assert_eq!(
        restart_step(Some(1), Some(2), Some(&clean), 10_000),
        RestartStep::Clean
    );
    assert_eq!(
        restart_step(Some(1), Some(2), Some(&busy), 9_999),
        RestartStep::Wait
    );
    assert_eq!(
        restart_step(Some(2), Some(2), Some(&clean), 10_000),
        RestartStep::GiveUp
    );
    assert_eq!(restart_step(Some(1), Some(2), None, 0), RestartStep::Wait);
    assert!(restart_supported("http://a", "http://a"));
    assert!(!restart_supported("http://b", "http://a"));
}
