use bagent_evidence::json::Json;
use bagent_evidence::legacy::render_legacy_fetch;
use bagent_evidence::mail_tools::{
    inbox_query, inbox_reply, mail_headers_json, mail_open_found, mail_open_reply, mail_query, mail_read_reply,
    mail_searched, mail_searched_again, sender_tokens, BodyHydration, HydratedMail, MailEntry,
    MailSearchStep, ToolReply,
};
use bagent_evidence::tool_args::{
    json_day_ts, json_flag_arg, json_limit_arg, json_list_arg, json_signed_arg, json_str_arg,
};
use bagent_evidence::tools::{
    chat_messages_reply, chats_reply, notes_read_reply, notes_search_reply, odoo_call, odoo_reply,
    required_arg, rowid_arg, web_search_request, ChatEntry, ChatLine, NoteEntry, OdooCall,
    OdooFound,
};
use bagent_evidence::types::{
    EvidenceContribution, ExecutionStatus, FailureCode, OperationKey, OperationResult,
    WebFetchEvidence,
};

fn text(value: &str) -> Json {
    Json::Text(value.to_string())
}

fn number(value: i64) -> Json {
    Json::Number {
        text: value.to_string(),
        unsigned: u64::try_from(value).ok(),
        signed: Some(value),
    }
}

fn args(fields: Vec<(&str, Json)>) -> Json {
    Json::Object(
        fields
            .into_iter()
            .map(|(name, value)| (name.to_string(), value))
            .collect(),
    )
}

fn entry(rowid: i64) -> MailEntry {
    MailEntry {
        rowid,
        message_id: Some("<id>".to_string()),
        subject: "Ponuka".to_string(),
        sender: "alice@example.com".to_string(),
        sender_name: None,
        received_at: 1_753_698_600,
        is_read: false,
        body: Some("Dobrý deň".to_string()),
    }
}

#[test]
fn arguments_are_read_with_their_types() {
    let call = args(vec![
        ("sender", text("  Alice ")),
        ("empty", text("   ")),
        ("limit", number(99)),
        ("rowid", number(-4)),
        ("unread_only", Json::Bool(true)),
        ("keywords", Json::Array(vec![text("a"), number(1), text("b")])),
    ]);
    assert_eq!(json_str_arg(&call, "sender").as_deref(), Some("Alice"));
    assert_eq!(json_str_arg(&call, "empty"), None);
    assert_eq!(json_str_arg(&call, "limit"), None);
    assert_eq!(json_limit_arg(&call, 10, 25), 25);
    assert_eq!(json_limit_arg(&args(vec![]), 10, 25), 10);
    assert_eq!(json_limit_arg(&Json::Null, 20, 50), 20);
    assert_eq!(json_signed_arg(&call, "rowid"), Some(-4));
    assert!(json_flag_arg(&call, "unread_only"));
    assert!(!json_flag_arg(&call, "sender"));
    assert_eq!(json_list_arg(&call, "keywords"), ["a", "b"]);
    assert!(json_list_arg(&call, "sender").is_empty());
}

#[test]
fn days_begin_at_midnight_and_end_before_the_next() {
    let call = args(vec![
        ("day", text("2026-07-28")),
        ("bad", text("2026-02-30")),
        ("epoch", text("1970-01-01")),
    ]);
    assert_eq!(json_day_ts(&call, "day", false), Some(1_785_196_800));
    assert_eq!(json_day_ts(&call, "day", true), Some(1_785_283_199));
    assert_eq!(json_day_ts(&call, "epoch", false), Some(0));
    assert_eq!(json_day_ts(&call, "bad", false), None);
    assert_eq!(json_day_ts(&call, "none", false), None);
}

#[test]
fn headers_are_listed_with_their_dates() {
    let mut undated = entry(2);
    undated.received_at = i64::MAX;
    undated.sender_name = Some("Alice".to_string());
    let items = mail_headers_json(&vec![entry(1), undated]);
    assert_eq!(
        items[0],
        args(vec![
            ("rowid", number(1)),
            ("subject", text("Ponuka")),
            ("sender", text("alice@example.com")),
            ("sender_name", Json::Null),
            ("date", text("2025-07-28T10:30:00+00:00")),
            ("is_read", Json::Bool(false)),
        ])
    );
    assert_eq!(items[1].get("date"), Some(&text("")));
    assert_eq!(items[1].get("sender_name"), Some(&text("Alice")));
}

#[test]
fn an_empty_search_is_tried_again_with_the_words_of_the_sender() {
    assert_eq!(
        sender_tokens("Tomáš Juríček <T.Juricek@novem.sk>"),
        ["tomáš", "juríček", "juricek", "novem", "sk"]
    );
    let query = mail_query(&args(vec![
        ("sender", text("Tomas Juricek")),
        ("subject", text("faktúra")),
        ("date_to", text("1970-01-01")),
        ("limit", number(3)),
    ]));
    assert_eq!(query.limit, 3);
    assert_eq!(query.date_to, Some(86_399));
    let MailSearchStep::Retry(second) = mail_searched(&query, Ok(Vec::new())) else {
        panic!("the words of the sender are searched for");
    };
    assert_eq!(second.sender, None);
    assert_eq!(second.keywords, ["tomas", "juricek"]);
    assert_eq!(second.subject.as_deref(), Some("faktúra"));
    assert_eq!(second.date_to, Some(86_399));
    assert_eq!(
        mail_searched_again(None),
        (ToolReply::Text("No mail messages matched.".to_string()), None)
    );
    let (ToolReply::Items(items), Some(seen)) = mail_searched_again(Some(vec![entry(9), entry(8)]))
    else {
        panic!("the messages are listed");
    };
    assert_eq!(items.len(), 2);
    assert_eq!(seen.rowid, 9);
    assert!(!seen.auto_open);

    let anyone = mail_query(&args(vec![]));
    assert_eq!(
        mail_searched(&anyone, Ok(Vec::new())),
        MailSearchStep::Done(ToolReply::Text("No mail messages matched.".to_string()), None)
    );
    assert_eq!(
        mail_searched(&anyone, Err("locked".to_string())),
        MailSearchStep::Done(ToolReply::Text("Mail search error: locked".to_string()), None)
    );
}

#[test]
fn the_inbox_is_listed_or_said_to_be_empty() {
    assert_eq!(inbox_query(&args(vec![("limit", number(2))])), (2, false));
    assert_eq!(
        inbox_reply(Ok(Vec::new())),
        ToolReply::Text("Inbox query returned no messages.".to_string())
    );
    assert_eq!(
        inbox_reply(Err("gone".to_string())),
        ToolReply::Text("Mail error: gone".to_string())
    );
    assert!(matches!(inbox_reply(Ok(vec![entry(1)])), ToolReply::Items(items) if items.len() == 1));
}

#[test]
fn bodies_are_shown_or_their_absence_explained() {
    let (shown, seen) = mail_read_reply(Ok(Some(HydratedMail {
        message: entry(5),
        state: BodyHydration::Readable,
    })));
    assert_eq!(
        shown,
        "From: alice@example.com\nSubject: Ponuka\nDate: 2025-07-28T10:30:00+00:00\n\nDobrý deň"
    );
    assert_eq!(seen.unwrap().message_id.as_deref(), Some("<id>"));
    let (shown, _) = mail_read_reply(Ok(Some(HydratedMail {
        message: entry(5),
        state: BodyHydration::AutomationDenied,
    })));
    assert!(shown.ends_with("[body unavailable — Mail.app Automation access was denied]"));
    let mut long = entry(5);
    long.body = Some("x".repeat(5_000));
    let (shown, _) = mail_read_reply(Ok(Some(HydratedMail {
        message: long,
        state: BodyHydration::Readable,
    })));
    assert_eq!(shown.matches('x').count() - "example.com".matches('x').count(), 4_000);
    assert_eq!(
        mail_read_reply(Ok(None)),
        ("No message with that rowid.".to_string(), None)
    );
    assert_eq!(
        mail_read_reply(Err("gone".to_string())).0,
        "Mail error: gone"
    );
    assert_eq!(mail_open_found(Ok(Some(entry(7)))), Ok(entry(7)));
    assert_eq!(
        mail_open_found(Ok(None)),
        Err("No message with that rowid.".to_string())
    );
    assert_eq!(
        mail_open_found(Err("gone".to_string())),
        Err("Mail error: gone".to_string())
    );
    assert_eq!(
        mail_open_reply("Ponuka", Ok(())),
        "Opened in Mail.app: Ponuka"
    );
    assert_eq!(
        mail_open_reply("Ponuka", Err("no".to_string())),
        "Could not open Mail.app: no"
    );
}

#[test]
fn tools_say_what_they_cannot_do_without() {
    assert_eq!(
        required_arg(&args(vec![]), "coredata_id"),
        Err("coredata_id is required.".to_string())
    );
    assert_eq!(
        rowid_arg(&args(vec![("rowid", text("5"))])),
        Err("rowid is required.".to_string())
    );
    assert_eq!(rowid_arg(&args(vec![("rowid", number(5))])), Ok(5));
    assert_eq!(
        web_search_request(&args(vec![("query", text(" q ")), ("lang", text("sk"))])),
        Ok(("q".to_string(), "sk"))
    );
    assert_eq!(
        web_search_request(&args(vec![("query", text("q")), ("lang", text("de"))])),
        Ok(("q".to_string(), "en"))
    );
    assert_eq!(
        web_search_request(&args(vec![])),
        Err("query is required.".to_string())
    );
}

#[test]
fn notes_and_chats_are_listed() {
    let note = NoteEntry {
        coredata_id: "x".to_string(),
        title: "Zoznam".to_string(),
        snippet: None,
        folder: Some("Práca".to_string()),
        modified_at: 0,
    };
    let ToolReply::Items(notes) = notes_search_reply(Ok(vec![note])) else {
        panic!("notes are listed");
    };
    assert_eq!(notes[0].get("folder"), Some(&text("Práca")));
    assert_eq!(
        notes[0].get("modified"),
        Some(&text("1970-01-01T00:00:00+00:00"))
    );
    assert_eq!(
        notes_search_reply(Ok(Vec::new())),
        ToolReply::Text("No notes matched.".to_string())
    );
    assert_eq!(notes_read_reply(Ok(Some("n".repeat(4_001)))), "n".repeat(4_000));
    assert_eq!(
        notes_read_reply(Ok(None)),
        "Note body unavailable (locked or missing)."
    );
    assert_eq!(notes_read_reply(Err("e".to_string())), "Notes error: e");

    let chat = ChatEntry {
        id: "c".to_string(),
        name: Some("Jana".to_string()),
        is_group: false,
        unread_count: 2,
        last_message_preview: None,
    };
    let ToolReply::Items(chats) = chats_reply(Ok(vec![chat])) else {
        panic!("chats are listed");
    };
    assert_eq!(chats[0].get("unread"), Some(&number(2)));
    assert_eq!(
        chats_reply(Err("off".to_string())),
        ToolReply::Text("WhatsApp unavailable: off".to_string())
    );
}

#[test]
fn chat_messages_are_cut_and_the_last_is_remembered() {
    let line = |from_me: bool, body: &str, timestamp: i64| ChatLine {
        from_me,
        from: "421".to_string(),
        body: body.to_string(),
        timestamp,
        has_media: false,
    };
    let (ToolReply::Items(items), Some(seen)) = chat_messages_reply(
        "c",
        Ok(vec![line(true, "ahoj", 1), line(false, &"z".repeat(600), 2)]),
    ) else {
        panic!("messages are listed");
    };
    assert_eq!(items[0].get("from"), Some(&text("me")));
    assert_eq!(items[1].get("from"), Some(&text("421")));
    assert_eq!(items[1].get("body"), Some(&text(&"z".repeat(500))));
    assert_eq!(seen.snippet, Some("z".repeat(120)));
    assert_eq!(seen.last_message_timestamp, Some(2));
    assert_eq!(seen.source, "tool_loop");
    assert_eq!(
        chat_messages_reply("c", Ok(Vec::new())),
        (ToolReply::Text("No messages in that chat.".to_string()), None)
    );
}

#[test]
fn record_tools_ask_for_what_they_are_named_after() {
    assert_eq!(
        odoo_call("odoo_search_partners", &args(vec![("query", text("Acme"))])),
        Ok(OdooCall::SearchPartners {
            query: "Acme".to_string(),
            limit: 10
        })
    );
    assert_eq!(
        odoo_call("odoo_search_partners", &args(vec![])),
        Err("query is required.".to_string())
    );
    assert_eq!(
        odoo_call(
            "odoo_my_invoices",
            &args(vec![("open_only", Json::Bool(true)), ("limit", number(40))])
        ),
        Ok(OdooCall::MyInvoices {
            open_only: true,
            limit: 25
        })
    );
    assert_eq!(
        odoo_call("odoo_my_helpdesk_tickets", &args(vec![])),
        Ok(OdooCall::MyHelpdeskTickets {
            open_only: false,
            limit: 10
        })
    );
    assert_eq!(
        odoo_call("odoo_get_record", &args(vec![("id", number(7))])),
        Ok(OdooCall::GetRecord {
            model: String::new(),
            id: 7
        })
    );
    assert_eq!(
        odoo_call("odoo_get_record", &args(vec![])),
        Err("id is required.".to_string())
    );
    assert_eq!(
        odoo_call("odoo_drop", &args(vec![])),
        Err("Unknown Odoo tool: odoo_drop".to_string())
    );
    let (said, seen) = odoo_reply(Ok(Some(OdooFound {
        text: "one record".to_string(),
        model: "res.partner".to_string(),
        first_id: Some(7),
        first_name: None,
    })));
    assert_eq!(said, "one record");
    assert_eq!(seen.unwrap().id, 7);
    assert_eq!(odoo_reply(Ok(None)), ("Record not found.".to_string(), None));
    assert_eq!(odoo_reply(Err("x".to_string())).0, "Odoo error: x");
}

fn unfetched(execution: ExecutionStatus) -> OperationResult<WebFetchEvidence> {
    OperationResult::without_value(
        OperationKey::new("web_fetch:x".to_string()),
        execution,
        EvidenceContribution::Empty,
    )
}

#[test]
fn failed_fetches_are_told_in_words() {
    assert_eq!(
        render_legacy_fetch(&unfetched(ExecutionStatus::TimedOut)),
        "Fetch failed: timed out"
    );
    assert_eq!(
        render_legacy_fetch(&unfetched(ExecutionStatus::Failed(
            FailureCode::RedirectUnsafe
        ))),
        "Fetching local/private addresses is not allowed."
    );
    assert_eq!(
        render_legacy_fetch(&unfetched(ExecutionStatus::Failed(FailureCode::Http4xx(
            404
        )))),
        "Fetch failed: Http4xx(404)"
    );
    assert_eq!(
        render_legacy_fetch(&unfetched(ExecutionStatus::Denied)),
        "Fetch failed."
    );
}
