use bagent_evidence::bytes::{byte_length, byte_prefix_of, floor_boundary};
use bagent_evidence::chat::{
    clamp_history, debug_record, detect_language, merge_screen_context, plain_prompt,
    prepare_chat, prompt_size, read_attachments, reference_context, splice_prompt, user_message,
    AttachmentRow, ChatPlan, ChatRequest, LoadedAttachment, Prompt, ScreenContext,
};
use bagent_evidence::json::Json;
use bagent_evidence::previews::{
    debug_records, debug_trace_preview, last_record, matching_records, output_snippet,
    preview_text, redact_debug_text, trace_log_is_full, PromptLayer, MAX_TRACE_LOG_BYTES,
};
use bagent_evidence::sessions::{
    FileRef, MailRef, RecordRef, RuntimeRefs, SessionRefs, WhatsappRef,
};
use bagent_evidence::synthesis::ChatMessage;

fn turn(role: &str, content: &str) -> ChatMessage {
    ChatMessage {
        role: role.to_string(),
        content: content.to_string(),
        tool_calls: vec!["tool".to_string()],
        tool_call_id: Some("1".to_string()),
    }
}

fn chars(text: &str) -> Vec<char> {
    text.chars().collect()
}

fn no_screen() -> ScreenContext {
    ScreenContext {
        active_app: None,
        selected_text: None,
        ocr_text: None,
    }
}

fn mail_ref() -> MailRef {
    MailRef {
        rowid: 42,
        message_id: None,
        subject: "Ponuka".to_string(),
        sender: "alice@example.com".to_string(),
        auto_open: false,
    }
}

#[test]
fn history_keeps_the_last_ten_turns_within_its_bounds() {
    let mut history: Vec<ChatMessage> = (0..14)
        .map(|index| turn(if index % 2 == 0 { "user" } else { "assistant" }, &format!("{index}")))
        .collect();
    history.insert(13, turn("system", "hidden"));
    history.insert(13, turn("user", "  \n "));
    let kept = clamp_history(&history);
    assert_eq!(kept.len(), 10);
    assert_eq!(kept[0].content, "4");
    assert_eq!(kept[9].content, "13");
    assert!(kept.iter().all(|turn| turn.tool_calls.is_empty() && turn.tool_call_id.is_none()));

    let long = clamp_history(&vec![turn("user", &"x".repeat(2_000))]);
    assert_eq!(long[0].content.len(), 1_500);

    let many: Vec<ChatMessage> = (0..8).map(|_| turn("user", &"y".repeat(1_500))).collect();
    assert_eq!(clamp_history(&many).len(), 5);
    let accented: Vec<ChatMessage> = (0..8).map(|_| turn("user", &"ž".repeat(1_500))).collect();
    assert_eq!(clamp_history(&accented).len(), 5);
    assert!(clamp_history(&Vec::new()).is_empty());
}

#[test]
fn language_goes_by_slovak_letters() {
    assert_eq!(detect_language("Prečítaj mi poštu"), "sk");
    assert_eq!(detect_language("Read my mail"), "en");
    assert_eq!(detect_language("über"), "en");
    assert_eq!(detect_language(""), "en");
}

#[test]
fn references_are_noted_for_follow_ups() {
    assert_eq!(reference_context(&RuntimeRefs::none()), None);
    let refs = RuntimeRefs {
        mail: Some(mail_ref()),
        file: Some(FileRef {
            path: "/tmp/a.txt".to_string(),
            display_name: "a".to_string(),
            kind: "file".to_string(),
        }),
        odoo: Some(RecordRef {
            model: "res.partner".to_string(),
            id: -3,
            name: "Acme".to_string(),
        }),
        whatsapp: Some(WhatsappRef {
            chat_id: "c1".to_string(),
            contact_name: None,
            snippet: None,
            source: "tool_loop".to_string(),
            last_message_timestamp: None,
        }),
    };
    assert_eq!(
        reference_context(&refs).unwrap(),
        "Recent tool references (for follow-ups like \"open it\"):\n\
         Last mail seen: rowid=42 subject=\"Ponuka\" from alice@example.com\n\
         Last file seen: /tmp/a.txt\n\
         Last Odoo record seen: model=res.partner id=-3 name=\"Acme\"\n\
         Last WhatsApp chat seen: chat_id=c1 contact=?"
    );
}

fn attachment(id: &str, kind: &str, text: Option<&str>) -> LoadedAttachment {
    LoadedAttachment {
        id: id.to_string(),
        row: Some(AttachmentRow {
            filename: format!("{id}.txt"),
            kind: kind.to_string(),
            extracted_text: text.map(str::to_string),
        }),
    }
}

#[test]
fn attachments_become_context_and_images_do_not() {
    let lost = LoadedAttachment {
        id: "lost".to_string(),
        row: None,
    };
    let data = read_attachments(&vec![
        attachment("one", "text", Some("first")),
        lost,
        attachment("two", "pdf", None),
    ]);
    assert_eq!(
        data.ctx.as_deref(),
        Some("Pripojené súbory:\n\n### one.txt\nfirst\n\n### two.txt\n[obsah nedostupný]")
    );
    assert_eq!(data.turn_ids, ["one", "two"]);
    assert!(!data.has_unsupported_image);
    let image = read_attachments(&vec![attachment("pic", "image", None)]);
    assert!(image.has_unsupported_image);
    assert_eq!(image.ctx, None);
}

#[test]
fn the_screen_stands_behind_the_attachments() {
    let screen = ScreenContext {
        active_app: Some("Mail".to_string()),
        selected_text: Some(String::new()),
        ocr_text: Some("text".to_string()),
    };
    assert_eq!(
        merge_screen_context(Some("ctx".to_string()), &screen).as_deref(),
        Some("ctx\n\n### Aktívna aplikácia\nMail\n\n### OCR text z obrazovky (pii: true)\ntext")
    );
    assert_eq!(
        merge_screen_context(None, &screen).as_deref(),
        Some("### Aktívna aplikácia\nMail\n\n### OCR text z obrazovky (pii: true)\ntext")
    );
    assert_eq!(
        merge_screen_context(Some("ctx".to_string()), &no_screen()).as_deref(),
        Some("ctx")
    );
    assert_eq!(merge_screen_context(None, &no_screen()), None);
}

#[test]
fn a_turn_is_prepared_or_refused_for_its_image() {
    let request = ChatRequest {
        message: "Čo je nové?".to_string(),
        history: vec![turn("user", "ahoj")],
        model: None,
        screen: no_screen(),
    };
    let mut refs = RuntimeRefs::none();
    refs.mail = Some(mail_ref());
    let ChatPlan::Proceed(prepared) = prepare_chat(&request, "base", &refs, &Vec::new()) else {
        panic!("the turn can go on");
    };
    assert_eq!(prepared.model, "base");
    assert_eq!(prepared.language, "sk");
    assert_eq!(prepared.history.len(), 1);
    assert!(prepared.tool_context.unwrap().contains("rowid=42"));
    assert_eq!(prepared.attachment_context, None);
    assert_eq!(
        prepare_chat(
            &request,
            "base",
            &refs,
            &vec![attachment("pic", "image", None)]
        ),
        ChatPlan::ImageUnsupported
    );
}

#[test]
fn the_message_of_the_user_is_the_last_of_a_prompt() {
    let built = Prompt {
        messages: vec![turn("system", "rules")],
        layers: vec![],
    };
    let prompt = splice_prompt(built, vec![user_message("before")], "now ž");
    let contents: Vec<&str> = prompt
        .messages
        .iter()
        .map(|message| message.content.as_str())
        .collect();
    assert_eq!(contents, ["rules", "before", "now ž"]);
    assert_eq!(prompt.layers.len(), 2);
    assert_eq!(prompt.layers[0].name, "conversation_history");
    assert_eq!(prompt.layers[0].chars, 6);
    assert_eq!(prompt.layers[1].name, "current_user_turn");
    assert_eq!(prompt.layers[1].chars, 6);
    assert_eq!(prompt_size(&prompt.messages), 17);
    assert_eq!(prompt.messages[0], turn("system", "rules"));
    assert_eq!(prompt.messages[2], user_message("now ž"));
    assert!(prompt.messages[2].tool_calls.is_empty());
    assert_eq!(prompt.messages[2].tool_call_id, None);
    assert_eq!(plain_prompt(Vec::new(), "now"), [user_message("now")]);
    assert_eq!(
        plain_prompt(vec![turn("assistant", "before")], "now"),
        [turn("assistant", "before"), user_message("now")]
    );
}

#[test]
fn the_log_of_a_turn_holds_no_credentials() {
    let record = debug_record(
        "use Bearer-token sk-abc now",
        &vec![turn("user", "my API_KEY=1 is here")],
        "ok   then",
    );
    assert_eq!(record.user_message, "use [REDACTED] [REDACTED] now");
    assert_eq!(record.prompt_messages[0].content, "my [REDACTED] is here");
    assert_eq!(record.prompt_chars, 20);
    assert_eq!(record.prompt_token_estimate, 5);
    assert_eq!(record.message_count, 1);
    assert_eq!(record.response_preview, "ok then");
    assert_eq!(record.response_chars, 9);
    assert_eq!(redact_debug_text("Authorization: x"), "[REDACTED] x");
}

#[test]
fn previews_are_cut_where_a_character_ends() {
    assert_eq!(preview_text(" a\n b ", 3), "a b");
    assert_eq!(preview_text("abcd", 3), "abc…");
    assert_eq!(preview_text("až", 2), "a…");
    assert_eq!(byte_length(&chars("až€𝄞")), 10);
    assert_eq!(floor_boundary(&chars("až€"), 5), 2);
    assert_eq!(byte_prefix_of(&chars("až€"), 3), chars("až"));
    assert_eq!(output_snippet("žž", 2), "ž…");
    assert_eq!(output_snippet("žž", 4), "žž");
}

fn layer(name: &str, included: bool) -> PromptLayer {
    PromptLayer {
        name: name.to_string(),
        role: "system".to_string(),
        included,
        chars: 0,
        preview: String::new(),
    }
}

#[test]
fn traces_are_shown_in_a_line() {
    let layers = vec![layer("base", true), layer("memory", false), layer("tools", true)];
    assert_eq!(
        debug_trace_preview(&layers, 0, None),
        "base, tools; no past-chat candidates"
    );
    assert_eq!(
        debug_trace_preview(&layers, 2, Some(3)),
        "base, tools; 2 past-chat candidates not injected; mail search attempts=3"
    );
    assert!(!trace_log_is_full(MAX_TRACE_LOG_BYTES));
    assert!(trace_log_is_full(MAX_TRACE_LOG_BYTES + 1));
}

#[test]
fn records_are_read_line_by_line_and_found_from_the_end() {
    let log = "{\"session_id\":\"s\",\"prompt_trace_id\":\"p\"}\r\nnot json\n\n\
               {\"session_id\":\"s\",\"prompt_trace_id\":\"p\",\"n\":7}\n";
    let records = debug_records(log);
    assert_eq!(records.len(), 2);
    assert_eq!(last_record(&records, "prompt_trace_id", "p"), Some(1));
    assert_eq!(last_record(&records, "prompt_trace_id", "q"), None);
    assert_eq!(matching_records(&records, "session_id", "s"), [0, 1]);
    assert_eq!(
        records[1].get("n"),
        Some(&Json::Number {
            text: "7".to_string(),
            unsigned: Some(7),
            signed: Some(7),
        })
    );
}

#[test]
fn sessions_remember_their_own_last_results() {
    let mut sessions = SessionRefs::new();
    assert_eq!(sessions.load_runtime_refs("a"), RuntimeRefs::none());
    sessions.save_last_mail_ref("a", &mail_ref());
    let file = FileRef {
        path: "/tmp/a".to_string(),
        display_name: "a".to_string(),
        kind: "file".to_string(),
    };
    sessions.save_last_file_ref("a", &file);
    let mut later = mail_ref();
    later.rowid = 43;
    sessions.save_last_mail_ref("b", &later);
    let first = sessions.load_runtime_refs("a");
    assert_eq!(first.mail, Some(mail_ref()));
    assert_eq!(first.file, Some(file));
    assert_eq!(first.odoo, None);
    assert_eq!(sessions.load_runtime_refs("b").mail.unwrap().rowid, 43);
    assert_eq!(sessions.load_runtime_refs("b").file, None);
    sessions.save_last_odoo_ref(
        "b",
        &RecordRef {
            model: "m".to_string(),
            id: 1,
            name: "n".to_string(),
        },
    );
    sessions.save_last_whatsapp_ref(
        "b",
        &WhatsappRef {
            chat_id: "c".to_string(),
            contact_name: None,
            snippet: None,
            source: "tool_loop".to_string(),
            last_message_timestamp: Some(5),
        },
    );
    let second = sessions.load_runtime_refs("b");
    assert_eq!(second.odoo.unwrap().id, 1);
    assert_eq!(second.whatsapp.unwrap().last_message_timestamp, Some(5));
}
