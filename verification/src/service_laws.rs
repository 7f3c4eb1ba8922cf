//! What is kept of a conversation, what is sent out and what is stored.

use crate::attachments::{
    extension, field_mime, is_received, StoredUpload, UploadError, UploadField,
};
use crate::bytes::byte_len;
use crate::chat::{
    attachment_context, attachment_parts, content_bytes, cut_turns, fitted, found_ids,
    history_window, is_prepared, is_slovak, is_slovak_letter, last_turns, merged_context,
    reference_notes, screen_parts, splices, spoken, tool_context, total_chars, ChatRequest,
    LoadedAttachment, PreparedTurn, Prompt, ScreenContext,
};
use crate::codex::{
    approval_text, is_summary, list_field, source_list, source_of, task_is_admitted,
    task_is_decided, CodexProposal, CodexRefusal, CodexRun, CodexRunTaskRequest, CodexStep,
    CodexSummary, TaskRating,
};
use crate::gate::ApprovalLevel;
use crate::json::{lookup, parsed_json, text_field, Json};
use crate::policy::{
    audit_fields, credential, decision_text, hash_of, limited, send_is_admitted, send_is_decided,
    target_name, SendProposal, SendRefusal, SendStep, SendTarget, WhatsappSendRequest,
};
use crate::previews::{
    included_names, is_credential, json_lines, lines, preview, recall_note, record_places, redacted,
    redacted_words, trace_preview, PromptLayer,
};
use crate::runtime_control::{is_new_process, listed_pid, pid_text, service_target};
use crate::sessions::{entry_place, RuntimeRefs, SessionRefs};
use crate::synthesis::ChatMessage;
use crate::text::{
    ascii_lowercase, collapse, contains, decimal, has_char, join, number_of, sha256_text, split,
    trim, words,
};
use vstd::prelude::*;

verus! {

/// What is remembered of a conversation is what the user and the assistant said, each as
/// far as 1500 characters, in order; nothing that was blank and no other role.
pub proof fn turns_are_what_was_said(messages: Seq<ChatMessage>)
    ensures
        ({
            let said = messages.filter(
                |m: ChatMessage|
                    (m.role@ == "user"@ || m.role@ == "assistant"@) && trim(m.content@).len() > 0,
            );
            &&& cut_turns(messages).len() == said.len()
            &&& forall|i: int|
                0 <= i < said.len() ==> (#[trigger] cut_turns(messages)[i]).0 == said[i].role@
                    && cut_turns(messages)[i].1.is_prefix_of(said[i].content@) && cut_turns(
                    messages,
                )[i].1.len() == if said[i].content@.len() <= 1500 {
                    said[i].content@.len() as int
                } else {
                    1500
                }
        }),
    decreases messages.len(),
{
    reveal(Seq::filter);
    if messages.len() > 0 {
        turns_are_what_was_said(messages.drop_last());
        crate::text_laws::prefixes_are_the_front(messages.last().content@, 1500);
    }
}

/// The newest turns are remembered: ten at most and 8000 characters at most, and no turn
/// is forgotten that would still fit.
pub proof fn the_newest_turns_are_remembered(messages: Seq<ChatMessage>)
    ensures
        ({
            let turns = cut_turns(messages);
            let kept = history_window(messages);
            let start = turns.len() - kept.len();
            &&& kept.len() <= 10
            &&& total_chars(kept) <= 8000
            &&& kept == turns.subrange(start, turns.len() as int)
            &&& kept.len() < 10 && kept.len() < turns.len() ==> total_chars(
                turns.subrange(start - 1, turns.len() as int),
            ) > 8000
        }),
{
    crate::chat::history_is_bounded(messages);
    let turns = cut_turns(messages);
    let recent = last_turns(turns);
    lemma_fitted(recent);
    let kept = history_window(messages);
    let start = turns.len() - kept.len();
    assert(turns.skip(start) =~= turns.subrange(start, turns.len() as int));
    if kept.len() < 10 && kept.len() < turns.len() {
        assert(kept.len() < recent.len());
        assert(recent.skip(recent.len() - kept.len() - 1) =~= turns.subrange(
            start - 1,
            turns.len() as int,
        ));
    }
}

proof fn lemma_fitted(turns: Seq<(Seq<char>, Seq<char>)>)
    ensures
        fitted(turns).len() <= turns.len(),
        fitted(turns).len() < turns.len() ==> total_chars(
            turns.skip(turns.len() - fitted(turns).len() - 1),
        ) > 8000,
    decreases turns.len(),
{
    if !(total_chars(turns) <= 8000 || turns.len() == 0) {
        let rest = turns.drop_first();
        lemma_fitted(rest);
        let n = fitted(turns).len();
        if n < rest.len() {
            assert(turns.skip(turns.len() - n - 1) =~= rest.skip(rest.len() - n - 1));
        } else {
            assert(turns.skip(turns.len() - n - 1) =~= turns);
        }
    }
}

/// A message is taken for Slovak exactly where one of these letters stands in it.
pub proof fn slovak_is_known_by_its_letters(s: Seq<char>)
    ensures
        is_slovak(s) <==> exists|i: int|
            0 <= i < s.len() && ((#[trigger] s[i]) == 'á' || s[i] == 'č' || s[i] == 'ď' || s[i]
                == 'é' || s[i] == 'í' || s[i] == 'ľ' || s[i] == 'ĺ' || s[i] == 'ň' || s[i] == 'ó'
                || s[i] == 'ô' || s[i] == 'ŕ' || s[i] == 'š' || s[i] == 'ť' || s[i] == 'ú' || s[i]
                == 'ý' || s[i] == 'ž'),
{
    assert forall|c: char| #[trigger] is_slovak_letter(c) <==> (c == 'á' || c == 'č' || c == 'ď'
        || c == 'é' || c == 'í' || c == 'ľ' || c == 'ĺ' || c == 'ň' || c == 'ó' || c == 'ô' || c
        == 'ŕ' || c == 'š' || c == 'ť' || c == 'ú' || c == 'ý' || c == 'ž') by {
        lemma_slovak_letter(c);
    }
    if is_slovak(s) {
        let i = choose|i: int| 0 <= i < s.len() && is_slovak_letter(#[trigger] s[i]);
        assert(is_slovak_letter(s[i]));
    }
    if exists|i: int|
        0 <= i < s.len() && ((#[trigger] s[i]) == 'á' || s[i] == 'č' || s[i] == 'ď' || s[i] == 'é'
            || s[i] == 'í' || s[i] == 'ľ' || s[i] == 'ĺ' || s[i] == 'ň' || s[i] == 'ó' || s[i]
            == 'ô' || s[i] == 'ŕ' || s[i] == 'š' || s[i] == 'ť' || s[i] == 'ú' || s[i] == 'ý'
            || s[i] == 'ž') {
        let i = choose|i: int|
            0 <= i < s.len() && ((#[trigger] s[i]) == 'á' || s[i] == 'č' || s[i] == 'ď' || s[i]
                == 'é' || s[i] == 'í' || s[i] == 'ľ' || s[i] == 'ĺ' || s[i] == 'ň' || s[i] == 'ó'
                || s[i] == 'ô' || s[i] == 'ŕ' || s[i] == 'š' || s[i] == 'ť' || s[i] == 'ú' || s[i]
                == 'ý' || s[i] == 'ž');
        assert(is_slovak_letter(s[i]));
    }
}

proof fn lemma_slovak_letter(c: char)
    ensures
        is_slovak_letter(c) <==> (c == 'á' || c == 'č' || c == 'ď' || c == 'é' || c == 'í' || c
            == 'ľ' || c == 'ĺ' || c == 'ň' || c == 'ó' || c == 'ô' || c == 'ŕ' || c == 'š' || c
            == 'ť' || c == 'ú' || c == 'ý' || c == 'ž'),
{
    reveal_strlit("áčďéíľĺňóôŕšťúýž");
    let s = "áčďéíľĺňóôŕšťúýž"@;
    assert(s.len() == 16);
    assert(s[0] == 'á' && s[1] == 'č' && s[2] == 'ď' && s[3] == 'é' && s[4] == 'í' && s[5] == 'ľ'
        && s[6] == 'ĺ' && s[7] == 'ň');
    assert(s[8] == 'ó' && s[9] == 'ô' && s[10] == 'ŕ' && s[11] == 'š' && s[12] == 'ť' && s[13]
        == 'ú' && s[14] == 'ý' && s[15] == 'ž');
    if has_char(s, c) {
        let i = choose|i: int| 0 <= i < s.len() && s[i] == c;
        assert(i == 0 || i == 1 || i == 2 || i == 3 || i == 4 || i == 5 || i == 6 || i == 7 || i
            == 8 || i == 9 || i == 10 || i == 11 || i == 12 || i == 13 || i == 14 || i == 15);
    }
}

/// What was seen last is noted kind by kind in this order, and nothing is noted of what
/// was not seen.
pub proof fn references_are_noted_in_order(refs: RuntimeRefs)
    ensures
        refs.mail is None && refs.file is None && refs.odoo is None && refs.whatsapp is None
            ==> tool_context(refs) is None,
        reference_notes(refs).len() == (if refs.mail is Some {
            1int
        } else {
            0
        }) + (if refs.file is Some {
            1int
        } else {
            0
        }) + (if refs.odoo is Some {
            1int
        } else {
            0
        }) + (if refs.whatsapp is Some {
            1int
        } else {
            0
        }),
        refs.mail matches Some(m) ==> reference_notes(refs)[0] == "Last mail seen: rowid="@
            + crate::gate::signed_text(m.rowid as int) + " subject=\""@ + m.subject@ + "\" from "@
            + m.sender@,
        refs.mail is None ==> (refs.file matches Some(f) ==> reference_notes(refs)[0]
            == "Last file seen: "@ + f.path@),
        refs.whatsapp is None ==> (refs.odoo matches Some(o) ==> reference_notes(refs).last()
            == "Last Odoo record seen: model="@ + o.model@ + " id="@ + crate::gate::signed_text(
            o.id as int,
        ) + " name=\""@ + o.name@ + "\""@),
        refs.whatsapp matches Some(w) ==> reference_notes(refs).last()
            == "Last WhatsApp chat seen: chat_id="@ + w.chat_id@ + " contact="@ + match
            w.contact_name {
            Some(name) => name@,
            None => "?"@,
        },
        tool_context(refs) matches Some(text) ==> text
            == "Recent tool references (for follow-ups like \"open it\"):\n"@ + join(
            reference_notes(refs),
            "\n"@,
        ),
{
}

/// Attached files are shown under their names in order; images are left out, and a file
/// without text says so.
pub proof fn attachments_are_shown_in_order(list: Seq<LoadedAttachment>, more: LoadedAttachment)
    ensures
        more.row matches Some(row) ==> (row.kind@ != "image"@ ==> attachment_parts(list.push(more))
            == attachment_parts(list).push(
            "### "@ + row.filename@ + "\n"@ + match row.extracted_text {
                Some(text) => text@,
                None => "[obsah nedostupný]"@,
            },
        )),
        more.row matches Some(row) ==> (row.kind@ == "image"@ ==> attachment_parts(list.push(more))
            == attachment_parts(list)),
        more.row is None ==> attachment_parts(list.push(more)) == attachment_parts(list),
        more.row is Some ==> found_ids(list.push(more)) == found_ids(list).push(more.id@),
        more.row is None ==> found_ids(list.push(more)) == found_ids(list),
        attachment_parts(list).len() == 0 ==> attachment_context(list) is None,
        attachment_parts(list).len() > 0 ==> attachment_context(list) == Some(
            "Pripojené súbory:\n\n"@ + join(attachment_parts(list), "\n\n"@),
        ),
{
    assert(list.push(more).drop_last() =~= list);
}

/// What is on the screen comes behind the attached files, and each of its parts under its
/// heading; without a screen the files stand alone.
pub proof fn the_screen_follows_the_files(
    attachments: Option<Seq<char>>,
    screen: ScreenContext,
)
    ensures
        ({
            let app = screen.active_app;
            let selected = screen.selected_text;
            let ocr = screen.ocr_text;
            let parts = screen_parts(screen);
            &&& app is None && selected is None && ocr is None ==> parts.len() == 0
                && merged_context(attachments, parts) == attachments
            &&& app is Some ==> parts.len() > 0 && parts[0] == "### Aktívna aplikácia\n"@
                + app->0@
            &&& app is None && selected is Some && selected->0@.len() > 0 ==> parts[0]
                == "### Vybraný text (pii: true)\n"@ + selected->0@
            &&& ocr is Some && ocr->0@.len() > 0 ==> parts.last()
                == "### OCR text z obrazovky (pii: true)\n"@ + ocr->0@
            &&& parts.len() > 0 && attachments is None ==> merged_context(attachments, parts)
                == Some(join(parts, "\n\n"@))
            &&& parts.len() > 0 && attachments is Some ==> merged_context(attachments, parts)
                == Some(attachments->0 + "\n\n"@ + join(parts, "\n\n"@))
        }),
{
}

/// A turn is prepared with the model that was asked for or the default one, in the
/// language of the message, and with what is remembered and attached.
pub proof fn turns_are_prepared_as_asked(
    turn: PreparedTurn,
    request: ChatRequest,
    default_model: Seq<char>,
    refs: RuntimeRefs,
    attachments: Seq<LoadedAttachment>,
)
    requires
        is_prepared(turn, request, default_model, refs, attachments),
    ensures
        request.model matches Some(model) ==> turn.model@ == model@,
        request.model is None ==> turn.model@ == default_model,
        is_slovak(request.message@) ==> turn.language@ == "sk"@,
        !is_slovak(request.message@) ==> turn.language@ == "en"@,
        turn.history@.len() <= 10,
        turn.tool_context is Some <==> tool_context(refs) is Some,
{
    crate::chat::history_is_bounded(request.history@);
    assert(spoken(turn.history@).len() == turn.history@.len());
}

/// The message of the user closes a prompt, behind what was built and what is remembered,
/// and each of them has its layer.
pub proof fn prompts_end_with_the_message(
    built: Prompt,
    history: Seq<ChatMessage>,
    message: Seq<char>,
    prompt: Prompt,
)
    requires
        splices(built, history, message, prompt),
    ensures
        prompt.messages@.len() == built.messages@.len() + history.len() + 1,
        prompt.messages@.last().role@ == "user"@,
        prompt.messages@.last().content@ == message,
        prompt.messages@.last().tool_calls@.len() == 0,
        built.messages@.is_prefix_of(prompt.messages@),
        prompt.layers@.last().name@ == "current_user_turn"@,
        prompt.layers@.last().role@ == "user"@,
        prompt.layers@.last().included,
        prompt.layers@.last().chars == byte_len(message),
        prompt.layers@.last().preview@ == preview(message, 240),
        prompt.layers@.take(built.layers@.len() as int) == built.layers@,
        history.len() > 0 ==> prompt.layers@[built.layers@.len() as int].preview@ == preview(
            history.last().content@,
            240,
        ),
        history.len() > 0 ==> prompt.layers@[built.layers@.len() as int].name@
            == "conversation_history"@ && prompt.layers@[built.layers@.len() as int].role@
            == "user/assistant"@,
        prompt.layers@.len() == built.layers@.len() + if history.len() > 0 {
            2int
        } else {
            1int
        },
{
    let whole = built.messages@ + history;
    assert(prompt.messages@.drop_last() == whole);
    assert(prompt.messages@.subrange(0, built.messages@.len() as int) =~= built.messages@) by {
        assert forall|i: int| 0 <= i < built.messages@.len() implies prompt.messages@[i]
            == built.messages@[i] by {
            assert(prompt.messages@.drop_last()[i] == whole[i]);
        }
    }
}

/// A limit is what was asked for, or the default, and never above the greatest allowed.
pub proof fn limits_stay_below_the_greatest(asked: Option<usize>, default: usize, max: usize)
    ensures
        limited(asked, default, max) <= max,
        asked matches Some(n) ==> (n <= max ==> limited(asked, default, max) == n),
        asked matches Some(n) ==> (n > max ==> limited(asked, default, max) == max),
        asked is None && default <= max ==> limited(asked, default, max) == default,
{
}

/// A credential is taken without the white space around it; a blank one takes the old one
/// away, and one of more than 512 bytes is refused.
pub proof fn credentials_are_taken_bare(value: Option<Seq<char>>)
    ensures
        value is None ==> credential(value) == Ok::<Option<Seq<char>>, ()>(None),
        value matches Some(text) ==> (trim(text).len() == 0 ==> credential(value) == Ok::<
            Option<Seq<char>>,
            (),
        >(None)),
        value matches Some(text) ==> (trim(text).len() > 0 && byte_len(trim(text)) <= 512
            ==> credential(value) == Ok::<Option<Seq<char>>, ()>(Some(trim(text)))),
        value matches Some(text) ==> (trim(text).len() > 0 && byte_len(trim(text)) > 512
            ==> credential(value) is Err),
{
}

/// A decision is written down as what it was, and an action as done exactly where it did
/// not fail.
pub proof fn decisions_are_written_down(
    allow: bool,
    path_hash: Option<Seq<char>>,
    app: Option<Seq<char>>,
    error: Option<Seq<char>>,
)
    ensures
        allow ==> decision_text(allow) == "allow"@,
        !allow ==> decision_text(allow) == "deny"@,
        audit_fields(path_hash, app, error).contains(
            ("ok"@, crate::diagnostics::Datum::Flag(error is None)),
        ),
        path_hash matches Some(hash) ==> audit_fields(path_hash, app, error)[0] == (
            "path_hash"@,
            crate::diagnostics::Datum::Text(hash),
        ),
        error matches Some(text) ==> audit_fields(path_hash, app, error).last() == (
            "error"@,
            crate::diagnostics::Datum::Text(text),
        ),
{
    let fields = audit_fields(path_hash, app, error);
    let at = (if path_hash is Some {
        1int
    } else {
        0
    }) + (if app is Some {
        1int
    } else {
        0
    });
    assert(fields[at] == ("ok"@, crate::diagnostics::Datum::Flag(error is None)));
}

/// A message is put before the user with its text and to the chat it names, else to the
/// number it names; without text or recipient, or where it is forbidden, it is refused.
pub proof fn messages_are_put_before_the_user(
    request: WhatsappSendRequest,
    rule: ApprovalLevel,
    step: SendStep,
)
    requires
        send_is_admitted(request, rule, step),
    ensures
        trim(request.text@).len() == 0 ==> step == SendStep::Refused(SendRefusal::TextEmpty),
        trim(request.text@).len() > 0 && request.chat_id is None && request.phone is None ==> step
            == SendStep::Refused(SendRefusal::TargetRequired),
        rule is Forbidden ==> step is Refused,
        !(step is Send),
        step matches SendStep::AskApproval(proposal) ==> {
            &&& proposal.text@ == trim(request.text@)
            &&& request.chat_id matches Some(id) ==> proposal.target == SendTarget::ChatId(id)
            &&& request.chat_id is None ==> (request.phone matches Some(number)
                && proposal.target == SendTarget::Phone(number))
            &&& proposal.description@ == "Odoslať WhatsApp správu — Príjemca: "@ + target_name(
                proposal.target,
            ) + " | Náhľad: "@ + crate::policy::send_preview(trim(request.text@))
        },
        trim(request.text@).len() > 0 && (request.chat_id is Some || request.phone is Some) && !(
        rule is Forbidden) ==> step is AskApproval,
{
}

/// The user's word decides: a message that was approved is sent as it was put, and one
/// that was not is refused.
pub proof fn the_user_decides(proposal: SendProposal, approved: bool, step: SendStep)
    requires
        send_is_decided(proposal, approved, step),
    ensures
        approved <==> step is Send,
        step matches SendStep::Send(sent) ==> sent == proposal,
        !approved ==> step == SendStep::Refused(SendRefusal::Denied),
        target_name(proposal.target) == match proposal.target {
            SendTarget::ChatId(id) => id@,
            SendTarget::Phone(number) => number@,
        },
{
}

/// What the user is asked names the task, its level, its privacy and its sources.
pub proof fn approval_names_the_task(
    description: Seq<char>,
    rating: TaskRating,
    sources: Seq<Seq<char>>,
)
    ensures
        ("Codex External Reasoning — "@ + description + "\nLevel: "@ + rating.level@
            + " | Privacy: "@ + rating.privacy_risk@ + " | Sources: "@ + source_list(
            sources,
        )).is_prefix_of(approval_text(description, rating, sources)),
        sources.len() == 0 ==> source_list(sources) == "none declared"@,
        sources.len() > 0 ==> source_list(sources) == join(sources, ", "@),
{
    let front = "Codex External Reasoning — "@ + description + "\nLevel: "@ + rating.level@
        + " | Privacy: "@ + rating.privacy_risk@ + " | Sources: "@ + source_list(sources);
    assert(approval_text(description, rating, sources).subrange(0, front.len() as int) =~= front);
}

/// A word is taken for a credential by how it begins or what it holds; it is written as
/// redacted, and every other word as it is.
pub proof fn credentials_are_redacted(list: Seq<Seq<char>>, i: int)
    requires
        0 <= i < list.len(),
    ensures
        ({
            let word = ascii_lowercase(list[i]);
            let secret = "bearer"@.is_prefix_of(word) || "sk-"@.is_prefix_of(word) || contains(
                word,
                "api_key"@,
            ) || contains(word, "authorization:"@);
            &&& secret ==> redacted_words(list)[i] == "[REDACTED]"@
            &&& !secret ==> redacted_words(list)[i] == list[i]
            &&& redacted_words(list).len() == list.len()
        }),
{
    let word = ascii_lowercase(list[i]);
    crate::text_laws::contained_texts_are_stretches(word, "bearer"@);
    crate::text_laws::contained_texts_are_stretches(word, "sk-"@);
}

/// A redacted text is its words, redacted, with one space between two.
pub proof fn redaction_keeps_the_words(s: Seq<char>)
    ensures
        redacted(s) == join(redacted_words(words(s)), " "@),
        (forall|i: int| 0 <= i < words(s).len() ==> !is_credential(#[trigger] words(s)[i]))
            ==> redacted(s) == collapse(s),
{
    if forall|i: int| 0 <= i < words(s).len() ==> !is_credential(#[trigger] words(s)[i]) {
        assert(redacted_words(words(s)) =~= words(s));
    }
}

/// The layers that went into a prompt are named in order.
pub proof fn used_layers_are_named(layers: Seq<PromptLayer>, more: PromptLayer)
    ensures
        more.included ==> included_names(layers.push(more)) == included_names(layers).push(
            more.name@,
        ),
        !more.included ==> included_names(layers.push(more)) == included_names(layers),
        recall_note(0) == "no past-chat candidates"@,
{
    assert(layers.push(more).drop_last() =~= layers);
}

/// The lines of a text that ends with a line break, or does not, with the break between
/// two; a carriage return before a break belongs to it.
pub proof fn lines_are_parted_by_breaks(s: Seq<char>)
    ensures
        ({
            let parts = split(s, '\n');
            &&& parts.last().len() > 0 ==> lines(s).len() == parts.len()
            &&& parts.last().len() == 0 ==> lines(s).len() == parts.len() - 1
            &&& forall|i: int|
                0 <= i < lines(s).len() ==> (parts[i].len() > 0 && parts[i].last() == '\r'
                    ==> #[trigger] lines(s)[i] == parts[i].drop_last()) && (!(parts[i].len() > 0
                    && parts[i].last() == '\r') ==> lines(s)[i] == parts[i])
        }),
{
    crate::text_laws::pieces_joined_make_the_text(s, '\n');
}

/// The references of a session are those of its first entry, and none without one.
pub proof fn sessions_have_their_own_references(sessions: SessionRefs, id: Seq<char>, i: int)
    requires
        0 <= i < sessions.entries@.len(),
        sessions.entries@[i].0@ == id,
        forall|k: int| 0 <= k < i ==> (#[trigger] sessions.entries@[k]).0@ != id,
    ensures
        sessions.refs(id) == sessions.entries@[i].1,
{
    lemma_entry(sessions.entries@, id, i, 0);
}

proof fn lemma_entry(entries: Seq<(String, RuntimeRefs)>, id: Seq<char>, i: int, from: int)
    requires
        0 <= from <= i < entries.len(),
        entries[i].0@ == id,
        forall|k: int| 0 <= k < i ==> (#[trigger] entries[k]).0@ != id,
    ensures
        entry_place(entries, id, from) == i,
    decreases i - from,
{
    if from < i {
        assert(entries[from].0@ != id);
        lemma_entry(entries, id, i, from + 1);
    }
}

pub proof fn unknown_sessions_have_no_references(sessions: SessionRefs, id: Seq<char>)
    requires
        forall|k: int|
            0 <= k < sessions.entries@.len() ==> (#[trigger] sessions.entries@[k]).0@ != id,
    ensures
        sessions.refs(id).mail is None,
        sessions.refs(id).file is None,
        sessions.refs(id).odoo is None,
        sessions.refs(id).whatsapp is None,
{
    lemma_no_entry(sessions.entries@, id, 0);
}

proof fn lemma_no_entry(entries: Seq<(String, RuntimeRefs)>, id: Seq<char>, from: int)
    requires
        0 <= from <= entries.len(),
        forall|k: int| 0 <= k < entries.len() ==> (#[trigger] entries[k]).0@ != id,
    ensures
        entry_place(entries, id, from) == entries.len(),
    decreases entries.len() - from,
{
    if from < entries.len() {
        assert(entries[from].0@ != id);
        lemma_no_entry(entries, id, from + 1);
    }
}

/// The process of a service is the one that its first line of that form names, and it
/// runs anew where there is one and it is another.
pub proof fn processes_are_told_apart(
    before: Seq<Seq<char>>,
    line: Seq<char>,
    behind: Seq<Seq<char>>,
    previous: Option<u32>,
    current: Option<u32>,
)
    requires
        forall|i: int|
            0 <= i < before.len() ==> !"pid = "@.is_prefix_of(trim(#[trigger] before[i])),
        "pid = "@.is_prefix_of(trim(line)),
    ensures
        pid_text(before + seq![line] + behind) == Some(trim(line).skip(6)),
        pid_text(before) is None,
        is_new_process(previous, current) <==> current is Some && (previous is None || previous->0
            != current->0),
        service_target(line) == "gui/"@ + line + "/com.bagent.basert"@,
    decreases before.len(),
{
    reveal_strlit("pid = ");
    let all = before + seq![line] + behind;
    if before.len() == 0 {
        assert(all[0] == line);
        crate::text_laws::contained_texts_are_stretches(trim(line), "pid = "@);
    } else {
        let rest = before.drop_first();
        assert forall|i: int| 0 <= i < rest.len() implies !"pid = "@.is_prefix_of(
            trim(#[trigger] rest[i]),
        ) by {
            assert(rest[i] == before[i + 1]);
        }
        processes_are_told_apart(rest, line, behind, previous, current);
        assert(all.drop_first() =~= rest + seq![line] + behind);
        assert(all[0] == before[0]);
        crate::text_laws::contained_texts_are_stretches(trim(before[0]), "pid = "@);
    }
}

/// A file is stored under the digest of its bytes; one that is empty, too large, an image
/// or unreadable is refused, each for its own reason.
pub proof fn files_are_stored_by_content(
    field: UploadField,
    result: Result<StoredUpload, UploadError>,
)
    requires
        is_received(Some(field), result),
    ensures
        field.bytes matches Err(error) ==> result == Err::<StoredUpload, UploadError>(
            UploadError::Unreadable(error),
        ),
        field.bytes matches Ok(bytes) ==> (bytes@.len() > 20_971_520 ==> result == Err::<
            StoredUpload,
            UploadError,
        >(UploadError::TooLarge)),
        field.bytes matches Ok(bytes) ==> (bytes@.len() == 0 ==> result == Err::<
            StoredUpload,
            UploadError,
        >(UploadError::NoFile)),
        result matches Ok(upload) ==> {
            &&& field.bytes matches Ok(bytes) && upload.bytes == bytes
            &&& field.filename matches Some(name) ==> upload.filename@ == name@
            &&& field.filename is None ==> upload.filename@ == "attachment"@
            &&& field.content_type matches Some(mime) ==> upload.mime@ == mime@
            &&& field.content_type is None ==> upload.mime@ == "application/octet-stream"@
            &&& upload.sha256@ == crate::text::hex(crate::text::sha256(upload.bytes@))
            &&& upload.stored_name@ == upload.sha256@ + "."@ + extension(upload.filename@)
            &&& !"image/"@.is_prefix_of(upload.mime@)
        },
        (field.content_type matches Some(mime) && "image/"@.is_prefix_of(mime@)) && (
        field.bytes matches Ok(bytes) && 0 < bytes@.len() <= 20_971_520) ==> result == Err::<
            StoredUpload,
            UploadError,
        >(UploadError::ImageUnsupported),
{
    crate::text_laws::contained_texts_are_stretches(field_mime(field), "image/"@);
}

/// The ending of a stored name is that of the file where it is short and plain, and else
/// a neutral one.
pub proof fn stored_names_end_plainly(filename: Seq<char>)
    ensures
        ({
            let last = split(filename, '.').last();
            &&& extension(filename) == last || extension(filename) == "bin"@
            &&& byte_len(last) > 6 ==> extension(filename) == "bin"@
            &&& byte_len(last) <= 6 && (forall|i: int|
                0 <= i < last.len() ==> crate::text::alphanumeric(#[trigger] last[i]))
                ==> extension(filename) == last
            &&& (exists|i: int|
                0 <= i < last.len() && !crate::text::alphanumeric(#[trigger] last[i]))
                ==> extension(filename) == "bin"@
        }),
{
}

/// A process is known by the number behind its mark, where that fits a process number.
pub proof fn process_numbers_are_listed(text: Seq<char>)
    ensures
        ({
            let mark = pid_text(split(text, '\n'));
            &&& mark is None ==> listed_pid(text) is None
            &&& mark is Some && number_of(mark->0) is None ==> listed_pid(text) is None
            &&& mark is Some && number_of(mark->0) is Some && number_of(mark->0)->0
                <= 4_294_967_295 ==> listed_pid(text) == number_of(mark->0)
            &&& mark is Some && number_of(mark->0) is Some && number_of(mark->0)->0
                > 4_294_967_295 ==> listed_pid(text) is None
        }),
{
}

/// A path stands in the record of an action as its digest alone.
pub proof fn paths_are_recorded_as_digests(path: Option<&str>)
    ensures
        path matches Some(text) ==> hash_of(path) == Some(sha256_text(text@)),
        path is None ==> hash_of(path) is None,
{
}

/// An answer with structure is summed up by its summary, and without one by nothing;
/// one without structure by its text. Its lists are those of its own names.
pub proof fn answers_are_summed_up(summary: CodexSummary, run: CodexRun, key: Seq<char>)
    requires
        is_summary(summary, run),
    ensures
        run.parsed_output is None ==> summary is Text && summary->Text_0@ == run.result_text@,
        run.parsed_output matches Some(output) ==> {
            &&& lookup(output, "summary"@) matches Some(value) ==> summary is Value
                && *summary->Value_0 == value
            &&& lookup(output, "summary"@) is None ==> summary is Text && summary->Text_0@ == ""@
            &&& list_field(run.parsed_output, key) is Some <==> (lookup(output, key) matches Some(
                value,
            ) && value is Array)
        },
        run.parsed_output is None ==> list_field(run.parsed_output, key) is None,
{
}

/// A trace line names the layers that were used, what was recalled and, where mail was
/// searched, how often, in at most 180 bytes.
pub proof fn trace_lines_are_short(layers: Seq<PromptLayer>, candidates: nat, attempts: u64)
    ensures
        trace_preview(layers, candidates, None) == preview(
            join(included_names(layers), ", "@) + "; "@ + recall_note(candidates),
            180,
        ),
        trace_preview(layers, candidates, Some(attempts)) == preview(
            join(included_names(layers), ", "@) + "; "@ + recall_note(candidates)
                + "; mail search attempts="@ + decimal(attempts as nat),
            180,
        ),
{
    reveal_strlit("");
    let line = join(included_names(layers), ", "@) + "; "@ + recall_note(candidates);
    assert(line + ""@ =~= line);
    assert(line + ("; mail search attempts="@ + decimal(attempts as nat)) =~= line
        + "; mail search attempts="@ + decimal(attempts as nat));
}

/// A task runs outside only where it cannot be done here or is forced to, the harness is
/// there, the rules do not forbid it, and the user approves; what it is then given are
/// references, with their source and without any content.
pub proof fn outside_tasks_are_admitted_last(
    request: CodexRunTaskRequest,
    rating: TaskRating,
    available: bool,
    rule: ApprovalLevel,
    step: CodexStep,
)
    requires
        task_is_admitted(request, rating, available, rule, step),
    ensures
        step is AskApproval <==> (!rating.local || request.force_codex) && available && !(
        rule is Forbidden),
        rating.local && !request.force_codex ==> step == CodexStep::Refused(
            CodexRefusal::LocalSufficient,
        ),
        (!rating.local || request.force_codex) && !available ==> step == CodexStep::Refused(
            CodexRefusal::NotFound,
        ),
        (!rating.local || request.force_codex) && available && rule is Forbidden ==> step
            == CodexStep::Refused(CodexRefusal::Forbidden),
        step matches CodexStep::AskApproval(proposal) ==> {
            &&& proposal.allowed_context@.len() == request.context_refs@.len()
            &&& forall|i: int|
                0 <= i < request.context_refs@.len() ==> {
                    let item = #[trigger] proposal.allowed_context@[i];
                    let reference = request.context_refs@[i]@;
                    &&& item.record_ref@ == reference
                    &&& item.source@ == source_of(reference)
                    &&& item.summary@ == "(Summary for "@ + reference
                        + " pending user approval)"@
                    &&& item.pii
                }
        },
{
}

/// An approved task runs as it was proposed, and any other is denied.
pub proof fn approved_tasks_run_as_proposed(proposal: CodexProposal, approved: bool, step: CodexStep)
    requires
        task_is_decided(proposal, approved, step),
    ensures
        approved ==> step == CodexStep::Run(proposal),
        !approved ==> step == CodexStep::Refused(CodexRefusal::Denied),
{
}

/// The size of a history is the bytes of what was said in it.
pub proof fn histories_are_measured_in_bytes(
    turns: Seq<(Seq<char>, Seq<char>)>,
    role: Seq<char>,
    said: Seq<char>,
)
    ensures
        content_bytes(Seq::empty()) == 0,
        content_bytes(turns.push((role, said))) == content_bytes(turns) + byte_len(said),
{
    assert(turns.push((role, said)).drop_last() =~= turns);
}

/// A log is read line by line in its order; a line that is no record is left out.
pub proof fn records_are_read_in_order(list: Seq<Seq<char>>, line: Seq<char>)
    ensures
        json_lines(Seq::empty()).len() == 0,
        parsed_json(line) is Some ==> json_lines(list.push(line)) == json_lines(list).push(
            parsed_json(line)->0,
        ),
        parsed_json(line) is None ==> json_lines(list.push(line)) == json_lines(list),
{
    assert(list.push(line).drop_last() =~= list);
}

/// The records of a text are those whose field holds that very text, in their order.
pub proof fn records_are_found_by_their_field(
    records: Seq<Json>,
    key: Seq<char>,
    text: Seq<char>,
    n: int,
)
    requires
        0 <= n < records.len(),
    ensures
        record_places(records, key, text, 0).len() == 0,
        text_field(records[n], key) == Some(text) ==> record_places(records, key, text, n + 1)
            == record_places(records, key, text, n).push(n),
        text_field(records[n], key) != Some(text) ==> record_places(records, key, text, n + 1)
            == record_places(records, key, text, n),
{
}

} // verus!
