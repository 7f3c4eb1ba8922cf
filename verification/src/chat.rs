//! A turn of the chat before a model is asked: the window of its history, its
//! language, and the context that goes with it.

use crate::bytes::{byte_len, byte_length};
use crate::gate::{signed_chars, signed_text};
use crate::previews::{
    preview, preview_text, redact_debug_text, redacted, PromptLayer,
};
use crate::sessions::RuntimeRefs;
use crate::synthesis::ChatMessage;
use crate::text::{
    chars_of, contains_char, has_char, join, join_chars, prefix, prefix_of, push_all, push_text,
    same, string_of, strings, texts, trim, trimmed,
};
use vstd::prelude::*;

verus! {

pub const HISTORY_MAX_TURNS: usize = 10;

pub const HISTORY_MAX_TURN_CHARS: usize = 1_500;

pub const HISTORY_MAX_TOTAL_CHARS: usize = 8_000;

/// Who spoke, and what was said.
pub open spec fn spoken(messages: Seq<ChatMessage>) -> Seq<(Seq<char>, Seq<char>)> {
    Seq::new(messages.len(), |i: int| (messages[i].role@, messages[i].content@))
}

/// The message calls no tool and answers none.
pub open spec fn is_bare(message: ChatMessage) -> bool {
    message.tool_calls@.len() == 0 && message.tool_call_id is None
}

pub open spec fn all_bare(messages: Seq<ChatMessage>) -> bool {
    forall|i: int| 0 <= i < messages.len() ==> is_bare(#[trigger] messages[i])
}

/// A turn of the user or of the assistant that says something.
pub open spec fn is_turn(message: ChatMessage) -> bool {
    (message.role@ == "user"@ || message.role@ == "assistant"@) && trim(message.content@).len() > 0
}

/// The turns of a history, each cut to its bound.
pub open spec fn cut_turns(messages: Seq<ChatMessage>) -> Seq<(Seq<char>, Seq<char>)>
    decreases messages.len(),
{
    if messages.len() == 0 {
        Seq::empty()
    } else {
        let before = cut_turns(messages.drop_last());
        let message = messages.last();
        if is_turn(message) {
            before.push((message.role@, prefix(message.content@, HISTORY_MAX_TURN_CHARS as int)))
        } else {
            before
        }
    }
}

pub open spec fn last_turns(turns: Seq<(Seq<char>, Seq<char>)>) -> Seq<(Seq<char>, Seq<char>)> {
    if turns.len() <= HISTORY_MAX_TURNS {
        turns
    } else {
        turns.skip(turns.len() - HISTORY_MAX_TURNS)
    }
}

pub open spec fn total_chars(turns: Seq<(Seq<char>, Seq<char>)>) -> nat
    decreases turns.len(),
{
    if turns.len() == 0 {
        0
    } else {
        turns[0].1.len() + total_chars(turns.drop_first())
    }
}

/// Without the oldest turns, until the rest is within the bound.
pub open spec fn fitted(turns: Seq<(Seq<char>, Seq<char>)>) -> Seq<(Seq<char>, Seq<char>)>
    decreases turns.len(),
{
    if total_chars(turns) <= HISTORY_MAX_TOTAL_CHARS || turns.len() == 0 {
        turns
    } else {
        fitted(turns.drop_first())
    }
}

/// The window of a history: its last turns, within the bounds.
pub open spec fn history_window(messages: Seq<ChatMessage>) -> Seq<(Seq<char>, Seq<char>)> {
    fitted(last_turns(cut_turns(messages)))
}

pub fn user_message(content: &str) -> (r: ChatMessage)
    ensures
        r.role@ == "user"@,
        r.content@ == content@,
        is_bare(r),
{
    ChatMessage {
        role: "user".to_owned(),
        content: content.to_owned(),
        tool_calls: Vec::new(),
        tool_call_id: None,
    }
}

fn turns_of(messages: &Vec<ChatMessage>) -> (r: Vec<ChatMessage>)
    ensures
        spoken(r@) == cut_turns(messages@),
        all_bare(r@),
{
    let mut turns: Vec<ChatMessage> = Vec::new();
    let mut i: usize = 0;
    proof {
        assert(messages@.take(0) =~= Seq::<ChatMessage>::empty());
        assert(spoken(turns@) =~= cut_turns(messages@.take(0)));
    }
    while i < messages.len()
        invariant
            i <= messages@.len(),
            spoken(turns@) == cut_turns(messages@.take(i as int)),
            all_bare(turns@),
        decreases messages@.len() - i,
    {
        let ghost next = messages@.take(i + 1);
        proof {
            assert(next.drop_last() =~= messages@.take(i as int));
            assert(next.last() == messages@[i as int]);
        }
        let message = &messages[i];
        let content = chars_of(message.content.as_str());
        let kind = same(message.role.as_str(), "user") || same(message.role.as_str(), "assistant");
        if kind && trimmed(&content).len() > 0 {
            let cut = prefix_of(&content, HISTORY_MAX_TURN_CHARS);
            let ghost before = turns@;
            let turn = ChatMessage {
                role: message.role.clone(),
                content: string_of(&cut),
                tool_calls: Vec::new(),
                tool_call_id: None,
            };
            turns.push(turn);
            proof {
                assert(spoken(turns@) =~= spoken(before).push((turn.role@, turn.content@)));
            }
        }
        i = i + 1;
    }
    proof {
        assert(messages@.take(messages@.len() as int) =~= messages@);
    }
    turns
}

fn chars_total(turns: &Vec<ChatMessage>) -> (r: u128)
    requires
        turns@.len() <= HISTORY_MAX_TURNS,
    ensures
        r == total_chars(spoken(turns@)),
{
    let n: usize = turns.len();
    let ghost all = spoken(turns@);
    let mut total: u128 = 0;
    let mut i: usize = n;
    proof {
        assert(all.skip(n as int) =~= Seq::<(Seq<char>, Seq<char>)>::empty());
    }
    while i > 0
        invariant
            n == turns@.len(),
            n <= HISTORY_MAX_TURNS,
            i <= n,
            all == spoken(turns@),
            total == total_chars(all.skip(i as int)),
            total <= (n - i) * 0xffff_ffff_ffff_ffff,
        decreases i,
    {
        i = i - 1;
        proof {
            assert(all.skip(i as int).drop_first() =~= all.skip(i + 1));
        }
        let content = chars_of(turns[i].content.as_str());
        let size: usize = content.len();
        total = total + size as u128;
    }
    proof {
        assert(all.skip(0) =~= all);
    }
    total
}

/// The history that a model is shown, the oldest turn first.
pub fn clamp_history(messages: &Vec<ChatMessage>) -> (r: Vec<ChatMessage>)
    ensures
        spoken(r@) == history_window(messages@),
        all_bare(r@),
{
    let mut turns = turns_of(messages);
    let ghost cut = cut_turns(messages@);
    while turns.len() > HISTORY_MAX_TURNS
        invariant
            last_turns(spoken(turns@)) == last_turns(cut),
            all_bare(turns@),
        decreases turns@.len(),
    {
        let ghost before = turns@;
        let first = turns.remove(0);
        proof {
            assert(turns@ =~= before.skip(1));
            assert(spoken(turns@) =~= spoken(before).skip(1));
            assert(last_turns(spoken(turns@)) =~= last_turns(spoken(before)));
        }
    }
    proof {
        assert(spoken(turns@) == last_turns(cut));
    }
    let mut total: u128 = chars_total(&turns);
    while total > HISTORY_MAX_TOTAL_CHARS as u128 && turns.len() > 0
        invariant
            total == total_chars(spoken(turns@)),
            turns@.len() <= HISTORY_MAX_TURNS,
            fitted(spoken(turns@)) == fitted(last_turns(cut)),
            all_bare(turns@),
        decreases turns@.len(),
    {
        let ghost before = turns@;
        let first = turns.remove(0);
        proof {
            assert(turns@ =~= before.skip(1));
            assert(spoken(before).drop_first() =~= spoken(turns@));
        }
        total = chars_total(&turns);
    }
    turns
}

proof fn lemma_fitted(turns: Seq<(Seq<char>, Seq<char>)>)
    ensures
        fitted(turns).len() <= turns.len(),
        total_chars(fitted(turns)) <= HISTORY_MAX_TOTAL_CHARS,
        fitted(turns) == turns.skip(turns.len() - fitted(turns).len()),
    decreases turns.len(),
{
    if total_chars(turns) <= HISTORY_MAX_TOTAL_CHARS || turns.len() == 0 {
        assert(turns.skip(0) =~= turns);
    } else {
        let rest = turns.drop_first();
        lemma_fitted(rest);
        assert(turns.skip(turns.len() - fitted(rest).len()) =~= rest.skip(
            rest.len() - fitted(rest).len(),
        ));
    }
}

/// The window is within its bounds, and holds the last turns of the history.
pub proof fn history_is_bounded(messages: Seq<ChatMessage>)
    ensures
        history_window(messages).len() <= HISTORY_MAX_TURNS,
        total_chars(history_window(messages)) <= HISTORY_MAX_TOTAL_CHARS,
        history_window(messages) == cut_turns(messages).skip(
            cut_turns(messages).len() - history_window(messages).len(),
        ),
{
    let cut = cut_turns(messages);
    let last = last_turns(cut);
    lemma_fitted(last);
    let window = fitted(last);
    assert(cut.skip(cut.len() - window.len()) =~= last.skip(last.len() - window.len())) by {
        if cut.len() <= HISTORY_MAX_TURNS {
        } else {
            assert(last =~= cut.skip(cut.len() - HISTORY_MAX_TURNS));
        }
    }
}

/// The letters that only Slovak writes.
pub open spec fn is_slovak_letter(c: char) -> bool {
    has_char("áčďéíľĺňóôŕšťúýž"@, c)
}

pub open spec fn is_slovak(s: Seq<char>) -> bool {
    exists|i: int| 0 <= i < s.len() && is_slovak_letter(#[trigger] s[i])
}

/// The language of a message, by its letters.
pub fn detect_language(message: &str) -> (r: &'static str)
    ensures
        r@ == if is_slovak(message@) {
            "sk"@
        } else {
            "en"@
        },
{
    let chars = chars_of(message);
    let letters = chars_of("áčďéíľĺňóôŕšťúýž");
    let mut i: usize = 0;
    while i < chars.len()
        invariant
            i <= chars@.len(),
            chars@ == message@,
            letters@ == "áčďéíľĺňóôŕšťúýž"@,
            forall|j: int| 0 <= j < i ==> !is_slovak_letter(#[trigger] chars@[j]),
        decreases chars@.len() - i,
    {
        if contains_char(&letters, chars[i]) {
            proof {
                assert(is_slovak_letter(message@[i as int]));
            }
            return "sk";
        }
        i = i + 1;
    }
    "en"
}

/// A note for each thing that a tool last returned.
pub open spec fn reference_notes(refs: RuntimeRefs) -> Seq<Seq<char>> {
    let mail: Seq<Seq<char>> = match refs.mail {
        Some(m) => seq![
            "Last mail seen: rowid="@ + signed_text(m.rowid as int) + " subject=\""@ + m.subject@
                + "\" from "@ + m.sender@,
        ],
        None => Seq::empty(),
    };
    let file: Seq<Seq<char>> = match refs.file {
        Some(f) => seq!["Last file seen: "@ + f.path@],
        None => Seq::empty(),
    };
    let odoo: Seq<Seq<char>> = match refs.odoo {
        Some(o) => seq![
            "Last Odoo record seen: model="@ + o.model@ + " id="@ + signed_text(o.id as int)
                + " name=\""@ + o.name@ + "\""@,
        ],
        None => Seq::empty(),
    };
    let whatsapp: Seq<Seq<char>> = match refs.whatsapp {
        Some(w) => seq![
            "Last WhatsApp chat seen: chat_id="@ + w.chat_id@ + " contact="@ + match w.contact_name {
                Some(name) => name@,
                None => "?"@,
            },
        ],
        None => Seq::empty(),
    };
    mail + file + odoo + whatsapp
}

/// What a model is told about earlier results.
pub open spec fn tool_context(refs: RuntimeRefs) -> Option<Seq<char>> {
    let notes = reference_notes(refs);
    if notes.len() == 0 {
        None
    } else {
        Some(
            "Recent tool references (for follow-ups like \"open it\"):\n"@ + join(notes, "\n"@),
        )
    }
}

pub open spec fn view_of(value: Option<String>) -> Option<Seq<char>> {
    match value {
        Some(text) => Some(text@),
        None => None,
    }
}

pub fn reference_context(refs: &RuntimeRefs) -> (r: Option<String>)
    ensures
        view_of(r) == tool_context(*refs),
{
    let mut notes: Vec<Vec<char>> = Vec::new();
    match &refs.mail {
        Some(m) => {
            let mut note = chars_of("Last mail seen: rowid=");
            push_all(&mut note, &signed_chars(m.rowid));
            push_text(&mut note, " subject=\"");
            push_text(&mut note, m.subject.as_str());
            push_text(&mut note, "\" from ");
            push_text(&mut note, m.sender.as_str());
            notes.push(note);
        },
        None => {},
    }
    match &refs.file {
        Some(f) => {
            let mut note = chars_of("Last file seen: ");
            push_text(&mut note, f.path.as_str());
            notes.push(note);
        },
        None => {},
    }
    match &refs.odoo {
        Some(o) => {
            let mut note = chars_of("Last Odoo record seen: model=");
            push_text(&mut note, o.model.as_str());
            push_text(&mut note, " id=");
            push_all(&mut note, &signed_chars(o.id));
            push_text(&mut note, " name=\"");
            push_text(&mut note, o.name.as_str());
            push_text(&mut note, "\"");
            notes.push(note);
        },
        None => {},
    }
    match &refs.whatsapp {
        Some(w) => {
            let mut note = chars_of("Last WhatsApp chat seen: chat_id=");
            push_text(&mut note, w.chat_id.as_str());
            push_text(&mut note, " contact=");
            match &w.contact_name {
                Some(name) => push_text(&mut note, name.as_str()),
                None => push_text(&mut note, "?"),
            }
            notes.push(note);
        },
        None => {},
    }
    proof {
        assert(texts(notes@) =~= reference_notes(*refs));
    }
    if notes.len() == 0 {
        return None;
    }
    let mut out = chars_of("Recent tool references (for follow-ups like \"open it\"):\n");
    push_all(&mut out, &join_chars(&notes, "\n"));
    Some(string_of(&out))
}

/// An attachment as it was stored.
#[derive(Debug, PartialEq, Eq)]
pub struct AttachmentRow {
    pub filename: String,
    pub kind: String,
    pub extracted_text: Option<String>,
}

/// An attachment of a turn, with what was stored under its name.
#[derive(Debug, PartialEq, Eq)]
pub struct LoadedAttachment {
    pub id: String,
    pub row: Option<AttachmentRow>,
}

pub open spec fn is_image(attachment: LoadedAttachment) -> bool {
    attachment.row matches Some(row) && row.kind@ == "image"@
}

pub open spec fn holds_image(list: Seq<LoadedAttachment>) -> bool {
    exists|i: int| 0 <= i < list.len() && is_image(#[trigger] list[i])
}

pub open spec fn attachment_part(row: AttachmentRow) -> Seq<char> {
    "### "@ + row.filename@ + "\n"@ + match row.extracted_text {
        Some(text) => text@,
        None => "[obsah nedostupný]"@,
    }
}

/// The texts of the attachments that are no images.
pub open spec fn attachment_parts(list: Seq<LoadedAttachment>) -> Seq<Seq<char>>
    decreases list.len(),
{
    if list.len() == 0 {
        Seq::empty()
    } else {
        let before = attachment_parts(list.drop_last());
        match list.last().row {
            Some(row) => if row.kind@ == "image"@ {
                before
            } else {
                before.push(attachment_part(row))
            },
            None => before,
        }
    }
}

/// The names of the attachments that were found.
pub open spec fn found_ids(list: Seq<LoadedAttachment>) -> Seq<Seq<char>>
    decreases list.len(),
{
    if list.len() == 0 {
        Seq::empty()
    } else {
        let before = found_ids(list.drop_last());
        if list.last().row is Some {
            before.push(list.last().id@)
        } else {
            before
        }
    }
}

pub open spec fn attachment_context(list: Seq<LoadedAttachment>) -> Option<Seq<char>> {
    let parts = attachment_parts(list);
    if parts.len() == 0 {
        None
    } else {
        Some("Pripojené súbory:\n\n"@ + join(parts, "\n\n"@))
    }
}

/// What the attachments of a turn come to.
#[derive(Debug, PartialEq, Eq)]
pub struct AttachmentData {
    pub ctx: Option<String>,
    pub turn_ids: Vec<String>,
    pub has_unsupported_image: bool,
}

pub fn read_attachments(list: &Vec<LoadedAttachment>) -> (r: AttachmentData)
    ensures
        view_of(r.ctx) == attachment_context(list@),
        strings(r.turn_ids@) == found_ids(list@),
        r.has_unsupported_image == holds_image(list@),
{
    let mut parts: Vec<Vec<char>> = Vec::new();
    let mut turn_ids: Vec<String> = Vec::new();
    let mut image = false;
    let mut i: usize = 0;
    proof {
        assert(list@.take(0) =~= Seq::<LoadedAttachment>::empty());
        assert(texts(parts@) =~= attachment_parts(list@.take(0)));
        assert(strings(turn_ids@) =~= found_ids(list@.take(0)));
    }
    while i < list.len()
        invariant
            i <= list@.len(),
            texts(parts@) == attachment_parts(list@.take(i as int)),
            strings(turn_ids@) == found_ids(list@.take(i as int)),
            image ==> holds_image(list@),
            !image ==> forall|j: int| 0 <= j < i ==> !is_image(#[trigger] list@[j]),
        decreases list@.len() - i,
    {
        let ghost next = list@.take(i + 1);
        proof {
            assert(next.drop_last() =~= list@.take(i as int));
            assert(next.last() == list@[i as int]);
        }
        match &list[i].row {
            Some(row) => {
                let ghost ids = turn_ids@;
                turn_ids.push(list[i].id.clone());
                proof {
                    assert(strings(turn_ids@) =~= strings(ids).push(list@[i as int].id@));
                }
                if same(row.kind.as_str(), "image") {
                    proof {
                        assert(is_image(list@[i as int]));
                    }
                    image = true;
                } else {
                    let mut part = chars_of("### ");
                    push_text(&mut part, row.filename.as_str());
                    push_text(&mut part, "\n");
                    match &row.extracted_text {
                        Some(text) => push_text(&mut part, text.as_str()),
                        None => push_text(&mut part, "[obsah nedostupný]"),
                    }
                    let ghost before = parts@;
                    parts.push(part);
                    proof {
                        assert(texts(parts@) =~= texts(before).push(attachment_part(*row)));
                    }
                }
            },
            None => {},
        }
        i = i + 1;
    }
    proof {
        assert(list@.take(list@.len() as int) =~= list@);
    }
    let ctx = if parts.len() == 0 {
        None
    } else {
        let mut out = chars_of("Pripojené súbory:\n\n");
        push_all(&mut out, &join_chars(&parts, "\n\n"));
        Some(string_of(&out))
    };
    AttachmentData { ctx, turn_ids, has_unsupported_image: image }
}

/// What is seen on the screen of the user.
#[derive(Debug, PartialEq, Eq)]
pub struct ScreenContext {
    pub active_app: Option<String>,
    pub selected_text: Option<String>,
    pub ocr_text: Option<String>,
}

pub open spec fn titled(title: Seq<char>, value: Option<String>, keep_empty: bool) -> Seq<
    Seq<char>,
> {
    match value {
        Some(text) => if keep_empty || text@.len() > 0 {
            seq![title + text@]
        } else {
            Seq::empty()
        },
        None => Seq::empty(),
    }
}

pub open spec fn screen_parts(screen: ScreenContext) -> Seq<Seq<char>> {
    titled("### Aktívna aplikácia\n"@, screen.active_app, true) + titled(
        "### Vybraný text (pii: true)\n"@,
        screen.selected_text,
        false,
    ) + titled("### OCR text z obrazovky (pii: true)\n"@, screen.ocr_text, false)
}

/// The context of the attachments, with that of the screen behind it.
pub open spec fn merged_context(
    attachments: Option<Seq<char>>,
    screen: Seq<Seq<char>>,
) -> Option<Seq<char>> {
    if screen.len() == 0 {
        attachments
    } else {
        match attachments {
            Some(text) => Some(text + "\n\n"@ + join(screen, "\n\n"@)),
            None => Some(join(screen, "\n\n"@)),
        }
    }
}

fn push_titled(parts: &mut Vec<Vec<char>>, title: &str, value: &Option<String>, keep_empty: bool)
    ensures
        texts(final(parts)@) == texts(old(parts)@) + titled(title@, *value, keep_empty),
{
    let ghost before = parts@;
    match value {
        Some(text) => {
            let content = chars_of(text.as_str());
            if keep_empty || content.len() > 0 {
                let mut part = chars_of(title);
                push_all(&mut part, &content);
                parts.push(part);
                proof {
                    assert(texts(parts@) =~= texts(before) + titled(title@, *value, keep_empty));
                }
                return;
            }
        },
        None => {},
    }
    proof {
        assert(texts(parts@) =~= texts(before) + titled(title@, *value, keep_empty));
    }
}

pub fn merge_screen_context(attachments: Option<String>, screen: &ScreenContext) -> (r: Option<
    String,
>)
    ensures
        view_of(r) == merged_context(view_of(attachments), screen_parts(*screen)),
{
    let mut parts: Vec<Vec<char>> = Vec::new();
    proof {
        assert(texts(parts@) =~= Seq::<Seq<char>>::empty());
    }
    push_titled(&mut parts, "### Aktívna aplikácia\n", &screen.active_app, true);
    proof {
        assert(texts(parts@) =~= titled("### Aktívna aplikácia\n"@, screen.active_app, true));
    }
    push_titled(&mut parts, "### Vybraný text (pii: true)\n", &screen.selected_text, false);
    push_titled(&mut parts, "### OCR text z obrazovky (pii: true)\n", &screen.ocr_text, false);
    if parts.len() == 0 {
        return attachments;
    }
    let joined = join_chars(&parts, "\n\n");
    match attachments {
        Some(text) => {
            let mut out = chars_of(text.as_str());
            push_text(&mut out, "\n\n");
            push_all(&mut out, &joined);
            Some(string_of(&out))
        },
        None => Some(string_of(&joined)),
    }
}

/// A turn as it is asked for.
#[derive(Debug, PartialEq, Eq)]
pub struct ChatRequest {
    pub message: String,
    /// The turns before, the oldest first.
    pub history: Vec<ChatMessage>,
    pub model: Option<String>,
    pub screen: ScreenContext,
}

/// A turn that a model can be asked with.
#[derive(Debug, PartialEq, Eq)]
pub struct PreparedTurn {
    pub model: String,
    pub language: &'static str,
    pub history: Vec<ChatMessage>,
    pub tool_context: Option<String>,
    pub attachment_context: Option<String>,
    pub turn_ids: Vec<String>,
}

#[derive(Debug, PartialEq, Eq)]
pub enum ChatPlan {
    /// An image is attached, which no model here can read.
    ImageUnsupported,
    Proceed(PreparedTurn),
}

pub open spec fn is_prepared(
    turn: PreparedTurn,
    request: ChatRequest,
    default_model: Seq<char>,
    refs: RuntimeRefs,
    attachments: Seq<LoadedAttachment>,
) -> bool {
    &&& turn.model@ == match request.model {
        Some(model) => model@,
        None => default_model,
    }
    &&& turn.language@ == if is_slovak(request.message@) {
        "sk"@
    } else {
        "en"@
    }
    &&& spoken(turn.history@) == history_window(request.history@)
    &&& all_bare(turn.history@)
    &&& view_of(turn.tool_context) == tool_context(refs)
    &&& view_of(turn.attachment_context) == merged_context(
        attachment_context(attachments),
        screen_parts(request.screen),
    )
    &&& strings(turn.turn_ids@) == found_ids(attachments)
}

/// Prepares a turn: an image among its attachments ends it, and anything else
/// goes to the model with its context.
pub fn prepare_chat(
    request: &ChatRequest,
    default_model: &str,
    refs: &RuntimeRefs,
    attachments: &Vec<LoadedAttachment>,
) -> (r: ChatPlan)
    ensures
        match r {
            ChatPlan::ImageUnsupported => holds_image(attachments@),
            ChatPlan::Proceed(turn) => !holds_image(attachments@) && is_prepared(
                turn,
                *request,
                default_model@,
                *refs,
                attachments@,
            ),
        },
{
    let data = read_attachments(attachments);
    if data.has_unsupported_image {
        return ChatPlan::ImageUnsupported;
    }
    let model = match &request.model {
        Some(model) => model.clone(),
        None => default_model.to_owned(),
    };
    ChatPlan::Proceed(
        PreparedTurn {
            model,
            language: detect_language(request.message.as_str()),
            history: clamp_history(&request.history),
            tool_context: reference_context(refs),
            attachment_context: merge_screen_context(data.ctx, &request.screen),
            turn_ids: data.turn_ids,
        },
    )
}

/// The bytes of all contents.
pub open spec fn content_bytes(turns: Seq<(Seq<char>, Seq<char>)>) -> nat
    decreases turns.len(),
{
    if turns.len() == 0 {
        0
    } else {
        content_bytes(turns.drop_last()) + byte_len(turns.last().1)
    }
}

/// The prompt of a turn.
#[derive(Debug, PartialEq, Eq)]
pub struct Prompt {
    pub messages: Vec<ChatMessage>,
    pub layers: Vec<PromptLayer>,
}

pub open spec fn is_layer(
    layer: PromptLayer,
    name: Seq<char>,
    role: Seq<char>,
    chars: nat,
    text: Seq<char>,
) -> bool {
    &&& layer.name@ == name
    &&& layer.role@ == role
    &&& layer.included
    &&& layer.chars == chars
    &&& layer.preview@ == preview(text, 240)
}

/// The messages before, as they are, and one of the user that says the text and
/// nothing else.
pub open spec fn ends_with_user(
    before: Seq<ChatMessage>,
    message: Seq<char>,
    messages: Seq<ChatMessage>,
) -> bool {
    &&& messages.len() == before.len() + 1
    &&& messages.drop_last() == before
    &&& messages.last().role@ == "user"@
    &&& messages.last().content@ == message
    &&& is_bare(messages.last())
}

/// A prompt of a model: the layers that were built, the history, and the
/// message of the user at the end.
pub open spec fn splices(
    built: Prompt,
    history: Seq<ChatMessage>,
    message: Seq<char>,
    prompt: Prompt,
) -> bool {
    let k = built.layers@.len() as int;
    let added: int = if history.len() > 0 {
        2
    } else {
        1
    };
    &&& ends_with_user(built.messages@ + history, message, prompt.messages@)
    &&& prompt.layers@.len() == k + added
    &&& prompt.layers@.take(k) == built.layers@
    &&& history.len() > 0 ==> is_layer(
        prompt.layers@[k],
        "conversation_history"@,
        "user/assistant"@,
        content_bytes(spoken(history)),
        history.last().content@,
    )
    &&& is_layer(
        prompt.layers@.last(),
        "current_user_turn"@,
        "user"@,
        byte_len(message),
        message,
    )
}

proof fn lemma_content_bytes(turns: Seq<(Seq<char>, Seq<char>)>, n: int)
    requires
        0 <= n <= turns.len(),
    ensures
        content_bytes(turns.take(n)) <= content_bytes(turns),
    decreases turns.len(),
{
    if n < turns.len() {
        assert(turns.drop_last().take(n) =~= turns.take(n));
        lemma_content_bytes(turns.drop_last(), n);
    } else {
        assert(turns.take(n) =~= turns);
    }
}

/// The bytes of the contents of some messages.
pub fn prompt_size(messages: &Vec<ChatMessage>) -> (r: u128)
    requires
        content_bytes(spoken(messages@)) <= u128::MAX,
    ensures
        r == content_bytes(spoken(messages@)),
{
    let ghost all = spoken(messages@);
    let mut total: u128 = 0;
    let mut i: usize = 0;
    proof {
        assert(all.take(0) =~= Seq::<(Seq<char>, Seq<char>)>::empty());
    }
    while i < messages.len()
        invariant
            i <= messages@.len(),
            all == spoken(messages@),
            content_bytes(all) <= u128::MAX,
            total == content_bytes(all.take(i as int)),
        decreases messages@.len() - i,
    {
        let content = chars_of(messages[i].content.as_str());
        proof {
            assert(all.take(i + 1).drop_last() =~= all.take(i as int));
            lemma_content_bytes(all, i + 1);
        }
        total = total + byte_length(&content);
        i = i + 1;
    }
    proof {
        assert(all.take(all.len() as int) =~= all);
    }
    total
}

/// Puts the history and the message of the user behind the built layers.
pub fn splice_prompt(built: Prompt, history: Vec<ChatMessage>, message: &str) -> (r: Prompt)
    requires
        content_bytes(spoken(history@)) <= u128::MAX,
    ensures
        splices(built, history@, message@, r),
{
    let ghost before = built;
    let mut prompt = built;
    let mut history = history;
    let ghost turns = history@;
    let content = chars_of(message);
    if history.len() > 0 {
        let last = &history[history.len() - 1];
        let layer = PromptLayer {
            name: "conversation_history".to_owned(),
            role: "user/assistant".to_owned(),
            included: true,
            chars: prompt_size(&history),
            preview: preview_text(last.content.as_str(), 240),
        };
        prompt.layers.push(layer);
        prompt.messages.append(&mut history);
    }
    proof {
        assert(prompt.messages@ =~= before.messages@ + turns);
    }
    prompt.messages.push(user_message(message));
    prompt.layers.push(
        PromptLayer {
            name: "current_user_turn".to_owned(),
            role: "user".to_owned(),
            included: true,
            chars: byte_length(&content),
            preview: preview_text(message, 240),
        },
    );
    proof {
        assert(prompt.messages@.drop_last() =~= before.messages@ + turns);
        assert(prompt.layers@.take(before.layers@.len() as int) =~= before.layers@);
    }
    prompt
}

/// The prompt where no layers could be built.
pub fn plain_prompt(history: Vec<ChatMessage>, message: &str) -> (r: Vec<ChatMessage>)
    ensures
        ends_with_user(history@, message@, r@),
{
    let mut messages = history;
    let ghost turns = messages@;
    messages.push(user_message(message));
    proof {
        assert(messages@.drop_last() =~= turns);
    }
    messages
}

/// A message as it is written to the log.
#[derive(Debug, PartialEq, Eq)]
pub struct PromptDebugMessage {
    pub role: String,
    pub content: String,
    pub images_count: usize,
}

/// What is written to the log of a turn.
#[derive(Debug, PartialEq, Eq)]
pub struct PromptDebugRecord {
    pub user_message: String,
    pub prompt_chars: u128,
    pub prompt_token_estimate: u128,
    pub message_count: usize,
    pub prompt_messages: Vec<PromptDebugMessage>,
    pub response_preview: String,
    pub response_chars: u128,
}

pub open spec fn is_logged(entry: PromptDebugMessage, message: ChatMessage) -> bool {
    entry.role@ == message.role@ && entry.content@ == redacted(message.content@)
        && entry.images_count == 0
}

/// The record of a turn, with credentials left out of everything that is said.
pub fn debug_record(message: &str, messages: &Vec<ChatMessage>, response: &str) -> (r:
    PromptDebugRecord)
    requires
        content_bytes(spoken(messages@)) <= u128::MAX,
    ensures
        r.user_message@ == redacted(message@),
        r.prompt_chars == content_bytes(spoken(messages@)),
        r.prompt_token_estimate == r.prompt_chars / 4,
        r.message_count == messages@.len(),
        r.prompt_messages@.len() == messages@.len(),
        forall|i: int|
            0 <= i < messages@.len() ==> is_logged(#[trigger] r.prompt_messages@[i], messages@[i]),
        r.response_preview@ == redacted(preview(response@, 600)),
        r.response_chars == byte_len(response@),
{
    let mut entries: Vec<PromptDebugMessage> = Vec::new();
    let mut i: usize = 0;
    while i < messages.len()
        invariant
            i <= messages@.len(),
            entries@.len() == i,
            forall|j: int| 0 <= j < i ==> is_logged(#[trigger] entries@[j], messages@[j]),
        decreases messages@.len() - i,
    {
        entries.push(
            PromptDebugMessage {
                role: messages[i].role.clone(),
                content: redact_debug_text(messages[i].content.as_str()),
                images_count: 0,
            },
        );
        i = i + 1;
    }
    let prompt_chars: u128 = prompt_size(messages);
    let shown = preview_text(response, 600);
    let content = chars_of(response);
    PromptDebugRecord {
        user_message: redact_debug_text(message),
        prompt_chars,
        prompt_token_estimate: prompt_chars / 4,
        message_count: messages.len(),
        prompt_messages: entries,
        response_preview: redact_debug_text(shown.as_str()),
        response_chars: byte_length(&content),
    }
}

} // verus!
