//! The web, notes, chat and record tools of a turn: what they ask for, and what
//! they tell the model.

use crate::diagnostics::{data, Datum};
use crate::gate::json_number;
use crate::json::Json;
use crate::mail_tools::{
    item_data, labelled, labelled_text, number_datum, says, text_or_null, ToolReply,
};
use crate::search::{language_for, search_language};
use crate::sessions::{RecordRef, WhatsappRef};
use crate::text::{chars_of, prefix, prefix_of, same, string_of};
use crate::tool_args::{
    date_text, flag_arg, format_date, json_flag_arg, json_limit_arg, json_signed_arg,
    json_str_arg, limit_arg, option_text, signed_arg, text_arg,
};
use vstd::prelude::*;

verus! {

/// The most characters of a note that a model is shown.
pub const MAX_NOTE_CHARS: usize = 4_000;

/// The most characters of a chat message, and of the one that is remembered.
pub const MAX_CHAT_CHARS: usize = 500;

pub const MAX_SNIPPET_CHARS: usize = 120;

/// A text argument that a tool cannot do without.
pub fn required_arg(args: &Json, key: &str) -> (r: Result<String, String>)
    ensures
        match r {
            Ok(text) => text_arg(*args, key@) == Some(text@),
            Err(message) => text_arg(*args, key@) is None && message@ == key@
                + " is required."@,
        },
{
    match json_str_arg(args, key) {
        Some(text) => Ok(text),
        None => {
            let mut out = chars_of(key);
            crate::text::push_text(&mut out, " is required.");
            Err(string_of(&out))
        },
    }
}

/// The message that a tool reads or opens.
pub fn rowid_arg(args: &Json) -> (r: Result<i64, String>)
    ensures
        match r {
            Ok(rowid) => signed_arg(*args, "rowid"@) == Some(rowid),
            Err(message) => signed_arg(*args, "rowid"@) is None && message@
                == "rowid is required."@,
        },
{
    match json_signed_arg(args, "rowid") {
        Some(rowid) => Ok(rowid),
        None => Err("rowid is required.".to_owned()),
    }
}

/// What is searched for on the web, and in which language.
pub fn web_search_request(args: &Json) -> (r: Result<(String, &'static str), String>)
    ensures
        match r {
            Ok(request) => {
                &&& text_arg(*args, "query"@) == Some(request.0@)
                &&& request.1@ == match text_arg(*args, "lang"@) {
                    Some(lang) => search_language(lang),
                    None => "en"@,
                }
            },
            Err(message) => text_arg(*args, "query"@) is None && message@ == "query"@
                + " is required."@,
        },
{
    let query = match required_arg(args, "query") {
        Ok(query) => query,
        Err(message) => {
            return Err(message);
        },
    };
    let language = match json_str_arg(args, "lang") {
        Some(lang) => language_for(lang.as_str()),
        None => "en",
    };
    Ok((query, language))
}

/// A note as the connector lists it.
#[derive(Debug, PartialEq, Eq)]
pub struct NoteEntry {
    pub coredata_id: String,
    pub title: String,
    pub snippet: Option<String>,
    pub folder: Option<String>,
    pub modified_at: i64,
}

pub open spec fn text_datum(value: Option<String>) -> Datum {
    match value {
        Some(text) => Datum::Text(text@),
        None => Datum::Null,
    }
}

pub open spec fn note_item(note: NoteEntry) -> Seq<(Seq<char>, Datum)> {
    seq![
        ("coredata_id"@, Datum::Text(note.coredata_id@)),
        ("title"@, Datum::Text(note.title@)),
        ("snippet"@, text_datum(note.snippet)),
        ("folder"@, text_datum(note.folder)),
        ("modified"@, Datum::Text(date_text(note.modified_at))),
    ]
}

pub open spec fn lists_notes(items: Seq<Json>, notes: Seq<NoteEntry>) -> bool {
    &&& items.len() == notes.len()
    &&& forall|i: int|
        0 <= i < notes.len() ==> #[trigger] item_data(items[i]) == Some(note_item(notes[i]))
}

fn note_json(note: &NoteEntry) -> (r: Json)
    ensures
        item_data(r) == Some(note_item(*note)),
{
    let mut fields: Vec<(String, Json)> = Vec::new();
    let snippet = text_or_null(&note.snippet);
    let folder = text_or_null(&note.folder);
    fields.push(("coredata_id".to_owned(), Json::Text(note.coredata_id.clone())));
    fields.push(("title".to_owned(), Json::Text(note.title.clone())));
    fields.push(("snippet".to_owned(), snippet));
    fields.push(("folder".to_owned(), folder));
    fields.push(("modified".to_owned(), Json::Text(format_date(note.modified_at))));
    proof {
        assert(data(fields@) =~= note_item(*note));
    }
    Json::Object(fields)
}

/// What a model is told of the notes that were found.
pub fn notes_search_reply(found: Result<Vec<NoteEntry>, String>) -> (r: ToolReply)
    ensures
        match found {
            Ok(notes) => if notes@.len() == 0 {
                says(r, "No notes matched."@)
            } else {
                r matches ToolReply::Items(items) && lists_notes(items@, notes@)
            },
            Err(error) => says(r, labelled("Notes error: "@, error@)),
        },
{
    let notes = match found {
        Ok(notes) => notes,
        Err(error) => {
            return ToolReply::Text(labelled_text("Notes error: ", error.as_str()));
        },
    };
    if notes.len() == 0 {
        return ToolReply::Text("No notes matched.".to_owned());
    }
    let mut items: Vec<Json> = Vec::new();
    let mut i: usize = 0;
    while i < notes.len()
        invariant
            i <= notes@.len(),
            items@.len() == i,
            forall|j: int|
                0 <= j < i ==> #[trigger] item_data(items@[j]) == Some(note_item(notes@[j])),
        decreases notes@.len() - i,
    {
        let ghost before = items@;
        items.push(note_json(&notes[i]));
        proof {
            assert forall|j: int| 0 <= j < i + 1 implies #[trigger] item_data(items@[j]) == Some(
                note_item(notes@[j]),
            ) by {
                if j < i {
                    assert(items@[j] == before[j]);
                    assert(item_data(before[j]) == Some(note_item(notes@[j])));
                }
            }
        }
        i = i + 1;
    }
    ToolReply::Items(items)
}

/// What a model is told of a note that it reads.
pub fn notes_read_reply(found: Result<Option<String>, String>) -> (r: String)
    ensures
        r@ == match found {
            Ok(Some(body)) => prefix(body@, MAX_NOTE_CHARS as int),
            Ok(None) => "Note body unavailable (locked or missing)."@,
            Err(error) => labelled("Notes error: "@, error@),
        },
{
    match found {
        Ok(Some(body)) => {
            let chars = chars_of(body.as_str());
            let shown = prefix_of(&chars, MAX_NOTE_CHARS);
            string_of(&shown)
        },
        Ok(None) => "Note body unavailable (locked or missing).".to_owned(),
        Err(error) => labelled_text("Notes error: ", error.as_str()),
    }
}

/// A chat as the connector lists it.
#[derive(Debug, PartialEq, Eq)]
pub struct ChatEntry {
    pub id: String,
    pub name: Option<String>,
    pub is_group: bool,
    pub unread_count: i64,
    pub last_message_preview: Option<String>,
}

pub open spec fn chat_item(chat: ChatEntry) -> Seq<(Seq<char>, Datum)> {
    seq![
        ("chat_id"@, Datum::Text(chat.id@)),
        ("name"@, text_datum(chat.name)),
        ("is_group"@, Datum::Flag(chat.is_group)),
        ("unread"@, number_datum(chat.unread_count)),
        ("last_message"@, text_datum(chat.last_message_preview)),
    ]
}

pub open spec fn lists_chats(items: Seq<Json>, chats: Seq<ChatEntry>) -> bool {
    &&& items.len() == chats.len()
    &&& forall|i: int|
        0 <= i < chats.len() ==> #[trigger] item_data(items[i]) == Some(chat_item(chats[i]))
}

fn chat_json(chat: &ChatEntry) -> (r: Json)
    ensures
        item_data(r) == Some(chat_item(*chat)),
{
    let mut fields: Vec<(String, Json)> = Vec::new();
    let name = text_or_null(&chat.name);
    let unread = json_number(chat.unread_count);
    let last = text_or_null(&chat.last_message_preview);
    fields.push(("chat_id".to_owned(), Json::Text(chat.id.clone())));
    fields.push(("name".to_owned(), name));
    fields.push(("is_group".to_owned(), Json::Bool(chat.is_group)));
    fields.push(("unread".to_owned(), unread));
    fields.push(("last_message".to_owned(), last));
    proof {
        assert(data(fields@) =~= chat_item(*chat));
    }
    Json::Object(fields)
}

/// What a model is told of the chats.
pub fn chats_reply(found: Result<Vec<ChatEntry>, String>) -> (r: ToolReply)
    ensures
        match found {
            Ok(chats) => if chats@.len() == 0 {
                says(r, "No WhatsApp chats found."@)
            } else {
                r matches ToolReply::Items(items) && lists_chats(items@, chats@)
            },
            Err(error) => says(r, labelled("WhatsApp unavailable: "@, error@)),
        },
{
    let chats = match found {
        Ok(chats) => chats,
        Err(error) => {
            return ToolReply::Text(labelled_text("WhatsApp unavailable: ", error.as_str()));
        },
    };
    if chats.len() == 0 {
        return ToolReply::Text("No WhatsApp chats found.".to_owned());
    }
    let mut items: Vec<Json> = Vec::new();
    let mut i: usize = 0;
    while i < chats.len()
        invariant
            i <= chats@.len(),
            items@.len() == i,
            forall|j: int|
                0 <= j < i ==> #[trigger] item_data(items@[j]) == Some(chat_item(chats@[j])),
        decreases chats@.len() - i,
    {
        let ghost before = items@;
        items.push(chat_json(&chats[i]));
        proof {
            assert forall|j: int| 0 <= j < i + 1 implies #[trigger] item_data(items@[j]) == Some(
                chat_item(chats@[j]),
            ) by {
                if j < i {
                    assert(items@[j] == before[j]);
                    assert(item_data(before[j]) == Some(chat_item(chats@[j])));
                }
            }
        }
        i = i + 1;
    }
    ToolReply::Items(items)
}

/// A message of a chat.
#[derive(Debug, PartialEq, Eq)]
pub struct ChatLine {
    pub from_me: bool,
    pub from: String,
    pub body: String,
    pub timestamp: i64,
    pub has_media: bool,
}

pub open spec fn line_item(line: ChatLine) -> Seq<(Seq<char>, Datum)> {
    seq![
        (
            "from"@,
            Datum::Text(
                if line.from_me {
                    "me"@
                } else {
                    line.from@
                },
            ),
        ),
        ("body"@, Datum::Text(prefix(line.body@, MAX_CHAT_CHARS as int))),
        ("timestamp"@, number_datum(line.timestamp)),
        ("has_media"@, Datum::Flag(line.has_media)),
    ]
}

pub open spec fn lists_lines(items: Seq<Json>, lines: Seq<ChatLine>) -> bool {
    &&& items.len() == lines.len()
    &&& forall|i: int|
        0 <= i < lines.len() ==> #[trigger] item_data(items[i]) == Some(line_item(lines[i]))
}

fn line_json(line: &ChatLine) -> (r: Json)
    ensures
        item_data(r) == Some(line_item(*line)),
{
    let from = if line.from_me {
        "me".to_owned()
    } else {
        line.from.clone()
    };
    let body = prefix_of(&chars_of(line.body.as_str()), MAX_CHAT_CHARS);
    let timestamp = json_number(line.timestamp);
    let mut fields: Vec<(String, Json)> = Vec::new();
    fields.push(("from".to_owned(), Json::Text(from)));
    fields.push(("body".to_owned(), Json::Text(string_of(&body))));
    fields.push(("timestamp".to_owned(), timestamp));
    fields.push(("has_media".to_owned(), Json::Bool(line.has_media)));
    proof {
        assert(data(fields@) =~= line_item(*line));
    }
    Json::Object(fields)
}

/// The chat that is remembered, with its last message.
pub open spec fn is_chat_ref(found: WhatsappRef, chat_id: Seq<char>, last: ChatLine) -> bool {
    &&& found.chat_id@ == chat_id
    &&& found.contact_name is None
    &&& option_text(found.snippet) == Some(prefix(last.body@, MAX_SNIPPET_CHARS as int))
    &&& found.source@ == "tool_loop"@
    &&& found.last_message_timestamp == Some(last.timestamp)
}

/// What a model is told of the messages of a chat.
pub fn chat_messages_reply(chat_id: &str, found: Result<Vec<ChatLine>, String>) -> (r: (
    ToolReply,
    Option<WhatsappRef>,
))
    ensures
        match found {
            Ok(lines) => if lines@.len() == 0 {
                says(r.0, "No messages in that chat."@) && r.1 is None
            } else {
                &&& r.0 matches ToolReply::Items(items)
                &&& lists_lines(items@, lines@)
                &&& r.1 matches Some(seen)
                &&& is_chat_ref(seen, chat_id@, lines@.last())
            },
            Err(error) => says(r.0, labelled("WhatsApp unavailable: "@, error@)) && r.1 is None,
        },
{
    let lines = match found {
        Ok(lines) => lines,
        Err(error) => {
            let text = labelled_text("WhatsApp unavailable: ", error.as_str());
            return (ToolReply::Text(text), None);
        },
    };
    if lines.len() == 0 {
        return (ToolReply::Text("No messages in that chat.".to_owned()), None);
    }
    let mut items: Vec<Json> = Vec::new();
    let mut i: usize = 0;
    while i < lines.len()
        invariant
            i <= lines@.len(),
            items@.len() == i,
            forall|j: int|
                0 <= j < i ==> #[trigger] item_data(items@[j]) == Some(line_item(lines@[j])),
        decreases lines@.len() - i,
    {
        let ghost before = items@;
        items.push(line_json(&lines[i]));
        proof {
            assert forall|j: int| 0 <= j < i + 1 implies #[trigger] item_data(items@[j]) == Some(
                line_item(lines@[j]),
            ) by {
                if j < i {
                    assert(items@[j] == before[j]);
                    assert(item_data(before[j]) == Some(line_item(lines@[j])));
                }
            }
        }
        i = i + 1;
    }
    let last = &lines[lines.len() - 1];
    let snippet = prefix_of(&chars_of(last.body.as_str()), MAX_SNIPPET_CHARS);
    let seen = WhatsappRef {
        chat_id: chat_id.to_owned(),
        contact_name: None,
        snippet: Some(string_of(&snippet)),
        source: "tool_loop".to_owned(),
        last_message_timestamp: Some(last.timestamp),
    };
    (ToolReply::Items(items), Some(seen))
}

/// What the record tools ask the connector.
#[derive(Debug, PartialEq, Eq)]
pub enum OdooCall {
    SearchPartners { query: String, limit: u32 },
    MyInvoices { open_only: bool, limit: u32 },
    MyHelpdeskTickets { open_only: bool, limit: u32 },
    GetRecord { model: String, id: i64 },
}

/// What a record tool asks for, or why it cannot.
pub open spec fn is_odoo_call(tool: Seq<char>, args: Json, call: Result<OdooCall, String>) -> bool {
    let asked = limit_arg(args, 10, 25);
    let open = flag_arg(args, "open_only"@);
    if tool == "odoo_search_partners"@ {
        match text_arg(args, "query"@) {
            Some(text) => call matches Ok(OdooCall::SearchPartners { query, limit }) && query@
                == text && limit == asked,
            None => call matches Err(message) && message@ == "query"@ + " is required."@,
        }
    } else if tool == "odoo_my_invoices"@ {
        call matches Ok(OdooCall::MyInvoices { open_only, limit }) && open_only == open && limit
            == asked
    } else if tool == "odoo_my_helpdesk_tickets"@ {
        call matches Ok(OdooCall::MyHelpdeskTickets { open_only, limit }) && open_only == open
            && limit == asked
    } else if tool == "odoo_get_record"@ {
        match signed_arg(args, "id"@) {
            Some(number) => {
                &&& call matches Ok(OdooCall::GetRecord { model, id })
                &&& id == number
                &&& model@ == match text_arg(args, "model"@) {
                    Some(name) => name,
                    None => ""@,
                }
            },
            None => call matches Err(message) && message@ == "id is required."@,
        }
    } else {
        call matches Err(message) && message@ == labelled("Unknown Odoo tool: "@, tool)
    }
}

pub fn odoo_call(tool: &str, args: &Json) -> (r: Result<OdooCall, String>)
    ensures
        is_odoo_call(tool@, *args, r),
{
    let limit: u32 = json_limit_arg(args, 10, 25) as u32;
    let open_only = json_flag_arg(args, "open_only");
    if same(tool, "odoo_search_partners") {
        match required_arg(args, "query") {
            Ok(query) => Ok(OdooCall::SearchPartners { query, limit }),
            Err(message) => Err(message),
        }
    } else if same(tool, "odoo_my_invoices") {
        Ok(OdooCall::MyInvoices { open_only, limit })
    } else if same(tool, "odoo_my_helpdesk_tickets") {
        Ok(OdooCall::MyHelpdeskTickets { open_only, limit })
    } else if same(tool, "odoo_get_record") {
        let model = match json_str_arg(args, "model") {
            Some(name) => name,
            None => "".to_owned(),
        };
        match json_signed_arg(args, "id") {
            Some(id) => Ok(OdooCall::GetRecord { model, id }),
            None => Err("id is required.".to_owned()),
        }
    } else {
        Err(labelled_text("Unknown Odoo tool: ", tool))
    }
}

/// What the connector found.
#[derive(Debug, PartialEq, Eq)]
pub struct OdooFound {
    pub text: String,
    pub model: String,
    pub first_id: Option<i64>,
    pub first_name: Option<String>,
}

/// The record that is remembered.
pub open spec fn is_record_ref(seen: Option<RecordRef>, found: OdooFound) -> bool {
    match found.first_id {
        Some(first) => {
            &&& seen matches Some(record)
            &&& record.model == found.model
            &&& record.id == first
            &&& record.name@ == match found.first_name {
                Some(name) => name@,
                None => ""@,
            }
        },
        None => seen is None,
    }
}

/// What a model is told of the records.
pub fn odoo_reply(found: Result<Option<OdooFound>, String>) -> (r: (String, Option<RecordRef>))
    ensures
        match found {
            Ok(Some(records)) => r.0 == records.text && is_record_ref(r.1, records),
            Ok(None) => r.0@ == "Record not found."@ && r.1 is None,
            Err(error) => r.0@ == labelled("Odoo error: "@, error@) && r.1 is None,
        },
{
    match found {
        Ok(Some(records)) => {
            let seen = match records.first_id {
                Some(id) => Some(
                    RecordRef {
                        model: records.model.clone(),
                        id,
                        name: match &records.first_name {
                            Some(name) => name.clone(),
                            None => "".to_owned(),
                        },
                    },
                ),
                None => None,
            };
            (records.text, seen)
        },
        Ok(None) => ("Record not found.".to_owned(), None),
        Err(error) => (labelled_text("Odoo error: ", error.as_str()), None),
    }
}

} // verus!
