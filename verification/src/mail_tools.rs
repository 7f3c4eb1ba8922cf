//! The mail tools of a turn: what they ask the connector, and what they tell the
//! model.

use crate::bytes::{byte_len, byte_length};
use crate::diagnostics::{data, Datum};
use crate::gate::{json_number, signed_text};
use crate::json::Json;
use crate::sessions::MailRef;
use crate::text::{
    chars_of, lower, lowercase, prefix, prefix_of, push_all, push_text, runs, runs_of, string_of,
    strings, texts, trim, trimmed,
};
use crate::tool_args::{
    date_text, day_arg, flag_arg, format_date, json_day_ts, json_flag_arg, json_limit_arg,
    json_list_arg, json_str_arg, limit_arg, list_arg, option_text, text_arg,
};
use crate::weburl::clone_option;
use vstd::prelude::*;

verus! {

/// The most characters of a body that a model is shown.
pub const MAX_BODY_CHARS: usize = 4_000;

/// What a tool answers: a text, or a list of items.
#[derive(Debug, PartialEq, Eq)]
pub enum ToolReply {
    Text(String),
    Items(Vec<Json>),
}

pub open spec fn says(reply: ToolReply, text: Seq<char>) -> bool {
    reply matches ToolReply::Text(said) && said@ == text
}

/// A message as the connector lists it.
#[derive(Debug, PartialEq, Eq)]
pub struct MailEntry {
    pub rowid: i64,
    pub message_id: Option<String>,
    pub subject: String,
    pub sender: String,
    pub sender_name: Option<String>,
    pub received_at: i64,
    pub is_read: bool,
    pub body: Option<String>,
}

/// What a search asks for.
#[derive(Debug, PartialEq, Eq)]
pub struct MailQuery {
    pub sender: Option<String>,
    pub subject: Option<String>,
    pub keywords: Vec<String>,
    pub date_from: Option<i64>,
    pub date_to: Option<i64>,
    pub limit: usize,
}

pub open spec fn seconds(value: Option<i64>) -> Option<int> {
    match value {
        Some(t) => Some(t as int),
        None => None,
    }
}

/// The search that a call asks for.
pub open spec fn asks(query: MailQuery, args: Json) -> bool {
    &&& option_text(query.sender) == text_arg(args, "sender"@)
    &&& option_text(query.subject) == text_arg(args, "subject"@)
    &&& strings(query.keywords@) == list_arg(args, "keywords"@)
    &&& seconds(query.date_from) == day_arg(args, "date_from"@, false)
    &&& seconds(query.date_to) == day_arg(args, "date_to"@, true)
    &&& query.limit == limit_arg(args, 10, 25)
}

pub fn mail_query(args: &Json) -> (r: MailQuery)
    ensures
        asks(r, *args),
{
    MailQuery {
        sender: json_str_arg(args, "sender"),
        subject: json_str_arg(args, "subject"),
        keywords: json_list_arg(args, "keywords"),
        date_from: json_day_ts(args, "date_from", false),
        date_to: json_day_ts(args, "date_to", true),
        limit: json_limit_arg(args, 10, 25),
    }
}

/// A character that parts the words of a sender.
pub open spec fn parts_sender(c: char) -> bool {
    c == '@' || c == '.' || c == ' ' || c == ',' || c == '<' || c == '>'
}

pub open spec fn sender_marks(s: Seq<char>) -> Seq<bool> {
    Seq::new(s.len(), |i: int| !parts_sender(s[i]))
}

/// The words of a list that are long enough to search for, in lower case.
pub open spec fn long_words(words: Seq<Seq<char>>) -> Seq<Seq<char>>
    decreases words.len(),
{
    if words.len() == 0 {
        Seq::empty()
    } else {
        let before = long_words(words.drop_last());
        let word = trim(words.last());
        if byte_len(word) >= 2 {
            before.push(lowercase(word))
        } else {
            before
        }
    }
}

/// The words of a sender that are searched for one by one.
pub open spec fn sender_words(sender: Seq<char>) -> Seq<Seq<char>> {
    long_words(runs(sender, sender_marks(sender)))
}

pub fn sender_tokens(sender: &str) -> (r: Vec<String>)
    ensures
        strings(r@) == sender_words(sender@),
{
    let chars = chars_of(sender);
    let mut marks: Vec<bool> = Vec::new();
    let mut i: usize = 0;
    while i < chars.len()
        invariant
            i <= chars@.len(),
            marks@.len() == i,
            forall|j: int| 0 <= j < i ==> #[trigger] marks@[j] == !parts_sender(chars@[j]),
        decreases chars@.len() - i,
    {
        let c: char = chars[i];
        marks.push(!(c == '@' || c == '.' || c == ' ' || c == ',' || c == '<' || c == '>'));
        i = i + 1;
    }
    proof {
        assert(marks@ =~= sender_marks(chars@));
    }
    let parts = runs_of(&chars, &marks);
    let ghost all = texts(parts@);
    let mut out: Vec<String> = Vec::new();
    i = 0;
    proof {
        assert(all.take(0) =~= Seq::<Seq<char>>::empty());
        assert(strings(out@) =~= long_words(all.take(0)));
    }
    while i < parts.len()
        invariant
            i <= parts@.len(),
            all == texts(parts@),
            strings(out@) == long_words(all.take(i as int)),
        decreases parts@.len() - i,
    {
        let ghost next = all.take(i + 1);
        proof {
            assert(next.drop_last() =~= all.take(i as int));
            assert(next.last() == parts@[i as int]@);
        }
        let word = trimmed(&parts[i]);
        if byte_length(&word) >= 2 {
            let text = string_of(&word);
            let ghost before = out@;
            let lowered = lower(text.as_str());
            out.push(string_of(&lowered));
            proof {
                assert(strings(out@) =~= strings(before).push(lowercase(word@)));
            }
        }
        i = i + 1;
    }
    proof {
        assert(all.take(all.len() as int) =~= all);
    }
    out
}

pub open spec fn number_datum(n: i64) -> Datum {
    Datum::Number(
        signed_text(n as int),
        if n >= 0 {
            Some(n as u64)
        } else {
            None
        },
        Some(n),
    )
}

/// A message as an item of a list.
pub open spec fn header_item(entry: MailEntry) -> Seq<(Seq<char>, Datum)> {
    seq![
        ("rowid"@, number_datum(entry.rowid)),
        ("subject"@, Datum::Text(entry.subject@)),
        ("sender"@, Datum::Text(entry.sender@)),
        (
            "sender_name"@,
            match entry.sender_name {
                Some(name) => Datum::Text(name@),
                None => Datum::Null,
            },
        ),
        ("date"@, Datum::Text(date_text(entry.received_at))),
        ("is_read"@, Datum::Flag(entry.is_read)),
    ]
}

pub open spec fn item_data(item: Json) -> Option<Seq<(Seq<char>, Datum)>> {
    match item {
        Json::Object(fields) => Some(data(fields@)),
        _ => None,
    }
}

/// The list names each message by its header, in order.
pub open spec fn lists_headers(items: Seq<Json>, entries: Seq<MailEntry>) -> bool {
    &&& items.len() == entries.len()
    &&& forall|i: int|
        0 <= i < entries.len() ==> #[trigger] item_data(items[i]) == Some(header_item(entries[i]))
}

pub fn text_or_null(value: &Option<String>) -> (r: Json)
    ensures
        crate::diagnostics::datum_of(r) == match *value {
            Some(text) => Datum::Text(text@),
            None => Datum::Null,
        },
{
    match value {
        Some(text) => Json::Text(text.clone()),
        None => Json::Null,
    }
}

fn header_json(entry: &MailEntry) -> (r: Json)
    ensures
        item_data(r) == Some(header_item(*entry)),
{
    let mut fields: Vec<(String, Json)> = Vec::new();
    let rowid = json_number(entry.rowid);
    let name = text_or_null(&entry.sender_name);
    fields.push(("rowid".to_owned(), rowid));
    fields.push(("subject".to_owned(), Json::Text(entry.subject.clone())));
    fields.push(("sender".to_owned(), Json::Text(entry.sender.clone())));
    fields.push(("sender_name".to_owned(), name));
    fields.push(("date".to_owned(), Json::Text(format_date(entry.received_at))));
    fields.push(("is_read".to_owned(), Json::Bool(entry.is_read)));
    proof {
        assert(data(fields@) =~= header_item(*entry));
    }
    Json::Object(fields)
}

/// The headers of some messages.
pub fn mail_headers_json(entries: &Vec<MailEntry>) -> (r: Vec<Json>)
    ensures
        lists_headers(r@, entries@),
{
    let mut items: Vec<Json> = Vec::new();
    let mut i: usize = 0;
    while i < entries.len()
        invariant
            i <= entries@.len(),
            items@.len() == i,
            forall|j: int|
                0 <= j < i ==> #[trigger] item_data(items@[j]) == Some(header_item(entries@[j])),
        decreases entries@.len() - i,
    {
        let ghost before = items@;
        items.push(header_json(&entries[i]));
        proof {
            assert forall|j: int| 0 <= j < i + 1 implies #[trigger] item_data(items@[j]) == Some(
                header_item(entries@[j]),
            ) by {
                if j < i {
                    assert(items@[j] == before[j]);
                    assert(item_data(before[j]) == Some(header_item(entries@[j])));
                }
            }
        }
        i = i + 1;
    }
    items
}

/// A message as a reference for later turns.
pub open spec fn is_ref_of(found: MailRef, entry: MailEntry) -> bool {
    &&& found.rowid == entry.rowid
    &&& found.message_id == entry.message_id
    &&& found.subject == entry.subject
    &&& found.sender == entry.sender
    &&& !found.auto_open
}

pub fn mail_ref_from(entry: &MailEntry) -> (r: MailRef)
    ensures
        is_ref_of(r, *entry),
{
    MailRef {
        rowid: entry.rowid,
        message_id: clone_option(&entry.message_id),
        subject: entry.subject.clone(),
        sender: entry.sender.clone(),
        auto_open: false,
    }
}

/// What follows a search.
#[derive(Debug, PartialEq, Eq)]
pub enum MailSearchStep {
    /// Search once more, for the words of the sender.
    Retry(MailQuery),
    Done(ToolReply, Option<MailRef>),
}

/// The answer of a search that found these messages.
pub open spec fn answers_search(
    reply: ToolReply,
    found: Option<MailRef>,
    entries: Seq<MailEntry>,
) -> bool {
    if entries.len() == 0 {
        says(reply, "No mail messages matched."@) && found is None
    } else {
        &&& reply matches ToolReply::Items(items)
        &&& lists_headers(items@, entries)
        &&& found matches Some(first)
        &&& is_ref_of(first, entries[0])
    }
}

fn search_reply(entries: &Vec<MailEntry>) -> (r: (ToolReply, Option<MailRef>))
    ensures
        answers_search(r.0, r.1, entries@),
{
    if entries.len() == 0 {
        return (ToolReply::Text("No mail messages matched.".to_owned()), None);
    }
    (ToolReply::Items(mail_headers_json(entries)), Some(mail_ref_from(&entries[0])))
}

/// The second search: the words of the sender in place of the sender.
pub open spec fn asks_again(query: MailQuery, first: MailQuery) -> bool {
    &&& first.sender matches Some(sender)
    &&& strings(query.keywords@) == sender_words(sender@)
    &&& query.sender is None
    &&& query.subject == first.subject
    &&& query.date_from == first.date_from
    &&& query.date_to == first.date_to
    &&& query.limit == first.limit
}

/// The sender of a search is made of words.
pub open spec fn has_sender_words(query: MailQuery) -> bool {
    query.sender matches Some(sender) && sender_words(sender@).len() > 0
}

pub open spec fn labelled(label: Seq<char>, text: Seq<char>) -> Seq<char> {
    label + text
}

pub fn labelled_text(label: &str, text: &str) -> (r: String)
    ensures
        r@ == labelled(label@, text@),
{
    let mut out = chars_of(label);
    push_text(&mut out, text);
    string_of(&out)
}

/// What follows the first search: where a sender was asked for and nothing was
/// found, its words are searched for.
pub fn mail_searched(query: &MailQuery, found: Result<Vec<MailEntry>, String>) -> (r:
    MailSearchStep)
    ensures
        match found {
            Err(error) => r matches MailSearchStep::Done(reply, seen) && says(
                reply,
                labelled("Mail search error: "@, error@),
            ) && seen is None,
            Ok(entries) => if entries@.len() == 0 && has_sender_words(*query) {
                r matches MailSearchStep::Retry(next) && asks_again(next, *query)
            } else {
                r matches MailSearchStep::Done(reply, seen) && answers_search(
                    reply,
                    seen,
                    entries@,
                )
            },
        },
{
    let entries = match found {
        Ok(entries) => entries,
        Err(error) => {
            let text = labelled_text("Mail search error: ", error.as_str());
            return MailSearchStep::Done(ToolReply::Text(text), None);
        },
    };
    if entries.len() == 0 {
        match &query.sender {
            Some(sender) => {
                let words = sender_tokens(sender.as_str());
                proof {
                    assert(strings(words@).len() == words@.len());
                }
                if words.len() > 0 {
                    return MailSearchStep::Retry(
                        MailQuery {
                            sender: None,
                            subject: clone_option(&query.subject),
                            keywords: words,
                            date_from: query.date_from,
                            date_to: query.date_to,
                            limit: query.limit,
                        },
                    );
                }
            },
            None => {},
        }
    }
    let (reply, seen) = search_reply(&entries);
    MailSearchStep::Done(reply, seen)
}

/// What follows the second search; one that failed found nothing.
pub fn mail_searched_again(found: Option<Vec<MailEntry>>) -> (r: (ToolReply, Option<MailRef>))
    ensures
        answers_search(
            r.0,
            r.1,
            match found {
                Some(entries) => entries@,
                None => Seq::empty(),
            },
        ),
{
    match found {
        Some(entries) => search_reply(&entries),
        None => {
            let none: Vec<MailEntry> = Vec::new();
            proof {
                assert(none@ =~= Seq::<MailEntry>::empty());
            }
            search_reply(&none)
        },
    }
}

/// How much of the inbox is asked for, and whether unread mail alone.
pub fn inbox_query(args: &Json) -> (r: (usize, bool))
    ensures
        r.0 == limit_arg(*args, 10, 25),
        r.1 == flag_arg(*args, "unread_only"@),
{
    (json_limit_arg(args, 10, 25), json_flag_arg(args, "unread_only"))
}

pub fn inbox_reply(found: Result<Vec<MailEntry>, String>) -> (r: ToolReply)
    ensures
        match found {
            Ok(entries) => if entries@.len() == 0 {
                says(r, "Inbox query returned no messages."@)
            } else {
                r matches ToolReply::Items(items) && lists_headers(items@, entries@)
            },
            Err(error) => says(r, labelled("Mail error: "@, error@)),
        },
{
    match found {
        Ok(entries) => {
            if entries.len() == 0 {
                ToolReply::Text("Inbox query returned no messages.".to_owned())
            } else {
                ToolReply::Items(mail_headers_json(&entries))
            }
        },
        Err(error) => ToolReply::Text(labelled_text("Mail error: ", error.as_str())),
    }
}

/// What became of the body of a message.
#[derive(Clone, Copy, Debug, PartialEq, Eq, Structural)]
pub enum BodyHydration {
    Readable,
    Empty,
    Unavailable,
    AutomationDenied,
    AutomationTimedOut,
    AutomationFailed,
}

/// Why there is no body.
pub open spec fn body_notice(state: BodyHydration) -> Option<Seq<char>> {
    match state {
        BodyHydration::Unavailable => Some(
            "[body unavailable locally — call mail_open with this rowid to open it in Mail.app]"@,
        ),
        BodyHydration::AutomationDenied => Some(
            "[body unavailable — Mail.app Automation access was denied]"@,
        ),
        BodyHydration::AutomationTimedOut => Some(
            "[body unavailable — Mail.app Automation timed out]"@,
        ),
        BodyHydration::AutomationFailed => Some(
            "[body unavailable — Mail.app Automation failed]"@,
        ),
        BodyHydration::Readable | BodyHydration::Empty => None,
    }
}

fn notice_of(state: BodyHydration) -> (r: Option<&'static str>)
    ensures
        match r {
            Some(text) => body_notice(state) == Some(text@),
            None => body_notice(state) is None,
        },
{
    match state {
        BodyHydration::Unavailable => Some(
            "[body unavailable locally — call mail_open with this rowid to open it in Mail.app]",
        ),
        BodyHydration::AutomationDenied => Some(
            "[body unavailable — Mail.app Automation access was denied]",
        ),
        BodyHydration::AutomationTimedOut => Some(
            "[body unavailable — Mail.app Automation timed out]",
        ),
        BodyHydration::AutomationFailed => Some("[body unavailable — Mail.app Automation failed]"),
        BodyHydration::Readable | BodyHydration::Empty => None,
    }
}

/// What is shown in place of the body of a message.
pub open spec fn shown_body(entry: MailEntry, state: BodyHydration) -> Seq<char> {
    prefix(
        match body_notice(state) {
            Some(notice) => notice,
            None => match entry.body {
                Some(body) => body@,
                None => ""@,
            },
        },
        MAX_BODY_CHARS as int,
    )
}

pub open spec fn message_text(entry: MailEntry, state: BodyHydration) -> Seq<char> {
    "From: "@ + entry.sender@ + "\nSubject: "@ + entry.subject@ + "\nDate: "@ + date_text(
        entry.received_at,
    ) + "\n\n"@ + shown_body(entry, state)
}

/// A message that was found, with what became of its body.
#[derive(Debug, PartialEq, Eq)]
pub struct HydratedMail {
    pub message: MailEntry,
    pub state: BodyHydration,
}

/// What a model is told of a message that it reads.
pub fn mail_read_reply(found: Result<Option<HydratedMail>, String>) -> (r: (
    String,
    Option<MailRef>,
))
    ensures
        match found {
            Ok(Some(mail)) => {
                &&& r.0@ == message_text(mail.message, mail.state)
                &&& r.1 matches Some(seen)
                &&& is_ref_of(seen, mail.message)
            },
            Ok(None) => r.0@ == "No message with that rowid."@ && r.1 is None,
            Err(error) => r.0@ == labelled("Mail error: "@, error@) && r.1 is None,
        },
{
    let mail = match found {
        Ok(Some(mail)) => mail,
        Ok(None) => {
            return ("No message with that rowid.".to_owned(), None);
        },
        Err(error) => {
            return (labelled_text("Mail error: ", error.as_str()), None);
        },
    };
    let body = match notice_of(mail.state) {
        Some(notice) => chars_of(notice),
        None => match &mail.message.body {
            Some(body) => chars_of(body.as_str()),
            None => chars_of(""),
        },
    };
    let date = format_date(mail.message.received_at);
    let mut out = chars_of("From: ");
    push_text(&mut out, mail.message.sender.as_str());
    push_text(&mut out, "\nSubject: ");
    push_text(&mut out, mail.message.subject.as_str());
    push_text(&mut out, "\nDate: ");
    push_text(&mut out, date.as_str());
    push_text(&mut out, "\n\n");
    push_all(&mut out, &prefix_of(&body, MAX_BODY_CHARS));
    (string_of(&out), Some(mail_ref_from(&mail.message)))
}

/// The message to open, or what a model is told where there is none.
pub fn mail_open_found(found: Result<Option<MailEntry>, String>) -> (r: Result<MailEntry, String>)
    ensures
        match found {
            Ok(Some(message)) => r == Ok::<MailEntry, String>(message),
            Ok(None) => r matches Err(text) && text@ == "No message with that rowid."@,
            Err(error) => r matches Err(text) && text@ == labelled("Mail error: "@, error@),
        },
{
    match found {
        Ok(Some(message)) => Ok(message),
        Ok(None) => Err("No message with that rowid.".to_owned()),
        Err(error) => Err(labelled_text("Mail error: ", error.as_str())),
    }
}

/// What a model is told once a message was opened, or was not.
pub fn mail_open_reply(subject: &str, opened: Result<(), String>) -> (r: String)
    ensures
        r@ == match opened {
            Ok(_) => labelled("Opened in Mail.app: "@, subject@),
            Err(error) => labelled("Could not open Mail.app: "@, error@),
        },
{
    match opened {
        Ok(_) => labelled_text("Opened in Mail.app: ", subject),
        Err(error) => labelled_text("Could not open Mail.app: ", error.as_str()),
    }
}

/// A body that could not be had is never passed off as empty: the model is told
/// why there is none.
pub proof fn missing_bodies_are_explained(entry: MailEntry, state: BodyHydration)
    requires
        !(state is Readable),
        !(state is Empty),
    ensures
        body_notice(state) is Some,
        shown_body(entry, state) == prefix(body_notice(state)->Some_0, MAX_BODY_CHARS as int),
{
}

} // verus!
