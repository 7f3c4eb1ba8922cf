//! What the tools are asked and what they say, and how operations are named and retried.

use crate::authorized::{first_places, public_count, repeats};
use crate::bytes::{byte_len, byte_prefix};
use crate::diagnostics::Datum;
use crate::gate::{
    are_arguments, decision_for, description, is_denied_result, is_signed_number, row_number,
    rule_name, signed_text, tool_name, ApprovalLevel,
};
use crate::html::escaped;
use crate::json::{field_index, lookup, text_field, text_or_empty, Json};
use crate::legacy::{
    candidate_lines, failure_label, fetch_text, link_block, link_lines, page_text, search_text,
};
use crate::mail_tools::{
    answers_search, asks, asks_again, body_notice, item_data, lists_headers, long_words,
    message_text, number_datum, sender_words, shown_body, BodyHydration, MailEntry, MailQuery,
    ToolReply,
};
use crate::models::{loaded_from, loaded_model, names_model, to_unload};
use crate::sessions::{MailRef, RecordRef, WhatsappRef};
use crate::spacing::{class_marks, class_runs};
use crate::text::{decimal, ends_with, join, lowercase, prefix, trim};
use crate::tool_args::{
    date_text, day_arg, day_start, flag_arg, limit_arg, list_arg, option_text, signed_arg, text_arg,
    texts_in, unsigned_arg,
};
use crate::tools::{
    chat_item, is_chat_ref, is_odoo_call, is_record_ref, line_item, note_item, ChatEntry, ChatLine,
    NoteEntry, OdooCall, OdooFound,
};
use crate::types::{
    operation_key, origin_name, provider_name, readable, retry_allowed, BodyOrigin,
    EvidenceOperation, ExecutionStatus, ExtractionStatus, FailureCode, OperationResult,
    ValidatedReference, WebFetchEvidence, WebProvider, WebSearchResult,
};
use vstd::prelude::*;

verus! {

/// A text cut to a number of bytes is its longest front that fits.
pub proof fn cut_texts_are_the_longest_front(s: Seq<char>, max: nat)
    ensures
        byte_prefix(s, max).is_prefix_of(s),
        byte_len(byte_prefix(s, max)) <= max,
        byte_prefix(s, max).len() < s.len() ==> byte_len(
            s.subrange(0, byte_prefix(s, max).len() as int + 1),
        ) > max,
        byte_len(s) <= max ==> byte_prefix(s, max) == s,
    decreases s.len(),
{
    if byte_len(s) <= max || s.len() == 0 {
        assert(s.subrange(0, s.len() as int) =~= s);
    } else {
        let rest = s.drop_last();
        cut_texts_are_the_longest_front(rest, max);
        let out = byte_prefix(s, max);
        assert(s.subrange(0, out.len() as int) =~= rest.subrange(0, out.len() as int));
        if out.len() == rest.len() {
            assert(s.subrange(0, out.len() as int + 1) =~= s);
        } else {
            assert(s.subrange(0, out.len() as int + 1) =~= rest.subrange(0, out.len() as int + 1));
        }
    }
}

proof fn lemma_field(fields: Seq<(String, Json)>, key: Seq<char>, i: int, from: int)
    requires
        0 <= from <= i < fields.len(),
        fields[i].0@ == key,
        forall|k: int| 0 <= k < i ==> (#[trigger] fields[k]).0@ != key,
    ensures
        field_index(fields, key, from) == Some(i),
    decreases i - from,
{
    if from < i {
        assert(fields[from].0@ != key);
        lemma_field(fields, key, i, from + 1);
    }
}

proof fn lemma_no_field(fields: Seq<(String, Json)>, key: Seq<char>, from: int)
    requires
        0 <= from <= fields.len(),
        forall|k: int| 0 <= k < fields.len() ==> (#[trigger] fields[k]).0@ != key,
    ensures
        field_index(fields, key, from) is None,
    decreases fields.len() - from,
{
    if from < fields.len() {
        assert(fields[from].0@ != key);
        lemma_no_field(fields, key, from + 1);
    }
}

/// The value of a key is that of the first field of this name; what is no object has no
/// fields.
pub proof fn the_first_field_of_a_name_counts(
    fields: Vec<(String, Json)>,
    key: Seq<char>,
    i: int,
)
    requires
        0 <= i < fields@.len(),
        fields@[i].0@ == key,
        forall|k: int| 0 <= k < i ==> (#[trigger] fields@[k]).0@ != key,
    ensures
        lookup(Json::Object(fields), key) == Some(fields@[i].1),
        fields@[i].1 matches Json::Text(text) ==> text_field(Json::Object(fields), key) == Some(
            text@,
        ) && text_or_empty(Json::Object(fields), key) == text@,
        !(fields@[i].1 is Text) ==> text_field(Json::Object(fields), key) is None
            && text_or_empty(Json::Object(fields), key).len() == 0,
        lookup(Json::Null, key) is None,
{
    lemma_field(fields@, key, i, 0);
}

pub proof fn missing_fields_have_no_value(fields: Vec<(String, Json)>, key: Seq<char>)
    requires
        forall|k: int| 0 <= k < fields@.len() ==> (#[trigger] fields@[k]).0@ != key,
    ensures
        lookup(Json::Object(fields), key) is None,
        text_field(Json::Object(fields), key) is None,
        text_or_empty(Json::Object(fields), key).len() == 0,
{
    lemma_no_field(fields@, key, 0);
}

/// A rule decides by its level, and each operation goes by the rule, the words and the
/// tool of its kind.
pub proof fn operations_go_by_their_kind(
    level: ApprovalLevel,
    operation: EvidenceOperation,
    with_address: bool,
)
    ensures
        level is Auto <==> decision_for(level) is Allow,
        level is Forbidden <==> decision_for(level) is Deny,
        level is Ask <==> decision_for(level) is Ask,
        operation is WebSearch ==> rule_name(operation, with_address) == Some("web.search"@)
            && description(operation) == "Web search"@ && tool_name(operation) == "web_search"@,
        operation is WebFetch ==> description(operation) == "Reading a selected web page"@
            && tool_name(operation) == "web_fetch"@,
        operation is WebFetch && with_address ==> rule_name(operation, with_address) == Some(
            "web.fetch"@,
        ),
        operation is WebFetch && !with_address ==> rule_name(operation, with_address) is None,
        operation is MailList ==> tool_name(operation) == "mail_list_inbox"@,
        operation is MailSearch ==> tool_name(operation) == "mail_search"@,
        operation is MailRead ==> tool_name(operation) == "mail_read"@,
        operation is MailList || operation is MailSearch || operation is MailRead ==> rule_name(
            operation,
            with_address,
        ) == Some("mail_inbox"@) && description(operation)
            == "Čítanie poštovej schránky (Apple Mail)"@,
{
}

/// The arguments of an operation carry what it asks for.
pub proof fn arguments_carry_the_operation(value: Json, operation: EvidenceOperation)
    requires
        are_arguments(value, operation),
    ensures
        operation matches EvidenceOperation::MailList { limit, unread_only } ==> (value matches
            Json::Object(fields) && fields@.len() == 2 && fields@[0].0@ == "limit"@ && (
        fields@[0].1 matches Json::Number { signed, .. } && signed == Some(limit as i64))
            && fields@[1].0@ == "unread_only"@ && fields@[1].1 == Json::Bool(unread_only)),
        operation matches EvidenceOperation::MailSearch { normalized_query, limit } ==> (
        value matches Json::Object(fields) && fields@[0].0@ == "query"@ && (fields@[0].1 matches
            Json::Text(text) && text@ == normalized_query@) && fields@[1].0@ == "limit"@ && (
        fields@[1].1 matches Json::Number { signed, .. } && signed == Some(limit as i64))),
        operation matches EvidenceOperation::WebSearch { normalized_query, .. } ==> (value matches
            Json::Object(fields) && fields@.len() == 1 && fields@[0].0@ == "query"@ && (
        fields@[0].1 matches Json::Text(text) && text@ == normalized_query@)),
        operation matches EvidenceOperation::MailRead { message_id } ==> (value matches
            Json::Object(fields) && fields@.len() == 1 && fields@[0].0@ == "rowid"@ && (row_number(
            message_id@,
        ) matches Some(row) ==> (fields@[0].1 matches Json::Number { signed, .. } && signed
            == Some(row)))),
        operation is WebFetch ==> (value matches Json::Object(fields) && fields@.len() == 0),
{
}

/// A row is written in decimal, and read again as it was written.
pub proof fn rows_are_read_as_written(row: i64)
    requires
        row >= 0,
    ensures
        row_number(signed_text(row as int)) == Some(row),
{
    crate::text::lemma_decimal_parses(row as nat);
    let s = decimal(row as nat);
    assert(crate::text::is_digit(s[0]));
    assert(s[0] != '-' && s[0] != '+');
}

/// An operation that was refused has no value, took no time and counts as one attempt.
pub proof fn refused_operations_bring_nothing<T>(result: OperationResult<T>, key: Seq<char>)
    requires
        is_denied_result(result, key),
    ensures
        result.execution is Denied,
        result.contribution is Empty,
        result.value is None,
        result.attempts == 1,
        result.duration_ms == 0,
        result.key@ == key,
{
}

/// Each address is sealed where it stands first, and in order; what stands before the
/// first without a public address is public.
pub proof fn addresses_are_sealed_where_they_stand_first(urls: Seq<Option<Seq<char>>>, n: int)
    requires
        0 <= n <= urls.len(),
    ensures
        forall|i: int|
            0 <= i < n && (forall|j: int| 0 <= j < i ==> #[trigger] urls[j] != urls[i])
                ==> #[trigger] first_places(urls, n).contains(i),
        forall|k: int|
            0 <= k < first_places(urls, n).len() ==> 0 <= #[trigger] first_places(urls, n)[k] < n,
        0 <= public_count(urls, 0) <= urls.len(),
        forall|i: int| 0 <= i < public_count(urls, 0) ==> (#[trigger] urls[i]) is Some,
        public_count(urls, 0) < urls.len() ==> urls[public_count(urls, 0)] is None,
    decreases n,
{
    lemma_public(urls, 0);
    if n > 0 {
        addresses_are_sealed_where_they_stand_first(urls, n - 1);
        let before = first_places(urls, n - 1);
        let after = first_places(urls, n);
        assert forall|i: int|
            0 <= i < n && (forall|j: int| 0 <= j < i ==> #[trigger] urls[j]
                != urls[i]) implies #[trigger] after.contains(i) by {
            if i < n - 1 {
                assert(before.contains(i));
                let k = choose|k: int| 0 <= k < before.len() && before[k] == i;
                assert(after[k] == i);
            } else {
                assert(!repeats(urls, i));
                assert(after[before.len() as int] == i);
            }
        }
    }
}

proof fn lemma_public(urls: Seq<Option<Seq<char>>>, from: int)
    requires
        0 <= from <= urls.len(),
    ensures
        from <= public_count(urls, from) <= urls.len(),
        forall|i: int| from <= i < public_count(urls, from) ==> (#[trigger] urls[i]) is Some,
        public_count(urls, from) < urls.len() ==> urls[public_count(urls, from)] is None,
    decreases urls.len() - from,
{
    if from < urls.len() && urls[from] is Some {
        lemma_public(urls, from + 1);
    }
}

/// A text argument is taken without the white space around it and a blank one not at all;
/// a limit is what was asked for and never above the greatest; a flag is set only by true.
pub proof fn arguments_are_taken_plainly(args: Json, key: Seq<char>, default: u8, max: u8)
    ensures
        text_arg(args, key) matches Some(text) ==> (text_field(args, key) matches Some(whole)
            && text == trim(whole) && text.len() > 0),
        text_field(args, key) is None ==> text_arg(args, key) is None,
        text_field(args, key) matches Some(whole) ==> (trim(whole).len() > 0 ==> text_arg(args, key)
            == Some(trim(whole))),
        limit_arg(args, default, max) <= max,
        unsigned_arg(args, "limit"@) matches Some(n) ==> (n <= max ==> limit_arg(args, default, max)
            == n),
        unsigned_arg(args, "limit"@) is None && default <= max ==> limit_arg(args, default, max)
            == default,
        flag_arg(args, key) <==> lookup(args, key) == Some(Json::Bool(true)),
        day_arg(args, key, false) matches Some(start) ==> (text_field(args, key) matches Some(text)
            && day_start(text) matches Some(seconds) && start == seconds),
        lookup(args, key) matches Some(Json::Number { unsigned, signed, .. }) ==> unsigned_arg(
            args,
            key,
        ) == unsigned && signed_arg(args, key) == signed,
        lookup(args, key) is None ==> list_arg(args, key).len() == 0,
{
}

/// The texts of a list are taken in order and everything else in it is passed over.
pub proof fn listed_texts_are_taken_in_order(values: Seq<Json>, more: Json)
    ensures
        more matches Json::Text(text) ==> texts_in(values.push(more)) == texts_in(values).push(
            text@,
        ),
        !(more is Text) ==> texts_in(values.push(more)) == texts_in(values),
        texts_in(Seq::empty()).len() == 0,
{
    assert(values.push(more).drop_last() =~= values);
}

/// A search of the mail asks for what the arguments name, from the first second of one day
/// to the last of another, and for 25 messages at most.
pub proof fn searches_ask_for_what_is_named(query: MailQuery, args: Json)
    requires
        asks(query, args),
    ensures
        option_text(query.sender) == text_arg(args, "sender"@),
        option_text(query.subject) == text_arg(args, "subject"@),
        crate::text::strings(query.keywords@) == list_arg(args, "keywords"@),
        query.date_from matches Some(from) ==> day_arg(args, "date_from"@, false) == Some(
            from as int,
        ),
        query.date_to matches Some(to) ==> (text_field(args, "date_to"@) matches Some(text)
            && day_start(text) matches Some(start) && to == start + 86_399),
        query.limit <= 25,
{
}

/// The words of a sender are what stands between these characters, two bytes long or more,
/// in lower case.
pub proof fn senders_are_taken_by_their_words(sender: Seq<char>)
    ensures
        ({
            let parts = class_runs(
                sender,
                |c: char|
                    !(c == '@' || c == '.' || c == ' ' || c == ',' || c == '<' || c == '>'),
            );
            let long = parts.filter(|w: Seq<char>| byte_len(trim(w)) >= 2);
            &&& sender_words(sender).len() == long.len()
            &&& forall|i: int|
                0 <= i < long.len() ==> #[trigger] sender_words(sender)[i] == lowercase(
                    trim(long[i]),
                )
        }),
{
    let class = |c: char| !(c == '@' || c == '.' || c == ' ' || c == ',' || c == '<' || c == '>');
    assert(crate::mail_tools::sender_marks(sender) =~= class_marks(sender, class));
    lemma_long(class_runs(sender, class));
}

proof fn lemma_long(parts: Seq<Seq<char>>)
    ensures
        long_words(parts).len() == parts.filter(|w: Seq<char>| byte_len(trim(w)) >= 2).len(),
        forall|i: int|
            0 <= i < long_words(parts).len() ==> #[trigger] long_words(parts)[i] == lowercase(
                trim(parts.filter(|w: Seq<char>| byte_len(trim(w)) >= 2)[i]),
            ),
    decreases parts.len(),
{
    reveal(Seq::filter);
    if parts.len() > 0 {
        lemma_long(parts.drop_last());
    }
}

/// A listed message shows its row, its subject, its sender, its time and whether it was
/// read.
pub proof fn listed_messages_show_themselves(items: Seq<Json>, entries: Seq<MailEntry>, i: int)
    requires
        lists_headers(items, entries),
        0 <= i < entries.len(),
    ensures
        items.len() == entries.len(),
        item_data(items[i]) matches Some(fields) && fields.len() == 6 && fields[0] == (
            "rowid"@,
            number_datum(entries[i].rowid),
        ) && fields[1] == ("subject"@, Datum::Text(entries[i].subject@)) && fields[2] == (
            "sender"@,
            Datum::Text(entries[i].sender@),
        ) && fields[3].0 == "sender_name"@ && (entries[i].sender_name matches Some(name)
            ==> fields[3].1 == Datum::Text(name@)) && fields[4] == (
            "date"@,
            Datum::Text(date_text(entries[i].received_at)),
        ) && fields[5] == ("is_read"@, Datum::Flag(entries[i].is_read)),
{
}

/// A search that found mail lists it and remembers the first message; one that found none
/// says so and remembers none.
pub proof fn searches_remember_the_first(
    reply: ToolReply,
    found: Option<MailRef>,
    entries: Seq<MailEntry>,
)
    requires
        answers_search(reply, found, entries),
    ensures
        entries.len() == 0 ==> found is None && (reply matches ToolReply::Text(said) && said@
            == "No mail messages matched."@),
        entries.len() > 0 ==> (found matches Some(first) && first.rowid == entries[0].rowid
            && first.subject == entries[0].subject && first.sender == entries[0].sender
            && first.message_id == entries[0].message_id && !first.auto_open),
        entries.len() > 0 ==> (reply matches ToolReply::Items(items) && items@.len()
            == entries.len()),
{
}

/// A search that is repeated looks for the words of the sender in place of the sender and
/// keeps everything else.
pub proof fn repeated_searches_look_for_words(query: MailQuery, first: MailQuery)
    requires
        asks_again(query, first),
    ensures
        query.sender is None,
        first.sender matches Some(sender) && crate::text::strings(query.keywords@) == sender_words(
            sender@,
        ),
        query.subject == first.subject,
        query.date_from == first.date_from,
        query.date_to == first.date_to,
        query.limit == first.limit,
{
}

/// A message is shown with its sender, its subject and its date over its text, or over the
/// reason for which there is none.
pub proof fn messages_are_shown_in_full(entry: MailEntry, state: BodyHydration)
    ensures
        message_text(entry, state) == "From: "@ + entry.sender@ + "\nSubject: "@ + entry.subject@
            + "\nDate: "@ + date_text(entry.received_at) + "\n\n"@ + shown_body(entry, state),
        state is Readable || state is Empty ==> shown_body(entry, state) == prefix(
            match entry.body {
                Some(body) => body@,
                None => ""@,
            },
            4000,
        ),
        state is AutomationDenied ==> body_notice(state) == Some(
            "[body unavailable — Mail.app Automation access was denied]"@,
        ),
        state is AutomationTimedOut ==> body_notice(state) == Some(
            "[body unavailable — Mail.app Automation timed out]"@,
        ),
        state is AutomationFailed ==> body_notice(state) == Some(
            "[body unavailable — Mail.app Automation failed]"@,
        ),
        state is Unavailable ==> body_notice(state) == Some(
            "[body unavailable locally — call mail_open with this rowid to open it in Mail.app]"@,
        ),
        shown_body(entry, state).len() <= 4000,
{
}

/// A listed note, a listed chat and a line of a chat show themselves field by field.
pub proof fn listed_items_show_themselves(note: NoteEntry, chat: ChatEntry, line: ChatLine)
    ensures
        note_item(note).len() == 5,
        note_item(note)[0] == ("coredata_id"@, Datum::Text(note.coredata_id@)),
        note_item(note)[1] == ("title"@, Datum::Text(note.title@)),
        note_item(note)[2].0 == "snippet"@,
        note.snippet matches Some(text) ==> note_item(note)[2].1 == Datum::Text(text@),
        note_item(note)[3].0 == "folder"@,
        note.folder matches Some(text) ==> note_item(note)[3].1 == Datum::Text(text@),
        note_item(note)[4] == ("modified"@, Datum::Text(date_text(note.modified_at))),
        chat_item(chat).len() == 5,
        chat_item(chat)[0] == ("chat_id"@, Datum::Text(chat.id@)),
        chat_item(chat)[1].0 == "name"@,
        chat.name matches Some(text) ==> chat_item(chat)[1].1 == Datum::Text(text@),
        chat_item(chat)[2] == ("is_group"@, Datum::Flag(chat.is_group)),
        chat_item(chat)[3] == ("unread"@, number_datum(chat.unread_count)),
        chat_item(chat)[4].0 == "last_message"@,
        chat.last_message_preview matches Some(text) ==> chat_item(chat)[4].1 == Datum::Text(text@),
        line_item(line).len() == 4,
        line.from_me ==> line_item(line)[0] == ("from"@, Datum::Text("me"@)),
        !line.from_me ==> line_item(line)[0] == ("from"@, Datum::Text(line.from@)),
        line_item(line)[1] == ("body"@, Datum::Text(prefix(line.body@, 500))),
        line_item(line)[2] == ("timestamp"@, number_datum(line.timestamp)),
        line_item(line)[3] == ("has_media"@, Datum::Flag(line.has_media)),
{
}

/// What is remembered of a chat and of a record is what was seen.
pub proof fn seen_things_are_remembered(
    found: WhatsappRef,
    chat_id: Seq<char>,
    last: ChatLine,
    seen: Option<RecordRef>,
    record: OdooFound,
)
    requires
        is_chat_ref(found, chat_id, last),
        is_record_ref(seen, record),
    ensures
        found.chat_id@ == chat_id,
        found.contact_name is None,
        found.snippet matches Some(text) && text@ == prefix(last.body@, 120),
        found.source@ == "tool_loop"@,
        found.last_message_timestamp == Some(last.timestamp),
        record.first_id matches Some(id) ==> (seen matches Some(r) && r.id == id && r.model
            == record.model),
        record.first_id is None ==> seen is None,
{
}

/// A tool of the records is called with its own arguments, and an unknown one not at all.
pub proof fn record_tools_are_called_by_name(
    tool: Seq<char>,
    args: Json,
    call: Result<OdooCall, String>,
)
    requires
        is_odoo_call(tool, args, call),
    ensures
        tool == "odoo_search_partners"@ ==> (call matches Ok(made) ==> (made matches
            OdooCall::SearchPartners { query, limit } && text_arg(args, "query"@) == Some(query@)
            && limit == limit_arg(args, 10, 25))),
        tool == "odoo_search_partners"@ && text_arg(args, "query"@) is None ==> call is Err,
        call matches Ok(OdooCall::MyInvoices { open_only, limit }) ==> tool == "odoo_my_invoices"@
            && open_only == flag_arg(args, "open_only"@) && limit == limit_arg(args, 10, 25),
        call matches Ok(OdooCall::MyHelpdeskTickets { open_only, limit }) ==> tool
            == "odoo_my_helpdesk_tickets"@ && open_only == flag_arg(args, "open_only"@) && limit
            == limit_arg(args, 10, 25),
        call matches Ok(OdooCall::GetRecord { model, id }) ==> tool == "odoo_get_record"@
            && signed_arg(args, "id"@) == Some(id),
        tool == "odoo_my_invoices"@ || tool == "odoo_my_helpdesk_tickets"@ ==> call is Ok,
        tool == "odoo_get_record"@ && signed_arg(args, "id"@) is Some ==> call is Ok,
        call matches Ok(OdooCall::GetRecord { model, id }) ==> (text_arg(args, "model"@) is Some
            ==> text_arg(args, "model"@) == Some(model@)),
        call matches Ok(OdooCall::GetRecord { model, id }) ==> (text_arg(args, "model"@) is None
            ==> model@ == ""@),
        tool == "odoo_search_partners"@ ==> (call matches Err(message) ==> message@ == "query"@
            + " is required."@),
        tool == "odoo_get_record"@ ==> (call matches Err(message) ==> message@
            == "id is required."@),
        tool != "odoo_search_partners"@ && tool != "odoo_my_invoices"@ && tool
            != "odoo_my_helpdesk_tickets"@ && tool != "odoo_get_record"@ ==> (
        call matches Err(message) && message@ == "Unknown Odoo tool: "@ + tool),
{
    reveal_strlit("odoo_search_partners");
    reveal_strlit("odoo_my_invoices");
    reveal_strlit("odoo_my_helpdesk_tickets");
    reveal_strlit("odoo_get_record");
    assert("odoo_search_partners"@[5] == 's' && "odoo_my_invoices"@[5] == 'm'
        && "odoo_my_helpdesk_tickets"@[5] == 'm' && "odoo_get_record"@[5] == 'g');
    assert("odoo_my_invoices"@.len() == 16 && "odoo_my_helpdesk_tickets"@.len() == 24);
}

/// A loaded model answers to a name where it is that name, with or without the tag of the
/// latest; the first that does is taken.
pub proof fn the_first_loaded_model_of_a_name_is_taken(
    models: Seq<Seq<char>>,
    requested: Seq<char>,
)
    ensures
        loaded_model(models, requested) matches Some(name) ==> exists|i: int|
            0 <= i < models.len() && name == trim(#[trigger] models[i]) && names_model(
                name,
                trim(requested),
            ) && forall|k: int|
                0 <= k < i ==> !names_model(trim(#[trigger] models[k]), trim(requested)),
        loaded_model(models, requested) is None && trim(requested).len() > 0 ==> forall|k: int|
            0 <= k < models.len() ==> !names_model(trim(#[trigger] models[k]), trim(requested)),
        trim(requested).len() == 0 ==> loaded_model(models, requested) is None,
{
    lemma_loaded(models, trim(requested), 0);
}

proof fn lemma_loaded(models: Seq<Seq<char>>, requested: Seq<char>, from: int)
    requires
        0 <= from <= models.len(),
    ensures
        loaded_from(models, requested, from) matches Some(name) ==> exists|i: int|
            from <= i < models.len() && name == trim(#[trigger] models[i]) && names_model(
                name,
                requested,
            ) && forall|k: int|
                from <= k < i ==> !names_model(trim(#[trigger] models[k]), requested),
        loaded_from(models, requested, from) is None ==> forall|k: int|
            from <= k < models.len() ==> !names_model(trim(#[trigger] models[k]), requested),
    decreases models.len() - from,
{
    if from < models.len() && !names_model(trim(models[from]), requested) {
        lemma_loaded(models, requested, from + 1);
        if loaded_from(models, requested, from) is Some {
            let name = loaded_from(models, requested, from)->0;
            let i = choose|i: int|
                from + 1 <= i < models.len() && name == trim(#[trigger] models[i]) && names_model(
                    name,
                    requested,
                ) && forall|k: int|
                    from + 1 <= k < i ==> !names_model(trim(#[trigger] models[k]), requested);
            assert forall|k: int| from <= k < i implies !names_model(
                trim(#[trigger] models[k]),
                requested,
            ) by {
                if k > from {
                    assert(!names_model(trim(models[k]), requested));
                }
            }
        }
    } else if from < models.len() {
        assert(names_model(trim(models[from]), requested));
    }
}

/// Two names are of one model only where they differ in the tag of the latest.
pub proof fn names_of_one_model_differ_in_the_tag(loaded: Seq<char>, requested: Seq<char>)
    ensures
        names_model(loaded, requested) ==> loaded == requested || loaded == requested
            + ":latest"@ || requested == loaded + ":latest"@,
        loaded == requested ==> names_model(loaded, requested),
{
    if ends_with(loaded, ":latest"@) {
        lemma_front_and_end(loaded, ":latest"@);
    }
    if ends_with(requested, ":latest"@) {
        lemma_front_and_end(requested, ":latest"@);
    }
}

proof fn lemma_front_and_end(s: Seq<char>, t: Seq<char>)
    requires
        ends_with(s, t),
    ensures
        s.take(s.len() - t.len()) + t == s,
{
    let front = s.take(s.len() - t.len());
    assert forall|i: int| 0 <= i < s.len() implies #[trigger] (front + t)[i] == s[i] by {
        if i >= front.len() {
            assert(t[i - front.len()] == s[s.len() - t.len() + (i - front.len())]);
        }
    }
    assert(front + t =~= s);
}

/// A failure is shown under its own name, with the status where it has one.
pub proof fn failures_are_shown_by_name(failure: FailureCode)
    ensures
        failure is InvalidInput ==> failure_label(failure) == "InvalidInput"@,
        failure is ConnectorUnavailable ==> failure_label(failure) == "ConnectorUnavailable"@,
        failure is ConnectionReset ==> failure_label(failure) == "ConnectionReset"@,
        failure is RateLimited ==> failure_label(failure) == "RateLimited"@,
        failure matches FailureCode::Http4xx(status) ==> failure_label(failure) == "Http4xx("@
            + decimal(status as nat) + ")"@,
        failure matches FailureCode::Http5xx(status) ==> failure_label(failure) == "Http5xx("@
            + decimal(status as nat) + ")"@,
        failure is UnsupportedContentType ==> failure_label(failure) == "UnsupportedContentType"@,
        failure is UnsafeDestination ==> failure_label(failure) == "UnsafeDestination"@,
        failure is RedirectUnsafe ==> failure_label(failure) == "RedirectUnsafe"@,
        failure is BodyTooLarge ==> failure_label(failure) == "BodyTooLarge"@,
        failure is EmptyExtraction ==> failure_label(failure) == "EmptyExtraction"@,
        failure is ProviderChallenge ==> failure_label(failure) == "ProviderChallenge"@,
        failure is ParseFailure ==> failure_label(failure) == "ParseFailure"@,
        failure is ModelUnavailable ==> failure_label(failure) == "ModelUnavailable"@,
        failure is ModelInvalidOutput ==> failure_label(failure) == "ModelInvalidOutput"@,
        failure is AutomationFailed ==> failure_label(failure) == "AutomationFailed"@,
        failure is OtherNormalized ==> failure_label(failure) == "OtherNormalized"@,
{
}

/// What a search found is shown as untrusted, a line for each candidate, with its title,
/// its address and its snippet; where it found nothing it says so.
pub proof fn found_candidates_are_shown_as_untrusted(
    result: OperationResult<WebSearchResult>,
    query: Seq<char>,
)
    ensures
        result.value is None && result.execution is TimedOut ==> search_text(result, query)
            == "Web search timed out."@,
        result.value is None ==> (result.execution matches ExecutionStatus::Failed(failure)
            ==> search_text(result, query) == "Web search failed: "@ + failure_label(failure)),
        result.value matches Some(search) ==> (search.candidates@.len() == 0 ==> search_text(
            result,
            query,
        ) == "No web results for \""@ + query
            + "\". Tell the user the answer was not found online — do not guess."@),
        result.value matches Some(search) ==> (search.candidates@.len() > 0 ==> search_text(
            result,
            query,
        ) == "Web discovery results (title | url | snippet):\n<untrusted source=\"web_search\">\n"@
            + join(
            Seq::new(
                search.candidates@.len(),
                |i: int|
                    escaped(search.candidates@[i].title@) + " | "@
                        + search.candidates@[i].requested_url.text@ + " | "@ + escaped(
                        search.candidates@[i].snippet@,
                    ),
            ),
            "\n"@,
        )
            + "\n</untrusted>\nSnippets are discovery data only; fetch a result before using it as evidence."@),
{
    if result.value is Some {
        let found = result.value->0.candidates@;
        assert(candidate_lines(found) =~= Seq::new(
            found.len(),
            |i: int|
                escaped(found[i].title@) + " | "@ + found[i].requested_url.text@ + " | "@ + escaped(
                    found[i].snippet@,
                ),
        ));
    }
}

/// A fetched page is shown as untrusted with its source, its passages and its links; one
/// that was not fetched says why, and a private address is never shown.
pub proof fn fetched_pages_are_shown_as_untrusted(result: OperationResult<WebFetchEvidence>)
    ensures
        result.execution is TimedOut ==> fetch_text(result) == "Fetch failed: timed out"@,
        result.execution == ExecutionStatus::Failed(FailureCode::UnsafeDestination)
            || result.execution == ExecutionStatus::Failed(FailureCode::RedirectUnsafe)
            ==> fetch_text(result) == "Fetching local/private addresses is not allowed."@,
        result.execution is Succeeded ==> (result.value matches Some(page) ==> fetch_text(result)
            == page_text(page)),
        result.value matches Some(page) ==> ((page.extraction is Readable) ==> page_text(page)
            == "<untrusted source=\"web_fetch\">\nSource: "@ + page.final_url.text@ + "\n"@ + join(
            crate::legacy::passage_texts(page.passages@),
            "\n\n"@,
        ) + ""@ + link_block(page.links@) + "\n</untrusted>"@),
        result.value matches Some(page) ==> ((page.extraction is ReadableTruncated)
            ==> page_text(page) == "<untrusted source=\"web_fetch\">\nSource: "@
            + page.final_url.text@ + "\n"@ + join(
            crate::legacy::passage_texts(page.passages@),
            "\n\n"@,
        ) + " [truncated]"@ + link_block(page.links@) + "\n</untrusted>"@),
        result.value is Some ==> (result.execution matches ExecutionStatus::Failed(
            FailureCode::Http4xx(status),
        ) ==> fetch_text(result) == "Fetch failed: HTTP "@ + decimal(status as nat)),
{
}

/// The links of a page are listed in order, each with its label and its address.
pub proof fn links_are_listed_in_order(
    links: Seq<ValidatedReference>,
    more: ValidatedReference,
)
    ensures
        link_lines(links.push(more)) == link_lines(links) + ("\n- "@ + escaped(more.label@)
            + " — "@ + more.url.text@),
        links.len() == 0 ==> link_block(links).len() == 0,
        links.len() > 0 ==> link_block(links)
            == "\n\nValidated links — web_fetch a promising relevant reference before using it:"@
            + link_lines(links),
{
    assert(links.push(more).drop_last() =~= links);
}

/// What may pass by itself is a timeout, a reset connection, a refused rate and a fault of
/// the server; it is retried once, and only where something of the budget is left.
pub proof fn passing_faults_are_retried_once<T>(result: OperationResult<T>, budget: u8)
    ensures
        retry_allowed(result, budget) <==> {
            &&& budget > 0
            &&& result.attempts < 2
            &&& result.execution is TimedOut || (result.execution matches ExecutionStatus::Failed(
                failure,
            ) && (failure is ConnectionReset || failure is RateLimited || failure is Http5xx))
        },
{
}

/// An operation is keyed by its kind and by what it asks for, and each provider and origin
/// by its own name.
pub proof fn operations_are_keyed_by_what_they_ask(
    operation: EvidenceOperation,
    provider: WebProvider,
    origin: BodyOrigin,
    extraction: ExtractionStatus,
)
    ensures
        operation matches EvidenceOperation::MailList { limit, unread_only } ==> operation_key(
            operation,
        ) == "mail_list:"@ + decimal(limit as nat) + ":"@ + (if unread_only {
            "true"@
        } else {
            "false"@
        }),
        operation matches EvidenceOperation::MailSearch { normalized_query, limit }
            ==> operation_key(operation) == "mail_search:"@ + decimal(limit as nat) + ":"@
            + lowercase(crate::text::collapse(normalized_query@)),
        operation matches EvidenceOperation::MailRead { message_id } ==> operation_key(operation)
            == "mail_read:"@ + message_id@,
        operation matches EvidenceOperation::WebFetch { candidate_id } ==> operation_key(operation)
            == "web_fetch:"@ + candidate_id@,
        operation matches EvidenceOperation::WebSearch { normalized_query, provider_set }
            ==> operation_key(operation) == "web_search:"@ + crate::types::provider_key(
            provider_set.0@,
        ) + ":"@ + lowercase(crate::text::collapse(normalized_query@)),
        provider is DuckDuckGo ==> provider_name(provider) == "duckduckgo"@,
        provider is Wikipedia ==> provider_name(provider) == "wikipedia"@,
        provider is Tavily ==> provider_name(provider) == "tavily"@,
        provider is Direct ==> provider_name(provider) == "direct"@,
        origin is LocalEmlx ==> origin_name(origin) == "local_emlx"@,
        origin is MailAutomation ==> origin_name(origin) == "mail_automation"@,
        origin is Unavailable ==> origin_name(origin) == "unavailable"@,
        readable(extraction) <==> !(extraction is Empty) && !(extraction is Unsupported),
{
}

/// An identifier holds more than white space and no control character.
pub proof fn identifiers_hold_no_control_characters(value: Seq<char>, i: int)
    requires
        0 <= i < value.len(),
    ensures
        (value[i] as u32) < 32 ==> !crate::types::valid_id(value),
        127 <= value[i] as u32 <= 159 ==> !crate::types::valid_id(value),
        trim(value).len() == 0 ==> !crate::types::valid_id(value),
{
    assert(crate::types::valid_id(value) ==> !crate::text::is_control(value[i]));
}

/// At the end the models that the settings name are unloaded, where they are loaded,
/// and a model that both name once.
pub proof fn only_loaded_models_are_unloaded(
    loaded: Seq<Seq<char>>,
    default_model: Seq<char>,
    classifier_model: Seq<char>,
)
    ensures
        ({
            let out = to_unload(loaded, default_model, classifier_model);
            let first = loaded_model(loaded, default_model);
            let second = loaded_model(loaded, classifier_model);
            &&& first is Some ==> out.len() > 0 && out[0] == first->0
            &&& trim(classifier_model) == trim(default_model) ==> out.len() == if first is Some {
                1int
            } else {
                0
            }
            &&& trim(classifier_model) != trim(default_model) ==> out.len() == (if first is Some {
                1int
            } else {
                0
            }) + (if second is Some {
                1int
            } else {
                0
            })
            &&& trim(classifier_model) != trim(default_model) && second is Some ==> out.last()
                == second->0
        }),
{
}

/// A whole number is given in its digits, also as unsigned where it is not negative.
pub proof fn whole_numbers_are_given_in_digits(value: Json, n: i64)
    requires
        is_signed_number(value, n),
    ensures
        value matches Json::Number { text, unsigned, signed } && signed == Some(n) && text@
            == signed_text(n as int) && (n >= 0 <==> unsigned is Some) && (n >= 0 ==> unsigned
            == Some(n as u64)),
{
}

} // verus!
