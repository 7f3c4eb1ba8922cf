//! What is kept of a turn for diagnosis: the structure of its events, never
//! their contents, within bounds of age, number and size.

use crate::json::{lookup, Json};
use crate::order::{indices, key_seqs, order_of, stable_order, stable_order_range};
use crate::text::{
    chars_of, control, decimal, decimal_of, is_control, is_one_of, one_of, push_text, same,
    is_digest_text, sha256_str, sha256_text, string_of,
};
use vstd::prelude::*;

verus! {

pub const MAX_AGE_NS: u64 = 604_800_000_000_000;

pub const MAX_TURNS: usize = 1_000;

pub const MAX_TOTAL_BYTES: u64 = 8_388_608;

pub const MAX_TURN_BYTES: u64 = 262_144;

pub const MAX_EVENTS_PER_TURN: usize = 512;

pub const MAX_SOURCE_DOMAINS: usize = 16;

/// What a kept field holds.
pub ghost enum Datum {
    Text(Seq<char>),
    Number(Seq<char>, Option<u64>, Option<i64>),
    Flag(bool),
    Texts(Seq<Seq<char>>),
    Null,
    /// An object, or an array that does not hold texts alone.
    Other,
}

pub open spec fn text_of(value: Json) -> Seq<char> {
    match value {
        Json::Text(text) => text@,
        _ => Seq::empty(),
    }
}

pub open spec fn datum_of(value: Json) -> Datum {
    match value {
        Json::Text(text) => Datum::Text(text@),
        Json::Number { text, unsigned, signed } => Datum::Number(text@, unsigned, signed),
        Json::Bool(flag) => Datum::Flag(flag),
        Json::Array(items) => if are_texts(items@) {
            Datum::Texts(Seq::new(items@.len(), |i: int| text_of(items@[i])))
        } else {
            Datum::Other
        },
        Json::Null => Datum::Null,
        Json::Object(_) => Datum::Other,
    }
}

pub open spec fn are_texts(items: Seq<Json>) -> bool {
    forall|i: int| 0 <= i < items.len() ==> (#[trigger] items[i]) is Text
}

/// The fields of an object, by name.
pub open spec fn data(fields: Seq<(String, Json)>) -> Seq<(Seq<char>, Datum)> {
    Seq::new(fields.len(), |i: int| (fields[i].0@, datum_of(fields[i].1)))
}

pub open spec fn no_control(s: Seq<char>) -> bool {
    forall|i: int| 0 <= i < s.len() ==> !is_control(#[trigger] s[i])
}

/// A text that may be kept: not empty, of bounded size, on one line.
pub open spec fn is_safe(s: Seq<char>, maximum: nat) -> bool {
    s.len() > 0 && vstd::utf8::encode_utf8(s).len() <= maximum && no_control(s)
}

pub open spec fn safe_text(value: Json, maximum: nat) -> Option<Seq<char>> {
    match value {
        Json::Text(text) => if is_safe(text@, maximum) {
            Some(text@)
        } else {
            None
        },
        _ => None,
    }
}

/// The text of a value, where it may be kept.
pub fn safe_string(value: &Json, maximum: usize) -> (r: Option<String>)
    ensures
        match r {
            Some(text) => safe_text(*value, maximum as nat) == Some(text@),
            None => safe_text(*value, maximum as nat) is None,
        },
{
    match value {
        Json::Text(text) => {
            let chars = chars_of(text.as_str());
            if chars.len() == 0 || text.as_str().as_bytes().len() > maximum {
                return None;
            }
            let mut i: usize = 0;
            while i < chars.len()
                invariant
                    i <= chars@.len(),
                    chars@ == text@,
                    *value == Json::Text(*text),
                    forall|j: int| 0 <= j < i ==> !is_control(#[trigger] chars@[j]),
                decreases chars@.len() - i,
            {
                if control(chars[i]) {
                    proof {
                        assert(is_control(text@[i as int]));
                    }
                    return None;
                }
                i = i + 1;
            }
            Some(text.clone())
        },
        _ => None,
    }
}

pub open spec fn event_types() -> Seq<&'static str> {
    seq![
        "evidence_phase",
        "logical_activity_started",
        "logical_activity_completed",
        "evidence_validation",
        "evidence_polish",
        "evidence_outcome",
        "evidence_acquisition_diagnostic",
    ]
}

pub open spec fn text_names() -> Seq<&'static str> {
    seq![
        "phase",
        "model_id",
        "activity_id",
        "normalized_operation",
        "argument_hash",
        "execution_status",
        "contribution",
        "failure_reason",
        "state",
        "kind",
        "decision",
        "status",
        "body_origin",
        "provider",
        "provider_status",
        "source_identity",
        "authority",
        "extraction_result",
        "rejection_reason",
    ]
}

pub open spec fn number_names() -> Seq<&'static str> {
    seq![
        "completed",
        "total",
        "duration_ms",
        "evidence_count",
        "attempt_count",
        "retries",
        "duplicates_suppressed",
        "acquired",
        "requested",
        "source_count",
        "missing_count",
        "conflict_count",
        "exclusion_count",
        "candidate_count",
        "rank",
        "relevance_score",
        "search_attempts_used",
        "search_attempt_budget",
        "fetch_attempts_used",
        "fetch_attempt_budget",
    ]
}

pub open spec fn flag_names() -> Seq<&'static str> {
    seq!["timed_out", "fallback", "repair", "eligible"]
}

/// What kind of value the fields of a list of names hold.
#[derive(Clone, Copy, Debug, PartialEq, Eq, Structural)]
pub enum FieldKind {
    Text,
    Number,
    Flag,
}

pub open spec fn number_datum(n: u64) -> Datum {
    Datum::Number(
        decimal(n as nat),
        Some(n),
        if n <= i64::MAX {
            Some(n as i64)
        } else {
            None
        },
    )
}

/// What is kept of a field.
pub open spec fn kept_datum(event: Json, name: Seq<char>, kind: FieldKind) -> Option<Datum> {
    match lookup(event, name) {
        Some(value) => match kind {
            FieldKind::Text => match safe_text(value, 160) {
                Some(text) => Some(Datum::Text(text)),
                None => None,
            },
            FieldKind::Number => match value {
                Json::Number { unsigned: Some(n), .. } => Some(number_datum(n)),
                _ => None,
            },
            FieldKind::Flag => match value {
                Json::Bool(flag) => Some(Datum::Flag(flag)),
                _ => None,
            },
        },
        None => None,
    }
}

/// The fields of these names that are kept.
pub open spec fn kept_fields(event: Json, names: Seq<&str>, kind: FieldKind) -> Seq<
    (Seq<char>, Datum),
>
    decreases names.len(),
{
    if names.len() == 0 {
        Seq::empty()
    } else {
        let before = kept_fields(event, names.drop_last(), kind);
        match kept_datum(event, names.last()@, kind) {
            Some(datum) => before.push((names.last()@, datum)),
            None => before,
        }
    }
}

pub open spec fn kept_domains(values: Seq<Json>) -> Seq<Seq<char>>
    decreases values.len(),
{
    if values.len() == 0 {
        Seq::empty()
    } else {
        let before = kept_domains(values.drop_last());
        match safe_text(values.last(), 253) {
            Some(text) => before.push(text),
            None => before,
        }
    }
}

pub open spec fn first_values(values: Seq<Json>) -> Seq<Json> {
    if values.len() <= MAX_SOURCE_DOMAINS {
        values
    } else {
        values.take(MAX_SOURCE_DOMAINS as int)
    }
}

/// The source domains of an event.
pub open spec fn domain_fields(event: Json) -> Seq<(Seq<char>, Datum)> {
    match lookup(event, "source_domains"@) {
        Some(Json::Array(values)) => seq![
            ("source_domains"@, Datum::Texts(kept_domains(first_values(values@)))),
        ],
        _ => Seq::empty(),
    }
}

/// What is kept of an event: nothing unless its type is known and its turn can
/// be told.
pub open spec fn kept_event(event: Json) -> Option<Seq<(Seq<char>, Datum)>> {
    match (lookup(event, "type"@), lookup(event, "turn_id"@)) {
        (Some(Json::Text(name)), Some(turn)) => match safe_text(turn, 128) {
            Some(turn_id) => if is_one_of(name@, event_types()) {
                Some(
                    seq![("type"@, Datum::Text(name@)), ("turn_id"@, Datum::Text(turn_id))]
                        + kept_fields(event, text_names(), FieldKind::Text)
                        + kept_fields(event, number_names(), FieldKind::Number)
                        + kept_fields(event, flag_names(), FieldKind::Flag)
                        + domain_fields(event),
                )
            } else {
                None
            },
            None => None,
        },
        _ => None,
    }
}

fn unsigned_json(n: u64) -> (r: Json)
    ensures
        datum_of(r) == number_datum(n),
{
    let text = decimal_of(n);
    let signed = if n <= i64::MAX as u64 {
        Some(n as i64)
    } else {
        None
    };
    Json::Number { text: string_of(&text), unsigned: Some(n), signed }
}

fn kept_value(event: &Json, name: &str, kind: FieldKind) -> (r: Option<Json>)
    ensures
        match r {
            Some(value) => kept_datum(*event, name@, kind) == Some(datum_of(value)),
            None => kept_datum(*event, name@, kind) is None,
        },
{
    match event.get(name) {
        Some(value) => match kind {
            FieldKind::Text => match safe_string(value, 160) {
                Some(text) => Some(Json::Text(text)),
                None => None,
            },
            FieldKind::Number => match value {
                Json::Number { unsigned: Some(n), .. } => Some(unsigned_json(*n)),
                _ => None,
            },
            FieldKind::Flag => match value {
                Json::Bool(flag) => Some(Json::Bool(*flag)),
                _ => None,
            },
        },
        None => None,
    }
}

fn push_fields(
    event: &Json,
    names: &[&str],
    kind: FieldKind,
    fields: &mut Vec<(String, Json)>,
)
    ensures
        data(final(fields)@) == data(old(fields)@) + kept_fields(*event, names@, kind),
{
    let mut i: usize = 0;
    let ghost before = data(fields@);
    proof {
        assert(names@.take(0) =~= Seq::<&str>::empty());
        assert(before =~= before + kept_fields(*event, names@.take(0), kind));
    }
    while i < names.len()
        invariant
            i <= names@.len(),
            before == data(old(fields)@),
            data(fields@) == before + kept_fields(*event, names@.take(i as int), kind),
        decreases names@.len() - i,
    {
        let ghost next = names@.take(i + 1);
        proof {
            assert(next.drop_last() =~= names@.take(i as int));
            assert(next.last() == names@[i as int]);
        }
        let ghost held = fields@;
        match kept_value(event, names[i], kind) {
            Some(value) => {
                fields.push((names[i].to_owned(), value));
                proof {
                    assert(data(fields@) =~= data(held).push((names@[i as int]@, datum_of(value))));
                    assert(data(fields@) =~= before + kept_fields(*event, next, kind));
                }
            },
            None => {},
        }
        i = i + 1;
    }
    proof {
        assert(names@.take(names@.len() as int) =~= names@);
    }
}

fn kept_domain_values(values: &Vec<Json>) -> (r: Json)
    ensures
        datum_of(r) == Datum::Texts(kept_domains(first_values(values@))),
{
    let mut kept: Vec<Json> = Vec::new();
    let mut i: usize = 0;
    let ghost mut held: Seq<Seq<char>> = Seq::empty();
    proof {
        assert(values@.take(0) =~= Seq::<Json>::empty());
    }
    while i < values.len() && i < MAX_SOURCE_DOMAINS
        invariant
            i <= values@.len(),
            i <= MAX_SOURCE_DOMAINS,
            kept@.len() == held.len(),
            are_texts(kept@),
            forall|j: int| 0 <= j < kept@.len() ==> #[trigger] text_of(kept@[j]) == held[j],
            held == kept_domains(values@.take(i as int)),
        decreases values@.len() - i,
    {
        let ghost next = values@.take(i + 1);
        proof {
            assert(next.drop_last() =~= values@.take(i as int));
            assert(next.last() == values@[i as int]);
        }
        match safe_string(&values[i], 253) {
            Some(text) => {
                let ghost before = kept@;
                kept.push(Json::Text(text));
                proof {
                    held = held.push(text@);
                    assert forall|j: int| 0 <= j < kept@.len() implies #[trigger] text_of(kept@[j])
                        == held[j] by {
                        if j < before.len() {
                            assert(kept@[j] == before[j]);
                            assert(text_of(before[j]) == held[j]);
                        }
                    }
                }
            },
            None => {},
        }
        i = i + 1;
    }
    proof {
        assert(values@.take(i as int) =~= first_values(values@));
        assert(Seq::new(kept@.len(), |j: int| text_of(kept@[j])) =~= held);
    }
    Json::Array(kept)
}

/// The event without anything but its structure, or nothing where the event is
/// not one to keep.
pub fn sanitize_event(event: &Json) -> (r: Option<Json>)
    ensures
        match r {
            Some(Json::Object(fields)) => kept_event(*event) == Some(data(fields@)),
            Some(_) => false,
            None => kept_event(*event) is None,
        },
{
    let name = match event.get("type") {
        Some(Json::Text(name)) => name,
        _ => return None,
    };
    let turn = match event.get("turn_id") {
        Some(turn) => turn,
        None => return None,
    };
    let types = [
        "evidence_phase",
        "logical_activity_started",
        "logical_activity_completed",
        "evidence_validation",
        "evidence_polish",
        "evidence_outcome",
        "evidence_acquisition_diagnostic",
    ];
    proof {
        assert(types@ =~= event_types());
    }
    let name_chars = chars_of(name.as_str());
    if !one_of(&name_chars, &types) {
        return None;
    }
    let turn_id = match safe_string(turn, 128) {
        Some(turn_id) => turn_id,
        None => return None,
    };
    let mut fields: Vec<(String, Json)> = Vec::new();
    fields.push(("type".to_owned(), Json::Text(name.clone())));
    fields.push(("turn_id".to_owned(), Json::Text(turn_id)));
    proof {
        assert(data(fields@) =~= seq![
            ("type"@, Datum::Text(name@)),
            ("turn_id"@, Datum::Text(turn_id@)),
        ]);
    }
    let texts = [
        "phase",
        "model_id",
        "activity_id",
        "normalized_operation",
        "argument_hash",
        "execution_status",
        "contribution",
        "failure_reason",
        "state",
        "kind",
        "decision",
        "status",
        "body_origin",
        "provider",
        "provider_status",
        "source_identity",
        "authority",
        "extraction_result",
        "rejection_reason",
    ];
    let numbers = [
        "completed",
        "total",
        "duration_ms",
        "evidence_count",
        "attempt_count",
        "retries",
        "duplicates_suppressed",
        "acquired",
        "requested",
        "source_count",
        "missing_count",
        "conflict_count",
        "exclusion_count",
        "candidate_count",
        "rank",
        "relevance_score",
        "search_attempts_used",
        "search_attempt_budget",
        "fetch_attempts_used",
        "fetch_attempt_budget",
    ];
    let flags = ["timed_out", "fallback", "repair", "eligible"];
    proof {
        assert(texts@ =~= text_names());
        assert(numbers@ =~= number_names());
        assert(flags@ =~= flag_names());
    }
    push_fields(event, &texts, FieldKind::Text, &mut fields);
    push_fields(event, &numbers, FieldKind::Number, &mut fields);
    push_fields(event, &flags, FieldKind::Flag, &mut fields);
    let ghost held = fields@;
    match event.get("source_domains") {
        Some(Json::Array(values)) => {
            let kept = kept_domain_values(values);
            fields.push(("source_domains".to_owned(), kept));
            proof {
                assert(data(fields@) =~= data(held) + domain_fields(*event));
            }
        },
        _ => {
            proof {
                assert(data(held) =~= data(held) + domain_fields(*event));
            }
        },
    }
    Some(Json::Object(fields))
}

/// The names that a kept event may hold.
pub open spec fn is_kept_name(name: Seq<char>) -> bool {
    ||| name == "type"@
    ||| name == "turn_id"@
    ||| name == "source_domains"@
    ||| is_one_of(name, text_names())
    ||| is_one_of(name, number_names())
    ||| is_one_of(name, flag_names())
}

/// A value without room for contents: a name of a known type, or a bounded
/// text, number or flag.
pub open spec fn is_structural(field: (Seq<char>, Datum)) -> bool {
    match field.1 {
        Datum::Text(text) => is_one_of(text, event_types()) || is_safe(text, 160),
        Datum::Number(_, _, _) => true,
        Datum::Flag(_) => true,
        Datum::Texts(list) => list.len() <= MAX_SOURCE_DOMAINS && forall|i: int|
            0 <= i < list.len() ==> is_safe(#[trigger] list[i], 253),
        Datum::Null => false,
        Datum::Other => false,
    }
}

proof fn lemma_kept_fields(event: Json, names: Seq<&str>, kind: FieldKind, i: int)
    requires
        0 <= i < kept_fields(event, names, kind).len(),
    ensures
        is_one_of(kept_fields(event, names, kind)[i].0, names),
        is_structural(kept_fields(event, names, kind)[i]),
    decreases names.len(),
{
    let before = kept_fields(event, names.drop_last(), kind);
    if i < before.len() {
        lemma_kept_fields(event, names.drop_last(), kind, i);
        let j = choose|j: int| 0 <= j < names.drop_last().len() && #[trigger] names.drop_last()[j]@
            == before[i].0;
        assert(names[j]@ == before[i].0);
    } else {
        assert(names[names.len() - 1]@ == kept_fields(event, names, kind)[i].0);
    }
}

proof fn lemma_kept_domains(values: Seq<Json>)
    ensures
        kept_domains(values).len() <= values.len(),
        forall|i: int|
            0 <= i < kept_domains(values).len() ==> is_safe(
                #[trigger] kept_domains(values)[i],
                253,
            ),
    decreases values.len(),
{
    if values.len() > 0 {
        lemma_kept_domains(values.drop_last());
    }
}

/// A kept event holds nothing but structure: fields of known names, with
/// bounded values.
pub proof fn kept_events_hold_no_contents(event: Json, i: int)
    requires
        kept_event(event) is Some,
        0 <= i < kept_event(event)->Some_0.len(),
    ensures
        is_kept_name(kept_event(event)->Some_0[i].0),
        is_structural(kept_event(event)->Some_0[i]),
{
    let texts = kept_fields(event, text_names(), FieldKind::Text);
    let numbers = kept_fields(event, number_names(), FieldKind::Number);
    let flags = kept_fields(event, flag_names(), FieldKind::Flag);
    let a: int = 2;
    let b = a + texts.len();
    let c = b + numbers.len();
    let d = c + flags.len();
    let turn_id = safe_text(lookup(event, "turn_id"@)->Some_0, 128)->Some_0;
    assert(is_safe(turn_id, 160));
    if i < a {
    } else if i < b {
        lemma_kept_fields(event, text_names(), FieldKind::Text, i - a);
    } else if i < c {
        lemma_kept_fields(event, number_names(), FieldKind::Number, i - b);
    } else if i < d {
        lemma_kept_fields(event, flag_names(), FieldKind::Flag, i - c);
    } else {
        match lookup(event, "source_domains"@) {
            Some(Json::Array(values)) => {
                lemma_kept_domains(first_values(values@));
            },
            _ => {},
        }
    }
}

/// The trace of a turn.
#[derive(Debug, PartialEq, Eq)]
pub struct DiagnosticTrace {
    pub version: u16,
    pub turn_id: String,
    pub created_at: String,
    pub updated_at: String,
    pub events: Vec<Json>,
}

#[derive(Clone, Copy, Debug, PartialEq, Eq, Structural)]
pub enum DiagnosticError {
    /// There is no trace of the turn.
    NotFound,
    /// The trace belongs to another turn.
    CorrelationMismatch,
}

/// The name of the file that holds the trace of a turn.
pub open spec fn trace_file(turn_id: Seq<char>) -> Seq<char> {
    sha256_text(turn_id) + ".json"@
}

pub fn trace_name(turn_id: &str) -> (r: String)
    ensures
        r@ == trace_file(turn_id@),
        r@.len() == 69,
        is_digest_text(r@.take(64)),
{
    let digest = sha256_str(turn_id);
    let mut name = chars_of(digest.as_str());
    push_text(&mut name, ".json");
    proof {
        reveal_strlit(".json");
        assert(name@.take(64) =~= digest@);
    }
    string_of(&name)
}

/// The trace that stands for this turn, with one more event: a trace of
/// another turn is not continued.
pub fn extend_trace(
    existing: Option<DiagnosticTrace>,
    turn_id: &str,
    now: &str,
    event: Json,
) -> (r: DiagnosticTrace)
    ensures
        r.turn_id@ == turn_id@,
        r.updated_at@ == now@,
        match existing {
            Some(trace) if trace.turn_id@ == turn_id@ => {
                &&& r.version == trace.version
                &&& r.created_at == trace.created_at
                &&& r.events@ == trace.events@.push(event)
            },
            _ => {
                &&& r.version == 1
                &&& r.created_at@ == now@
                &&& r.events@ == seq![event]
            },
        },
{
    match existing {
        Some(trace) => {
            if same(trace.turn_id.as_str(), turn_id) {
                let mut trace = trace;
                trace.updated_at = now.to_owned();
                trace.events.push(event);
                return trace;
            }
        },
        None => {},
    }
    let mut events: Vec<Json> = Vec::new();
    events.push(event);
    proof {
        assert(events@ =~= seq![event]);
    }
    DiagnosticTrace {
        version: 1,
        turn_id: turn_id.to_owned(),
        created_at: now.to_owned(),
        updated_at: now.to_owned(),
        events,
    }
}

/// The trace that is handed out for a turn.
pub fn export_trace(found: Option<DiagnosticTrace>, turn_id: &str) -> (r: Result<
    DiagnosticTrace,
    DiagnosticError,
>)
    ensures
        r == match found {
            Some(trace) => if trace.turn_id@ == turn_id@ {
                Ok(trace)
            } else {
                Err(DiagnosticError::CorrelationMismatch)
            },
            None => Err(DiagnosticError::NotFound),
        },
{
    match found {
        Some(trace) => {
            if same(trace.turn_id.as_str(), turn_id) {
                Ok(trace)
            } else {
                Err(DiagnosticError::CorrelationMismatch)
            }
        },
        None => Err(DiagnosticError::NotFound),
    }
}

pub open spec fn sum_of(sizes: Seq<u64>) -> nat
    decreases sizes.len(),
{
    if sizes.len() == 0 {
        0
    } else {
        sizes[0] as nat + sum_of(sizes.drop_first())
    }
}

/// The bounds of a list of entries with sizes.
#[derive(Clone, Copy, Debug, PartialEq, Eq, Structural)]
pub struct Bounds {
    /// The most entries.
    pub entries: usize,
    /// The most bytes.
    pub bytes: u64,
    /// The bytes of the list without its entries.
    pub envelope: u64,
    /// The bytes between two entries.
    pub separator: u8,
}

/// The bytes of the whole list.
pub open spec fn weight(sizes: Seq<u64>, bounds: Bounds) -> int {
    bounds.envelope + sum_of(sizes) + if sizes.len() > 0 {
        (sizes.len() - 1) * bounds.separator
    } else {
        0
    }
}

/// The list is within its bounds; a single entry always is.
pub open spec fn fits(sizes: Seq<u64>, bounds: Bounds) -> bool {
    sizes.len() <= bounds.entries && (weight(sizes, bounds) <= bounds.bytes || sizes.len() <= 1)
}

/// How many entries leave from the front until the list fits.
pub open spec fn overflow(sizes: Seq<u64>, bounds: Bounds) -> nat
    decreases sizes.len(),
{
    if sizes.len() == 0 || fits(sizes, bounds) {
        0
    } else {
        1 + overflow(sizes.drop_first(), bounds)
    }
}

proof fn lemma_sum_bound(sizes: Seq<u64>)
    ensures
        sum_of(sizes) <= sizes.len() * u64::MAX,
    decreases sizes.len(),
{
    if sizes.len() > 0 {
        lemma_sum_bound(sizes.drop_first());
        let n = sizes.len() as int;
        assert((n - 1) * u64::MAX + u64::MAX == n * u64::MAX) by (nonlinear_arith);
    }
}

fn total_of(sizes: &Vec<u64>) -> (r: u128)
    ensures
        r == sum_of(sizes@),
{
    let n: usize = sizes.len();
    let mut i: usize = n;
    let mut total: u128 = 0;
    proof {
        assert(sizes@.skip(n as int) =~= Seq::<u64>::empty());
    }
    while i > 0
        invariant
            n == sizes@.len(),
            i <= n,
            total == sum_of(sizes@.skip(i as int)),
        decreases i,
    {
        i = i - 1;
        let ghost rest = sizes@.skip(i as int);
        proof {
            assert(rest.drop_first() =~= sizes@.skip(i + 1));
            assert(rest[0] == sizes@[i as int]);
            lemma_sum_bound(rest);
            let m = rest.len() as int;
            assert(m * u64::MAX <= u128::MAX) by (nonlinear_arith)
                requires
                    0 <= m <= u64::MAX,
            ;
        }
        total = total + sizes[i] as u128;
    }
    proof {
        assert(sizes@.skip(0) =~= sizes@);
    }
    total
}

/// The number of entries that leave from the front of a list.
pub fn entries_to_drop(sizes: &Vec<u64>, bounds: &Bounds) -> (r: usize)
    requires
        bounds.entries >= 1,
    ensures
        r == overflow(sizes@, *bounds),
        r <= sizes@.len(),
        fits(sizes@.skip(r as int), *bounds),
{
    let n: usize = sizes.len();
    let mut total: u128 = total_of(sizes);
    let mut i: usize = 0;
    proof {
        assert(sizes@.skip(0) =~= sizes@);
    }
    while i < n
        invariant
            n == sizes@.len(),
            i <= n,
            bounds.entries >= 1,
            total == sum_of(sizes@.skip(i as int)),
            overflow(sizes@, *bounds) == i + overflow(sizes@.skip(i as int), *bounds),
        decreases n - i,
    {
        let ghost rest = sizes@.skip(i as int);
        let left: usize = n - i;
        proof {
            assert(rest.len() == left);
            lemma_sum_bound(rest);
            assert(left * u64::MAX <= u64::MAX * u64::MAX) by (nonlinear_arith)
                requires
                    left <= u64::MAX,
            ;
            assert((left - 1) * bounds.separator <= u64::MAX * 255) by (nonlinear_arith)
                requires
                    1 <= left <= u64::MAX,
                    0 <= bounds.separator <= 255,
            ;
            assert((left - 1) * bounds.separator >= 0) by (nonlinear_arith)
                requires
                    1 <= left,
                    0 <= bounds.separator,
            ;
        }
        let between: u128 = (left as u128 - 1) * bounds.separator as u128;
        let fits_now = left <= bounds.entries && (left <= 1 || within(
            total,
            bounds.envelope,
            between,
            bounds.bytes,
        ));
        if fits_now {
            return i;
        }
        proof {
            assert(rest.drop_first() =~= sizes@.skip(i + 1));
            assert(rest[0] == sizes@[i as int]);
        }
        total = total - sizes[i] as u128;
        i = i + 1;
    }
    i
}

fn within(total: u128, envelope: u64, between: u128, limit: u64) -> (r: bool)
    ensures
        r == (envelope + total + between <= limit),
{
    if total > limit as u128 || between > limit as u128 {
        return false;
    }
    envelope as u128 + total + between <= limit as u128
}

/// The bounds of the trace of one turn, as compact JSON.
pub open spec fn turn_bounds(envelope: u64) -> Bounds {
    Bounds {
        entries: MAX_EVENTS_PER_TURN,
        bytes: MAX_TURN_BYTES,
        envelope,
        separator: 1,
    }
}

/// How many of the oldest events of a turn leave, from the encoded size of each
/// event and of the trace without events.
pub fn events_to_drop(sizes: &Vec<u64>, envelope: u64) -> (r: usize)
    ensures
        r == overflow(sizes@, turn_bounds(envelope)),
        r <= sizes@.len(),
        fits(sizes@.skip(r as int), turn_bounds(envelope)),
{
    let bounds = Bounds {
        entries: MAX_EVENTS_PER_TURN,
        bytes: MAX_TURN_BYTES,
        envelope,
        separator: 1,
    };
    entries_to_drop(sizes, &bounds)
}

/// A file with the trace of a turn.
#[derive(Clone, Copy, Debug, PartialEq, Eq, Structural)]
pub struct TraceFile {
    pub size: u64,
    /// When it was written, in nanoseconds.
    pub modified_ns: u64,
}

pub open spec fn is_expired(file: TraceFile, now_ns: u64) -> bool {
    now_ns - file.modified_ns > MAX_AGE_NS
}

pub open spec fn age_keys(files: Seq<TraceFile>) -> Seq<Seq<u64>> {
    Seq::new(files.len(), |i: int| seq![files[i].modified_ns])
}

/// The files of an order that are not expired.
pub open spec fn unexpired(order: Seq<int>, files: Seq<TraceFile>, now_ns: u64) -> Seq<int>
    decreases order.len(),
{
    if order.len() == 0 {
        Seq::empty()
    } else {
        let before = unexpired(order.drop_last(), files, now_ns);
        if is_expired(files[order.last()], now_ns) {
            before
        } else {
            before.push(order.last())
        }
    }
}

pub open spec fn sizes_at(order: Seq<int>, files: Seq<TraceFile>) -> Seq<u64> {
    Seq::new(order.len(), |i: int| files[order[i]].size)
}

pub open spec fn store_bounds() -> Bounds {
    Bounds { entries: MAX_TURNS, bytes: MAX_TOTAL_BYTES, envelope: 0, separator: 0 }
}

/// The files by age, the oldest first, without those that expired.
pub open spec fn fresh_files(files: Seq<TraceFile>, now_ns: u64) -> Seq<int> {
    unexpired(stable_order(age_keys(files), files.len() as int), files, now_ns)
}

/// The files that stay: the youngest ones that fit.
pub open spec fn retained(files: Seq<TraceFile>, now_ns: u64) -> Seq<int> {
    let fresh = fresh_files(files, now_ns);
    fresh.skip(overflow(sizes_at(fresh, files), store_bounds()) as int)
}

proof fn lemma_unexpired(order: Seq<int>, files: Seq<TraceFile>, now_ns: u64)
    requires
        forall|i: int| 0 <= i < order.len() ==> 0 <= #[trigger] order[i] < files.len(),
    ensures
        forall|i: int|
            0 <= i < unexpired(order, files, now_ns).len() ==> {
                let place = #[trigger] unexpired(order, files, now_ns)[i];
                0 <= place < files.len() && !is_expired(files[place], now_ns)
            },
        unexpired(order, files, now_ns).len() <= order.len(),
    decreases order.len(),
{
    if order.len() > 0 {
        let shorter = order.drop_last();
        assert forall|i: int| 0 <= i < shorter.len() implies 0 <= #[trigger] shorter[i]
            < files.len() by {
            assert(order[i] == shorter[i]);
        }
        lemma_unexpired(shorter, files, now_ns);
        assert(order[order.len() - 1] == order.last());
    }
}

proof fn lemma_overflow(sizes: Seq<u64>, bounds: Bounds)
    requires
        bounds.entries >= 1,
    ensures
        overflow(sizes, bounds) <= sizes.len(),
        fits(sizes.skip(overflow(sizes, bounds) as int), bounds),
        sizes.len() > 0 ==> overflow(sizes, bounds) < sizes.len(),
    decreases sizes.len(),
{
    if sizes.len() == 0 || fits(sizes, bounds) {
        assert(sizes.skip(0) =~= sizes);
    } else {
        let rest = sizes.drop_first();
        lemma_overflow(rest, bounds);
        let n = overflow(rest, bounds) as int;
        assert(sizes.skip(n + 1) =~= rest.skip(n));
    }
}

pub struct DiagnosticRecorder;

impl DiagnosticRecorder {
    /// For each file, whether it is removed.
    pub fn prune(files: &Vec<TraceFile>, now_ns: u64) -> (r: Vec<bool>)
        ensures
            r@.len() == files@.len(),
            forall|i: int|
                0 <= i < r@.len() ==> #[trigger] r@[i] == !retained(files@, now_ns).contains(i),
    {
        let n: usize = files.len();
        let mut keys: Vec<Vec<u64>> = Vec::new();
        let mut i: usize = 0;
        while i < n
            invariant
                n == files@.len(),
                i <= n,
                keys@.len() == i,
                forall|j: int|
                    0 <= j < i ==> #[trigger] keys@[j]@ == seq![files@[j].modified_ns],
            decreases n - i,
        {
            let mut key: Vec<u64> = Vec::new();
            key.push(files[i].modified_ns);
            proof {
                assert(key@ =~= seq![files@[i as int].modified_ns]);
            }
            keys.push(key);
            i = i + 1;
        }
        proof {
            assert(key_seqs(keys@) =~= age_keys(files@));
        }
        let order = order_of(&keys);
        let mut fresh: Vec<usize> = Vec::new();
        let mut sizes: Vec<u64> = Vec::new();
        i = 0;
        proof {
            assert(indices(order@).take(0) =~= Seq::<int>::empty());
            assert(indices(fresh@) =~= Seq::<int>::empty());
            assert(sizes@ =~= sizes_at(indices(fresh@), files@));
        }
        while i < n
            invariant
                n == files@.len(),
                i <= n,
                order@.len() == n,
                forall|q: int| 0 <= q < order@.len() ==> #[trigger] order@[q] < n,
                forall|q: int| 0 <= q < fresh@.len() ==> #[trigger] fresh@[q] < n,
                fresh@.len() == sizes@.len(),
                indices(fresh@) == unexpired(indices(order@).take(i as int), files@, now_ns),
                sizes@ == sizes_at(indices(fresh@), files@),
            decreases n - i,
        {
            let ghost next = indices(order@).take(i + 1);
            proof {
                assert(next.drop_last() =~= indices(order@).take(i as int));
                assert(next.last() == order@[i as int] as int);
            }
            let place: usize = order[i];
            let file = files[place];
            let expired = now_ns > file.modified_ns && now_ns - file.modified_ns > MAX_AGE_NS;
            if !expired {
                let ghost held = fresh@;
                let ghost held_sizes = sizes@;
                fresh.push(place);
                sizes.push(file.size);
                proof {
                    assert(indices(fresh@) =~= indices(held).push(place as int));
                    assert(sizes@ =~= sizes_at(indices(fresh@), files@)) by {
                        assert forall|j: int| 0 <= j < sizes@.len() implies #[trigger] sizes@[j]
                            == sizes_at(indices(fresh@), files@)[j] by {
                            if j < held.len() {
                                assert(sizes@[j] == held_sizes[j]);
                                assert(held_sizes[j] == sizes_at(indices(held), files@)[j]);
                            }
                        }
                    }
                }
            }
            i = i + 1;
        }
        proof {
            assert(indices(order@).take(n as int) =~= indices(order@));
            assert(indices(fresh@) == fresh_files(files@, now_ns));
        }
        let bounds = Bounds {
            entries: MAX_TURNS,
            bytes: MAX_TOTAL_BYTES,
            envelope: 0,
            separator: 0,
        };
        let dropped: usize = entries_to_drop(&sizes, &bounds);
        let mut removed: Vec<bool> = Vec::new();
        i = 0;
        while i < n
            invariant
                i <= n,
                removed@.len() == i,
                forall|j: int| 0 <= j < i ==> #[trigger] removed@[j],
            decreases n - i,
        {
            removed.push(true);
            i = i + 1;
        }
        let ghost kept = indices(fresh@).skip(dropped as int);
        i = dropped;
        while i < fresh.len()
            invariant
                dropped <= i <= fresh@.len(),
                removed@.len() == n,
                n == files@.len(),
                kept == indices(fresh@).skip(dropped as int),
                forall|q: int| 0 <= q < fresh@.len() ==> #[trigger] fresh@[q] < n,
                forall|j: int|
                    0 <= j < n ==> #[trigger] removed@[j] == !kept.take(i - dropped).contains(j),
            decreases fresh@.len() - i,
        {
            let ghost held = removed@;
            let ghost done = kept.take(i - dropped);
            let ghost next = kept.take(i + 1 - dropped);
            removed.set(fresh[i], false);
            proof {
                assert(next =~= done.push(fresh@[i as int] as int));
                assert forall|j: int| 0 <= j < n implies #[trigger] removed@[j] == !next.contains(
                    j,
                ) by {
                    if j == fresh@[i as int] {
                        assert(next[next.len() - 1] == j);
                    } else {
                        assert(removed@[j] == held[j]);
                        if done.contains(j) {
                            let q = choose|q: int| 0 <= q < done.len() && done[q] == j;
                            assert(next[q] == j);
                        }
                        if next.contains(j) {
                            let q = choose|q: int| 0 <= q < next.len() && next[q] == j;
                            assert(done[q] == j);
                        }
                    }
                }
            }
            i = i + 1;
        }
        proof {
            assert(kept.take(fresh@.len() - dropped) =~= kept);
        }
        removed
    }
}

/// The traces that stay are within the bounds of age, number and size: none is
/// expired, there are at most a thousand of them, and together they are within
/// the limit unless a single one is left.
pub proof fn traces_stay_within_bounds(files: Seq<TraceFile>, now_ns: u64)
    ensures
        retained(files, now_ns).len() <= MAX_TURNS,
        sum_of(sizes_at(retained(files, now_ns), files)) <= MAX_TOTAL_BYTES || retained(
            files,
            now_ns,
        ).len() <= 1,
        forall|i: int|
            0 <= i < retained(files, now_ns).len() ==> {
                let place = #[trigger] retained(files, now_ns)[i];
                0 <= place < files.len() && !is_expired(files[place], now_ns)
            },
{
    let keys = age_keys(files);
    stable_order_range(keys, files.len() as int);
    let order = stable_order(keys, files.len() as int);
    let fresh = fresh_files(files, now_ns);
    lemma_unexpired(order, files, now_ns);
    let sizes = sizes_at(fresh, files);
    lemma_overflow(sizes, store_bounds());
    let n = overflow(sizes, store_bounds()) as int;
    let kept = retained(files, now_ns);
    assert(sizes_at(kept, files) =~= sizes.skip(n));
    assert(weight(sizes.skip(n), store_bounds()) == sum_of(sizes.skip(n))) by {
        let m = sizes.skip(n).len() as int;
        assert((m - 1) * 0 == 0);
    }
    assert forall|i: int| 0 <= i < kept.len() implies {
        let place = #[trigger] kept[i];
        0 <= place < files.len() && !is_expired(files[place], now_ns)
    } by {
        assert(kept[i] == fresh[i + n]);
    }
}

/// Some trace stays as long as one of them is not expired.
pub proof fn a_fresh_trace_is_retained(files: Seq<TraceFile>, now_ns: u64)
    requires
        fresh_files(files, now_ns).len() > 0,
    ensures
        retained(files, now_ns).len() > 0,
        retained(files, now_ns).last() == fresh_files(files, now_ns).last(),
{
    let fresh = fresh_files(files, now_ns);
    lemma_overflow(sizes_at(fresh, files), store_bounds());
}

} // verus!
