//! Claims of structured data that names the page it stands on.

use crate::json::{lookup, parse_json, parsed_json, Json};
use crate::numeric::{has_scope, numeric_label_has_scope};
use crate::text::{
    any_digit, chars_of, copy_chars, has_digit, push_all, push_text, string_of, texts, trim,
    trimmed,
};
use crate::weburl::{normalized_url_string, normalized_url_text, parsed_url, WebUrl};
use vstd::prelude::*;

verus! {

/// A text value without outer space, where anything is left of it.
pub open spec fn trimmed_text(value: Option<Json>) -> Option<Seq<char>> {
    match value {
        Some(Json::Text(text)) => if trim(text@).len() > 0 {
            Some(trim(text@))
        } else {
            None
        },
        _ => None,
    }
}

/// A number, or a text with a digit.
pub open spec fn scalar_text(value: Option<Json>) -> Option<Seq<char>> {
    match value {
        Some(Json::Text(text)) => if has_digit(text@) {
            Some(trim(text@))
        } else {
            None
        },
        Some(Json::Number { text, .. }) => Some(text@),
        _ => None,
    }
}

/// The first field of a list that holds a text.
pub open spec fn first_text(object: Json, keys: Seq<&str>) -> Option<Seq<char>>
    decreases keys.len(),
{
    if keys.len() == 0 {
        None
    } else {
        match first_text(object, keys.drop_last()) {
            Some(text) => Some(text),
            None => trimmed_text(lookup(object, keys.last()@)),
        }
    }
}

/// The address that a field names, itself or by the identifier of an object.
pub open spec fn field_address(object: Json, key: Seq<char>) -> Option<Seq<char>> {
    match trimmed_text(lookup(object, key)) {
        Some(text) => Some(text),
        None => match lookup(object, key) {
            Some(nested) => trimmed_text(lookup(nested, "@id"@)),
            None => None,
        },
    }
}

pub open spec fn names_page(address: Option<Seq<char>>, page: WebUrl) -> bool {
    match address {
        Some(text) => match parsed_url(text) {
            Some(url) => normalized_url_text(url) == normalized_url_text(page),
            None => false,
        },
        None => false,
    }
}

/// The object says that it describes the page.
pub open spec fn is_bound(object: Json, page: WebUrl) -> bool {
    names_page(field_address(object, "url"@), page) || names_page(
        field_address(object, "@id"@),
        page,
    ) || names_page(field_address(object, "mainEntityOfPage"@), page)
}

/// Fields that say when a value was observed, not when the page was written.
pub open spec fn observation_keys() -> Seq<&'static str> {
    seq!["referenceDate", "observationDate", "measurementDate", "validFrom", "startDate"]
}

pub open spec fn definition_keys() -> Seq<&'static str> {
    seq!["measurementTechnique", "description", "additionalType"]
}

/// Who holds an office.
pub open spec fn role_claim(object: Json) -> Seq<Seq<char>> {
    match (trimmed_text(lookup(object, "name"@)), trimmed_text(lookup(object, "jobTitle"@))) {
        (Some(name), Some(role)) => seq![name + " is "@ + role + "."@],
        _ => Seq::empty(),
    }
}

pub open spec fn with_unit(object: Json) -> Seq<char> {
    match trimmed_text(lookup(object, "unitText"@)) {
        Some(unit) => " "@ + unit,
        None => Seq::empty(),
    }
}

pub open spec fn with_definition(object: Json) -> Seq<char> {
    match first_text(object, definition_keys()) {
        Some(definition) => " ("@ + definition + ")"@,
        None => Seq::empty(),
    }
}

/// A value with what it measures and when it was observed.
pub open spec fn measurement_claim(object: Json) -> Seq<Seq<char>> {
    match (
        trimmed_text(lookup(object, "name"@)),
        scalar_text(lookup(object, "value"@)),
        first_text(object, observation_keys()),
    ) {
        (Some(name), Some(value), Some(date)) => if first_text(object, definition_keys()) is Some
            || has_scope(name) {
            seq![
                name + with_definition(object) + " was "@ + value + with_unit(object) + " as of "@
                    + date + "."@,
            ]
        } else {
            Seq::empty()
        },
        _ => Seq::empty(),
    }
}

pub open spec fn object_claims(object: Json, page: WebUrl) -> Seq<Seq<char>> {
    if is_bound(object, page) {
        role_claim(object) + measurement_claim(object)
    } else {
        Seq::empty()
    }
}

/// The claims of all objects of a document that name the page.
pub open spec fn value_claims(value: Json, page: WebUrl) -> Seq<Seq<char>>
    decreases value,
{
    match value {
        Json::Array(items) => item_claims(items@, page),
        Json::Object(fields) => object_claims(value, page) + (match crate::json::field_index(
            fields@,
            "@graph"@,
            0,
        ) {
            Some(i) => if 0 <= i < fields@.len() {
                value_claims(fields@[i].1, page)
            } else {
                Seq::empty()
            },
            None => Seq::empty(),
        }),
        _ => Seq::empty(),
    }
}

pub open spec fn item_claims(items: Seq<Json>, page: WebUrl) -> Seq<Seq<char>>
    decreases items,
{
    if items.len() == 0 {
        Seq::empty()
    } else {
        item_claims(items.drop_last(), page) + value_claims(items.last(), page)
    }
}

fn trimmed_chars(value: Option<&Json>) -> (r: Option<Vec<char>>)
    ensures
        match (value, r) {
            (Some(v), Some(t)) => trimmed_text(Some(*v)) == Some(t@),
            (Some(v), None) => trimmed_text(Some(*v)) is None,
            (None, Some(_)) => false,
            (None, None) => true,
        },
{
    match value {
        Some(Json::Text(text)) => {
            let chars = chars_of(text.as_str());
            let core = trimmed(&chars);
            if core.len() > 0 {
                Some(core)
            } else {
                None
            }
        },
        _ => None,
    }
}

fn field_chars(object: &Json, key: &str) -> (r: Option<Vec<char>>)
    ensures
        match r {
            Some(t) => trimmed_text(lookup(*object, key@)) == Some(t@),
            None => trimmed_text(lookup(*object, key@)) is None,
        },
{
    trimmed_chars(object.get(key))
}

fn first_chars(object: &Json, keys: &[&str]) -> (r: Option<Vec<char>>)
    ensures
        match r {
            Some(t) => first_text(*object, keys@) == Some(t@),
            None => first_text(*object, keys@) is None,
        },
{
    let mut found: Option<Vec<char>> = None;
    let mut i: usize = 0;
    proof {
        assert(keys@.take(0) =~= Seq::empty());
    }
    while i < keys.len()
        invariant
            i <= keys@.len(),
            match found {
                Some(t) => first_text(*object, keys@.take(i as int)) == Some(t@),
                None => first_text(*object, keys@.take(i as int)) is None,
            },
        decreases keys@.len() - i,
    {
        proof {
            let next = keys@.take(i as int + 1);
            assert(next.drop_last() =~= keys@.take(i as int));
            assert(next.last() == keys@[i as int]);
        }
        if found.is_none() {
            found = field_chars(object, keys[i]);
        }
        i = i + 1;
    }
    proof {
        assert(keys@.take(keys@.len() as int) =~= keys@);
    }
    found
}

fn scalar_chars(object: &Json, key: &str) -> (r: Option<Vec<char>>)
    ensures
        match r {
            Some(t) => scalar_text(lookup(*object, key@)) == Some(t@),
            None => scalar_text(lookup(*object, key@)) is None,
        },
{
    match object.get(key) {
        Some(Json::Text(text)) => {
            let chars = chars_of(text.as_str());
            if any_digit(&chars) {
                Some(trimmed(&chars))
            } else {
                None
            }
        },
        Some(Json::Number { text, .. }) => Some(chars_of(text.as_str())),
        _ => None,
    }
}

fn field_names_page(object: &Json, key: &str, page: &str, Ghost(url): Ghost<WebUrl>) -> (r: bool)
    requires
        page@ == normalized_url_text(url),
    ensures
        r == names_page(field_address(*object, key@), url),
{
    let direct = field_chars(object, key);
    let address = if direct.is_some() {
        direct
    } else {
        match object.get(key) {
            Some(nested) => field_chars(nested, "@id"),
            None => None,
        }
    };
    match address {
        Some(text) => {
            let string = string_of(&text);
            match WebUrl::parse(string.as_str()) {
                Some(found) => {
                    let normal = normalized_url_string(&found);
                    crate::text::same(normal.as_str(), page)
                },
                None => false,
            }
        },
        None => false,
    }
}

pub fn json_ld_object_is_bound(object: &Json, final_url: &WebUrl) -> (r: bool)
    ensures
        r == is_bound(*object, *final_url),
{
    let page = normalized_url_string(final_url);
    field_names_page(object, "url", page.as_str(), Ghost(*final_url)) || field_names_page(
        object,
        "@id",
        page.as_str(),
        Ghost(*final_url),
    ) || field_names_page(object, "mainEntityOfPage", page.as_str(), Ghost(*final_url))
}

fn push_role(object: &Json, passages: &mut Vec<Vec<char>>)
    ensures
        texts(final(passages)@) == texts(old(passages)@) + role_claim(*object),
{
    let ghost before = passages@;
    match (field_chars(object, "name"), field_chars(object, "jobTitle")) {
        (Some(name), Some(role)) => {
            let mut claim = copy_chars(&name);
            push_text(&mut claim, " is ");
            push_all(&mut claim, &role);
            push_text(&mut claim, ".");
            let ghost text = claim@;
            passages.push(claim);
            proof {
                assert(texts(passages@) =~= texts(before) + seq![text]);
            }
        },
        _ => {
            proof {
                assert(texts(passages@) =~= texts(before) + Seq::empty());
            }
        },
    }
}

fn push_measurement(object: &Json, passages: &mut Vec<Vec<char>>)
    ensures
        texts(final(passages)@) == texts(old(passages)@) + measurement_claim(*object),
{
    let ghost before = passages@;
    let observations = [
        "referenceDate",
        "observationDate",
        "measurementDate",
        "validFrom",
        "startDate",
    ];
    let definitions = ["measurementTechnique", "description", "additionalType"];
    proof {
        assert(observations@ =~= observation_keys());
        assert(definitions@ =~= definition_keys());
        assert(texts(passages@) =~= texts(before) + Seq::empty());
    }
    match (
        field_chars(object, "name"),
        scalar_chars(object, "value"),
        first_chars(object, &observations),
    ) {
        (Some(name), Some(value), Some(date)) => {
            let definition = first_chars(object, &definitions);
            let label = string_of(&name);
            if definition.is_none() && !numeric_label_has_scope(label.as_str()) {
                return;
            }
            let mut claim = copy_chars(&name);
            if let Some(text) = &definition {
                push_text(&mut claim, " (");
                push_all(&mut claim, text);
                push_text(&mut claim, ")");
            }
            proof {
                assert(claim@ =~= name@ + with_definition(*object));
            }
            push_text(&mut claim, " was ");
            push_all(&mut claim, &value);
            let ghost middle = claim@;
            if let Some(unit) = field_chars(object, "unitText") {
                push_text(&mut claim, " ");
                push_all(&mut claim, &unit);
            }
            proof {
                assert(claim@ =~= middle + with_unit(*object));
            }
            push_text(&mut claim, " as of ");
            push_all(&mut claim, &date);
            push_text(&mut claim, ".");
            let ghost text = claim@;
            passages.push(claim);
            proof {
                assert(texts(passages@) =~= texts(before) + seq![text]);
            }
        },
        _ => {},
    }
}

/// Adds the claims of a document that name the page.
pub fn collect_bound_json_ld_passages(
    value: &Json,
    final_url: &WebUrl,
    passages: &mut Vec<Vec<char>>,
)
    ensures
        texts(final(passages)@) == texts(old(passages)@) + value_claims(*value, *final_url),
    decreases value,
{
    let ghost before = texts(passages@);
    match value {
        Json::Array(items) => {
            let mut i: usize = 0;
            proof {
                assert(items@.take(0) =~= Seq::empty());
                assert(before + item_claims(items@.take(0), *final_url) =~= before);
            }
            while i < items.len()
                invariant
                    i <= items@.len(),
                    *value == Json::Array(*items),
                    before == texts(old(passages)@),
                    texts(passages@) == before + item_claims(items@.take(i as int), *final_url),
                decreases items@.len() - i,
            {
                let ghost sofar = texts(passages@);
                proof {
                    let next = items@.take(i as int + 1);
                    assert(next.drop_last() =~= items@.take(i as int));
                    assert(next.last() == items@[i as int]);
                }
                proof {
                    assert(decreases_to!(*value => value->Array_0));
                    assert(decreases_to!(*items => items@));
                    assert(decreases_to!(items@ => items@[i as int]));
                }
                collect_bound_json_ld_passages(&items[i], final_url, passages);
                proof {
                    assert(texts(passages@) =~= before + (item_claims(
                        items@.take(i as int),
                        *final_url,
                    ) + value_claims(items@[i as int], *final_url)));
                }
                i = i + 1;
            }
            proof {
                assert(items@.take(items@.len() as int) =~= items@);
            }
        },
        Json::Object(fields) => {
            if json_ld_object_is_bound(value, final_url) {
                push_role(value, passages);
                push_measurement(value, passages);
            }
            proof {
                assert(texts(passages@) =~= before + object_claims(*value, *final_url));
            }
            let ghost own = texts(passages@);
            let mut i: usize = 0;
            while i < fields.len()
                invariant
                    i <= fields@.len(),
                    *value == Json::Object(*fields),
                    before == texts(old(passages)@),
                    texts(passages@) == own,
                    own == before + object_claims(*value, *final_url),
                    crate::json::field_index(fields@, "@graph"@, 0) == crate::json::field_index(
                        fields@,
                        "@graph"@,
                        i as int,
                    ),
                decreases fields@.len() - i,
            {
                if crate::text::same(fields[i].0.as_str(), "@graph") {
                    collect_bound_json_ld_passages(&fields[i].1, final_url, passages);
                    proof {
                        assert(texts(passages@) =~= before + (object_claims(*value, *final_url)
                            + value_claims(fields@[i as int].1, *final_url)));
                    }
                    return;
                }
                i = i + 1;
            }
            proof {
                assert(own =~= before + (object_claims(*value, *final_url) + Seq::empty()));
            }
        },
        _ => {
            proof {
                assert(before + Seq::empty() =~= before);
            }
        },
    }
}

/// The claims of several documents, in their order.
pub open spec fn script_claims(scripts: Seq<Seq<char>>, page: WebUrl) -> Seq<Seq<char>>
    decreases scripts.len(),
{
    if scripts.len() == 0 {
        Seq::empty()
    } else {
        script_claims(scripts.drop_last(), page) + (match parsed_json(scripts.last()) {
            Some(value) => value_claims(value, page),
            None => Seq::empty(),
        })
    }
}

/// The claims of the documents of a page that are JSON.
pub fn claims_of_scripts(scripts: &Vec<Vec<char>>, final_url: &WebUrl) -> (r: Vec<Vec<char>>)
    ensures
        texts(r@) == script_claims(texts(scripts@), *final_url),
{
    let mut passages: Vec<Vec<char>> = Vec::new();
    let ghost model = texts(scripts@);
    let mut i: usize = 0;
    proof {
        assert(model.take(0) =~= Seq::empty());
        assert(texts(passages@) =~= Seq::empty());
    }
    while i < scripts.len()
        invariant
            i <= scripts@.len(),
            model == texts(scripts@),
            texts(passages@) == script_claims(model.take(i as int), *final_url),
        decreases scripts@.len() - i,
    {
        proof {
            let next = model.take(i as int + 1);
            assert(next.drop_last() =~= model.take(i as int));
            assert(next.last() == scripts@[i as int]@);
        }
        let ghost before = texts(passages@);
        let text = string_of(&scripts[i]);
        match parse_json(text.as_str()) {
            Some(value) => {
                collect_bound_json_ld_passages(&value, final_url, &mut passages);
            },
            None => {
                proof {
                    assert(before + Seq::empty() =~= before);
                }
            },
        }
        i = i + 1;
    }
    proof {
        assert(model.take(model.len() as int) =~= model);
    }
    passages
}

} // verus!
