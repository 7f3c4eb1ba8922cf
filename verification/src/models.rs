//! The models of the runtime by their names.

use crate::text::{
    chars_of, contains_char, ends, ends_with, has_char, prefix_of, push_text, same, same_chars,
    string_of, strings, trim, trimmed,
};
use vstd::prelude::*;

verus! {

/// A name without the tag of the latest version.
pub open spec fn without_latest(name: Seq<char>) -> Option<Seq<char>> {
    if ends_with(name, ":latest"@) {
        Some(name.take(name.len() - ":latest"@.len()))
    } else {
        None
    }
}

/// A loaded model is the requested one: by name, or by the tag of the latest
/// version that one of the two leaves out.
pub open spec fn names_model(loaded: Seq<char>, requested: Seq<char>) -> bool {
    ||| loaded == requested
    ||| !has_char(requested, ':') && loaded == requested + ":latest"@
    ||| without_latest(loaded) == Some(requested)
    ||| without_latest(requested) == Some(loaded)
}

/// The loaded model that is requested, from a place on.
pub open spec fn loaded_from(models: Seq<Seq<char>>, requested: Seq<char>, i: int) -> Option<
    Seq<char>,
>
    decreases models.len() - i,
{
    if i < 0 || i >= models.len() {
        None
    } else if names_model(trim(models[i]), requested) {
        Some(trim(models[i]))
    } else {
        loaded_from(models, requested, i + 1)
    }
}

/// The loaded model that is requested.
pub open spec fn loaded_model(models: Seq<Seq<char>>, requested: Seq<char>) -> Option<Seq<char>> {
    if trim(requested).len() == 0 {
        None
    } else {
        loaded_from(models, trim(requested), 0)
    }
}

fn is_latest_of(name: &Vec<char>, base: &Vec<char>) -> (r: bool)
    ensures
        r == (without_latest(name@) == Some(base@)),
{
    if !ends(name, ":latest") {
        return false;
    }
    let tag = chars_of(":latest");
    let end: usize = name.len() - tag.len();
    let head = prefix_of(name, end);
    proof {
        assert(head@ =~= name@.take(end as int));
    }
    same_chars(&head, base)
}

fn names(loaded: &Vec<char>, requested: &Vec<char>) -> (r: bool)
    ensures
        r == names_model(loaded@, requested@),
{
    if same_chars(loaded, requested) {
        return true;
    }
    if !contains_char(requested, ':') {
        let mut tagged = crate::text::copy_chars(requested);
        push_text(&mut tagged, ":latest");
        if same_chars(loaded, &tagged) {
            return true;
        }
    }
    is_latest_of(loaded, requested) || is_latest_of(requested, loaded)
}

pub fn matching_loaded_model(loaded_models: &Vec<String>, requested: &str) -> (r: Option<String>)
    ensures
        match r {
            Some(name) => loaded_model(strings(loaded_models@), requested@) == Some(name@),
            None => loaded_model(strings(loaded_models@), requested@) is None,
        },
{
    let requested_chars = chars_of(requested);
    let wanted = trimmed(&requested_chars);
    if wanted.len() == 0 {
        return None;
    }
    let ghost all = strings(loaded_models@);
    let mut i: usize = 0;
    while i < loaded_models.len()
        invariant
            i <= loaded_models@.len(),
            all == strings(loaded_models@),
            wanted@ == trim(requested@),
            wanted@.len() > 0,
            loaded_model(all, requested@) == loaded_from(all, wanted@, i as int),
        decreases loaded_models@.len() - i,
    {
        let chars = chars_of(loaded_models[i].as_str());
        let loaded = trimmed(&chars);
        proof {
            assert(all[i as int] == loaded_models@[i as int]@);
        }
        if names(&loaded, &wanted) {
            return Some(string_of(&loaded));
        }
        i = i + 1;
    }
    None
}

/// The model of a setting, where it is loaded.
pub open spec fn unloads(loaded: Seq<Seq<char>>, setting: Seq<char>) -> Seq<Seq<char>> {
    match loaded_model(loaded, setting) {
        Some(name) => seq![name],
        None => Seq::empty(),
    }
}

/// The models that are unloaded at the end: the two that the settings name, each
/// once.
pub open spec fn to_unload(
    loaded: Seq<Seq<char>>,
    default_model: Seq<char>,
    classifier_model: Seq<char>,
) -> Seq<Seq<char>> {
    unloads(loaded, default_model) + if trim(classifier_model) == trim(default_model) {
        Seq::empty()
    } else {
        unloads(loaded, classifier_model)
    }
}

pub fn models_to_unload(
    loaded_models: &Vec<String>,
    default_model: &str,
    classifier_model: &str,
) -> (r: Vec<String>)
    ensures
        strings(r@) == to_unload(strings(loaded_models@), default_model@, classifier_model@),
{
    let mut out: Vec<String> = Vec::new();
    let ghost loaded = strings(loaded_models@);
    match matching_loaded_model(loaded_models, default_model) {
        Some(name) => out.push(name),
        None => {},
    }
    proof {
        assert(strings(out@) =~= unloads(loaded, default_model@));
    }
    let first = trimmed(&chars_of(default_model));
    let second = trimmed(&chars_of(classifier_model));
    if !same_chars(&second, &first) {
        let ghost before = out@;
        match matching_loaded_model(loaded_models, classifier_model) {
            Some(name) => out.push(name),
            None => {},
        }
        proof {
            assert(strings(out@) =~= strings(before) + unloads(loaded, classifier_model@));
        }
    }
    proof {
        assert(strings(out@) =~= to_unload(loaded, default_model@, classifier_model@));
    }
    out
}

/// The models that the chat offers.
pub open spec fn offered(names: Seq<Seq<char>>, default_model: Seq<char>) -> Seq<Seq<char>>
    decreases names.len(),
{
    if names.len() == 0 {
        Seq::empty()
    } else {
        let before = offered(names.drop_last(), default_model);
        if names.last() == default_model {
            before.push(names.last())
        } else {
            before
        }
    }
}

pub fn chat_models(list: &Vec<String>, default_model: &str) -> (r: Vec<String>)
    ensures
        strings(r@) == offered(strings(list@), default_model@),
{
    let mut out: Vec<String> = Vec::new();
    let ghost all = strings(list@);
    let mut i: usize = 0;
    proof {
        assert(all.take(0) =~= Seq::<Seq<char>>::empty());
        assert(strings(out@) =~= offered(all.take(0), default_model@));
    }
    while i < list.len()
        invariant
            i <= list@.len(),
            all == strings(list@),
            strings(out@) == offered(all.take(i as int), default_model@),
        decreases list@.len() - i,
    {
        let ghost next = all.take(i + 1);
        proof {
            assert(next.drop_last() =~= all.take(i as int));
            assert(next.last() == list@[i as int]@);
        }
        if same(list[i].as_str(), default_model) {
            let ghost before = out@;
            out.push(list[i].clone());
            proof {
                assert(strings(out@) =~= strings(before).push(list@[i as int]@));
            }
        }
        i = i + 1;
    }
    proof {
        assert(all.take(all.len() as int) =~= all);
    }
    out
}

/// A tag that is left out is the tag of the latest version, whichever of the two
/// names leaves it out.
pub proof fn the_latest_tag_may_be_left_out(base: Seq<char>)
    ensures
        names_model(base + ":latest"@, base),
        names_model(base, base + ":latest"@),
{
    let tagged = base + ":latest"@;
    assert(ends_with(tagged, ":latest"@));
    assert(tagged.take(tagged.len() - ":latest"@.len()) =~= base);
}

} // verus!
