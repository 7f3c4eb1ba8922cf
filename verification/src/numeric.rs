//! Numbers and years in prose: tokens, figures, and claims built from labelled
//! values.

use crate::text::{
    any_digit, any_term, ascii_lowercase, chars_of, contains_any, contains_char, copy_chars,
    decimal, decimal_of, digit, digits_of, digits_value, drop_char, has_char, has_digit, is_digit,
    lower_ascii, number_of, only_digits, parse_number, parse_unsigned, push_all, push_text, slice, string_of, strip,
    strip_marked, texts, trim, trimmed, without_char, words, words_of,
};
use vstd::prelude::*;

verus! {

/// Neither a digit nor a character that stands inside a figure.
pub open spec fn outside_figure() -> spec_fn(char) -> bool {
    |c: char| !is_digit(c) && c != ',' && c != '.' && c != '%'
}

/// The figures of a text: its words without the characters around them, where
/// a digit is left.
pub open spec fn figures_in(parts: Seq<Seq<char>>) -> Seq<Seq<char>>
    decreases parts.len(),
{
    if parts.len() == 0 {
        Seq::empty()
    } else {
        let core = strip(parts.last(), outside_figure());
        if has_digit(core) {
            figures_in(parts.drop_last()).push(core)
        } else {
            figures_in(parts.drop_last())
        }
    }
}

pub open spec fn figures(value: Seq<char>) -> Seq<Seq<char>> {
    figures_in(words(value))
}

fn strip_figure(word: &Vec<char>) -> (r: Vec<char>)
    ensures
        r@ == strip(word@, outside_figure()),
{
    let mut marks: Vec<bool> = Vec::new();
    let mut i: usize = 0;
    while i < word.len()
        invariant
            i <= word@.len(),
            marks@.len() == i,
            forall|k: int| 0 <= k < i ==> #[trigger] marks@[k] == outside_figure()(word@[k]),
        decreases word@.len() - i,
    {
        let c = word[i];
        marks.push(!digit(c) && c != ',' && c != '.' && c != '%');
        i = i + 1;
    }
    strip_marked(word, &marks, Ghost(outside_figure()))
}

fn figure_chars(value: &str) -> (r: Vec<Vec<char>>)
    ensures
        texts(r@) == figures(value@),
{
    let chars = chars_of(value);
    let parts = words_of(&chars);
    let ghost model = texts(parts@);
    let mut out: Vec<Vec<char>> = Vec::new();
    let mut i: usize = 0;
    proof {
        assert(texts(out@) =~= figures_in(model.take(0)));
    }
    while i < parts.len()
        invariant
            i <= parts@.len(),
            model == texts(parts@),
            texts(out@) == figures_in(model.take(i as int)),
        decreases parts@.len() - i,
    {
        proof {
            let next = model.take(i as int + 1);
            assert(next.drop_last() =~= model.take(i as int));
            assert(next.last() == parts@[i as int]@);
        }
        let core = strip_figure(&parts[i]);
        if any_digit(&core) {
            let ghost before = out@;
            let ghost item = core@;
            out.push(core);
            proof {
                assert(texts(out@) =~= texts(before).push(item));
            }
        }
        i = i + 1;
    }
    proof {
        assert(model.take(parts@.len() as int) =~= model);
    }
    out
}

/// The figures of a text.
pub fn numeric_tokens(value: &str) -> (r: Vec<String>)
    ensures
        crate::text::strings(r@) == figures(value@),
{
    let found = figure_chars(value);
    let mut out: Vec<String> = Vec::new();
    let mut i: usize = 0;
    while i < found.len()
        invariant
            i <= found@.len(),
            out@.len() == i,
            forall|k: int| 0 <= k < i ==> (#[trigger] out@[k])@ == found@[k]@,
        decreases found@.len() - i,
    {
        out.push(string_of(&found[i]));
        i = i + 1;
    }
    proof {
        assert(crate::text::strings(out@) =~= texts(found@));
    }
    out
}

/// Four digits that denote a year of the last or this century.
pub open spec fn is_year(digits: Seq<char>) -> bool {
    digits.len() == 4 && 1900 <= digits_value(digits) <= 2100
}

fn year_digits(digits: &Vec<char>) -> (r: bool)
    requires
        crate::text::all_digits(digits@),
    ensures
        r == is_year(digits@),
{
    if digits.len() != 4 {
        return false;
    }
    match parse_unsigned(digits, 9999) {
        Some(v) => 1900 <= v && v <= 2100,
        None => false,
    }
}

/// The digits of a text are digits.
pub proof fn lemma_digits_are_digits(s: Seq<char>)
    ensures
        crate::text::all_digits(digits_of(s)),
    decreases s.len(),
{
    if s.len() > 0 {
        lemma_digits_are_digits(s.drop_last());
    }
}

pub fn is_year_text(s: &Vec<char>) -> (r: bool)
    ensures
        r == is_year(digits_of(s@)),
{
    let digits = only_digits(s);
    proof {
        lemma_digits_are_digits(s@);
    }
    year_digits(&digits)
}

/// The figures that are no years.
pub open spec fn non_years(list: Seq<Seq<char>>) -> Seq<Seq<char>>
    decreases list.len(),
{
    if list.len() == 0 {
        list
    } else if is_year(digits_of(list.last())) {
        non_years(list.drop_last())
    } else {
        non_years(list.drop_last()).push(list.last())
    }
}

/// The figure of a text with exactly one that is no year.
pub open spec fn sole_figure(value: Seq<char>) -> Option<Seq<char>> {
    let found = non_years(figures(value));
    if found.len() == 1 {
        Some(found[0])
    } else {
        None
    }
}

fn sole_figure_chars(value: &str) -> (r: Option<Vec<char>>)
    ensures
        match r {
            Some(v) => sole_figure(value@) == Some(v@),
            None => sole_figure(value@) is None,
        },
{
    let list = figure_chars(value);
    let ghost model = texts(list@);
    let mut kept: Vec<Vec<char>> = Vec::new();
    let mut i: usize = 0;
    proof {
        assert(texts(kept@) =~= non_years(model.take(0)));
    }
    while i < list.len()
        invariant
            i <= list@.len(),
            model == texts(list@),
            texts(kept@) == non_years(model.take(i as int)),
        decreases list@.len() - i,
    {
        proof {
            let next = model.take(i as int + 1);
            assert(next.drop_last() =~= model.take(i as int));
            assert(next.last() == list@[i as int]@);
        }
        if !is_year_text(&list[i]) {
            let ghost before = kept@;
            kept.push(copy_chars(&list[i]));
            proof {
                assert(texts(kept@) =~= texts(before).push(list@[i as int]@));
            }
        }
        i = i + 1;
    }
    proof {
        assert(model.take(list@.len() as int) =~= model);
        assert(texts(kept@).len() == kept@.len());
    }
    if kept.len() == 1 {
        proof {
            assert(texts(kept@)[0] == kept@[0]@);
        }
        Some(copy_chars(&kept[0]))
    } else {
        None
    }
}

pub fn single_non_year_number(value: &str) -> (r: Option<String>)
    ensures
        match r {
            Some(v) => sole_figure(value@) == Some(v@),
            None => sole_figure(value@) is None,
        },
{
    match sole_figure_chars(value) {
        Some(v) => Some(string_of(&v)),
        None => None,
    }
}

/// The year that a figure denotes, apart from separators.
pub open spec fn figure_year(token: Seq<char>) -> Option<nat> {
    match number_of(without_char(without_char(token, ','), '.')) {
        Some(v) => if 1900 <= v <= 2100 {
            Some(v)
        } else {
            None
        },
        None => None,
    }
}

pub open spec fn years_of(list: Seq<Seq<char>>) -> Seq<nat>
    decreases list.len(),
{
    if list.len() == 0 {
        Seq::empty()
    } else {
        match figure_year(list.last()) {
            Some(year) => years_of(list.drop_last()).push(year),
            None => years_of(list.drop_last()),
        }
    }
}

/// The year of a text that names exactly one.
pub open spec fn sole_year(value: Seq<char>) -> Option<nat> {
    let found = years_of(figures(value));
    if found.len() == 1 {
        Some(found[0])
    } else {
        None
    }
}

fn year_of(token: &Vec<char>) -> (r: Option<u64>)
    ensures
        match r {
            Some(v) => figure_year(token@) == Some(v as nat),
            None => figure_year(token@) is None,
        },
{
    let without_comma = drop_char(token, ',');
    let plain = drop_char(&without_comma, '.');
    match parse_number(&plain, 2100) {
        Some(v) => if v >= 1900 {
            Some(v)
        } else {
            None
        },
        None => None,
    }
}

fn sole_year_of(value: &str) -> (r: Option<u64>)
    ensures
        match r {
            Some(v) => sole_year(value@) == Some(v as nat),
            None => sole_year(value@) is None,
        },
{
    let list = figure_chars(value);
    let ghost model = texts(list@);
    let mut years: Vec<u64> = Vec::new();
    let mut i: usize = 0;
    let ghost mut seen: Seq<nat> = Seq::empty();
    proof {
        assert(seen =~= years_of(model.take(0)));
    }
    while i < list.len()
        invariant
            i <= list@.len(),
            model == texts(list@),
            seen == years_of(model.take(i as int)),
            years@.len() == seen.len(),
            forall|k: int| 0 <= k < seen.len() ==> #[trigger] years@[k] == seen[k],
        decreases list@.len() - i,
    {
        proof {
            let next = model.take(i as int + 1);
            assert(next.drop_last() =~= model.take(i as int));
            assert(next.last() == list@[i as int]@);
        }
        if let Some(year) = year_of(&list[i]) {
            years.push(year);
            proof {
                seen = seen.push(year as nat);
            }
        }
        i = i + 1;
    }
    proof {
        assert(model.take(list@.len() as int) =~= model);
    }
    if years.len() == 1 {
        proof {
            assert(years@[0] == seen[0]);
        }
        Some(years[0])
    } else {
        None
    }
}

pub fn extract_single_year(value: &str) -> (r: Option<String>)
    ensures
        match r {
            Some(v) => sole_year(value@) is Some && v@ == decimal(sole_year(value@)->0),
            None => sole_year(value@) is None,
        },
{
    match sole_year_of(value) {
        Some(year) => {
            let digits = decimal_of(year);
            Some(string_of(&digits))
        },
        None => None,
    }
}

/// One year, or at least six digits with a date separator.
pub open spec fn names_date(value: Seq<char>) -> bool {
    ||| sole_year(value) is Some
    ||| ((has_char(value, '-') || has_char(value, '/') || has_char(value, '.')) && digits_of(
        value,
    ).len() >= 6)
}

pub fn contains_year_or_explicit_date(value: &str) -> (r: bool)
    ensures
        r == names_date(value@),
{
    if sole_year_of(value).is_some() {
        return true;
    }
    let chars = chars_of(value);
    let digits = only_digits(&chars);
    (contains_char(&chars, '-') || contains_char(&chars, '/') || contains_char(&chars, '.'))
        && digits.len() >= 6
}

/// A scope that makes a figure comparable.
pub open spec fn scope_terms() -> Seq<&'static str> {
    seq![
        "city proper",
        "municipal",
        "metropolitan",
        "urban area",
        "census",
        "estimate",
        "official",
        "summit",
        "above sea level",
        "geoid",
        "measured",
    ]
}

pub open spec fn has_scope(label: Seq<char>) -> bool {
    contains_any(ascii_lowercase(label), scope_terms())
}

pub fn numeric_label_has_scope(label: &str) -> (r: bool)
    ensures
        r == has_scope(label@),
{
    let chars = chars_of(label);
    let lowered = lower_ascii(&chars);
    let terms = [
        "city proper",
        "municipal",
        "metropolitan",
        "urban area",
        "census",
        "estimate",
        "official",
        "summit",
        "above sea level",
        "geoid",
        "measured",
    ];
    proof {
        assert(terms@ =~= scope_terms());
    }
    any_term(&lowered, &terms)
}

/// A quantity that a labelled value may state.
pub open spec fn quantity_terms() -> Seq<&'static str> {
    seq!["population", "height", "elevation", "rate", "percent", "number"]
}

pub open spec fn claim_text(
    context: Seq<char>,
    label: Seq<char>,
    figure: Seq<char>,
    date: Seq<char>,
) -> Seq<char> {
    context + " "@ + label + " was "@ + figure + " in "@ + date + "."@
}

/// The claim of a labelled value: a scoped quantity with one figure and one year.
pub open spec fn value_claim(context: Seq<char>, label: Seq<char>, value: Seq<char>) -> Option<
    Seq<char>,
> {
    if contains_any(ascii_lowercase(label), quantity_terms()) && has_scope(label) && sole_figure(
        value,
    ) is Some && sole_year(value) is Some {
        Some(claim_text(context, label, sole_figure(value)->0, decimal(sole_year(value)->0)))
    } else {
        None
    }
}

fn build_claim(context: &str, label: &str, figure: &Vec<char>, date: &Vec<char>) -> (r: String)
    ensures
        r@ == claim_text(context@, label@, figure@, date@),
{
    let mut out: Vec<char> = chars_of(context);
    push_text(&mut out, " ");
    push_text(&mut out, label);
    push_text(&mut out, " was ");
    push_all(&mut out, figure);
    push_text(&mut out, " in ");
    push_all(&mut out, date);
    push_text(&mut out, ".");
    proof {
        assert(out@ =~= claim_text(context@, label@, figure@, date@));
    }
    string_of(&out)
}

pub fn labelled_value_claim(context: &str, label: &str, value: &str) -> (r: Option<String>)
    ensures
        match r {
            Some(c) => value_claim(context@, label@, value@) == Some(c@),
            None => value_claim(context@, label@, value@) is None,
        },
{
    let chars = chars_of(label);
    let lowered = lower_ascii(&chars);
    let terms = ["population", "height", "elevation", "rate", "percent", "number"];
    proof {
        assert(terms@ =~= quantity_terms());
    }
    if !any_term(&lowered, &terms) || !numeric_label_has_scope(label) {
        return None;
    }
    match (sole_figure_chars(value), sole_year_of(value)) {
        (Some(figure), Some(year)) => {
            let date = decimal_of(year);
            Some(build_claim(context, label, &figure, &date))
        },
        _ => None,
    }
}

/// Column headings under which figures, definitions and dates stand.
pub open spec fn figure_headings() -> Seq<&'static str> {
    seq!["figure", "value", "population", "height", "elevation", "rate", "percent", "number"]
}

pub open spec fn definition_headings() -> Seq<&'static str> {
    seq!["definition", "scope", "type", "area"]
}

pub open spec fn date_headings() -> Seq<&'static str> {
    seq!["date", "year", "as of", "reference"]
}

/// The first heading with one of the terms.
pub open spec fn heading_index(headers: Seq<Seq<char>>, terms: Seq<&str>) -> Option<nat>
    decreases headers.len(),
{
    if headers.len() == 0 {
        None
    } else {
        match heading_index(headers.drop_last(), terms) {
            Some(i) => Some(i),
            None => if contains_any(ascii_lowercase(headers.last()), terms) {
                Some((headers.len() - 1) as nat)
            } else {
                None
            },
        }
    }
}

fn find_heading(headers: &Vec<Vec<char>>, terms: &[&str]) -> (r: Option<usize>)
    ensures
        match r {
            Some(i) => heading_index(texts(headers@), terms@) == Some(i as nat) && i < headers@.len(),
            None => heading_index(texts(headers@), terms@) is None,
        },
{
    let ghost model = texts(headers@);
    let mut found: Option<usize> = None;
    let mut i: usize = 0;
    proof {
        assert(model.take(0) =~= Seq::empty());
    }
    while i < headers.len()
        invariant
            i <= headers@.len(),
            model == texts(headers@),
            match found {
                Some(k) => heading_index(model.take(i as int), terms@) == Some(k as nat) && k < i,
                None => heading_index(model.take(i as int), terms@) is None,
            },
        decreases headers@.len() - i,
    {
        proof {
            let next = model.take(i as int + 1);
            assert(next.drop_last() =~= model.take(i as int));
            assert(next.last() == headers@[i as int]@);
        }
        if found.is_none() {
            let lowered = lower_ascii(&headers[i]);
            if any_term(&lowered, terms) {
                found = Some(i);
            }
        }
        i = i + 1;
    }
    proof {
        assert(model.take(headers@.len() as int) =~= model);
    }
    found
}

/// The claim of a table row: one figure, its definition, and its date.
pub open spec fn row_claim(
    context: Seq<char>,
    headers: Seq<Seq<char>>,
    values: Seq<Seq<char>>,
) -> Option<Seq<char>> {
    let figure_at = heading_index(headers, figure_headings());
    let definition_at = heading_index(headers, definition_headings());
    let date_at = heading_index(headers, date_headings());
    if figure_at is Some && definition_at is Some && date_at is Some && figure_at->0 < values.len()
        && definition_at->0 < values.len() && date_at->0 < values.len() {
        let figure = sole_figure(values[figure_at->0 as int]);
        let definition = values[definition_at->0 as int];
        let date = values[date_at->0 as int];
        if figure is Some && trim(definition).len() > 0 && names_date(date) {
            Some(claim_text(context, definition, figure->0, trim(date)))
        } else {
            None
        }
    } else {
        None
    }
}

pub fn structured_cells_to_claim(
    context: &str,
    headers: &Vec<Vec<char>>,
    values: &Vec<Vec<char>>,
) -> (r: Option<String>)
    ensures
        match r {
            Some(c) => row_claim(context@, texts(headers@), texts(values@)) == Some(c@),
            None => row_claim(context@, texts(headers@), texts(values@)) is None,
        },
{
    let figure_terms = [
        "figure", "value", "population", "height", "elevation", "rate", "percent", "number",
    ];
    let definition_terms = ["definition", "scope", "type", "area"];
    let date_terms = ["date", "year", "as of", "reference"];
    proof {
        assert(figure_terms@ =~= figure_headings());
        assert(definition_terms@ =~= definition_headings());
        assert(date_terms@ =~= date_headings());
        assert(texts(values@).len() == values@.len());
        assert(forall|i: int| 0 <= i < values@.len() ==> texts(values@)[i] == (#[trigger] values@[i])@);
    }
    match (
        find_heading(headers, &figure_terms),
        find_heading(headers, &definition_terms),
        find_heading(headers, &date_terms),
    ) {
        (Some(f), Some(d), Some(t)) => {
            if f >= values.len() || d >= values.len() || t >= values.len() {
                return None;
            }
            let figure_text = string_of(&values[f]);
            let date_text = string_of(&values[t]);
            let definition_text = string_of(&values[d]);
            let definition_core = trimmed(&values[d]);
            match sole_figure_chars(figure_text.as_str()) {
                Some(figure) => {
                    if definition_core.len() == 0 || !contains_year_or_explicit_date(
                        date_text.as_str(),
                    ) {
                        return None;
                    }
                    let date = trimmed(&values[t]);
                    Some(build_claim(context, definition_text.as_str(), &figure, &date))
                },
                None => None,
            }
        },
        _ => None,
    }
}

/// Without the zeros at the front.
pub open spec fn without_leading_zeros(s: Seq<char>) -> Seq<char>
    decreases s.len(),
{
    if s.len() > 0 && s[0] == '0' {
        without_leading_zeros(s.drop_first())
    } else {
        s
    }
}

/// Without the zeros at the back.
pub open spec fn without_trailing_zeros(s: Seq<char>) -> Seq<char>
    decreases s.len(),
{
    if s.len() > 0 && s.last() == '0' {
        without_trailing_zeros(s.drop_last())
    } else {
        s
    }
}

/// The position of the first point, the length where there is none.
pub open spec fn point_index(s: Seq<char>) -> int
    decreases s.len(),
{
    if s.len() == 0 {
        0
    } else if s[0] == '.' {
        0
    } else {
        1 + point_index(s.drop_first())
    }
}

/// A number without thousands separators and superfluous zeros.
pub open spec fn plain_number(value: Seq<char>) -> Seq<char> {
    let digits = without_char(value, ',');
    let point = point_index(digits);
    let whole = without_leading_zeros(digits.take(point));
    let integer = if whole.len() == 0 {
        "0"@
    } else {
        whole
    };
    let fraction = if point < digits.len() {
        without_trailing_zeros(digits.skip(point + 1))
    } else {
        Seq::empty()
    };
    if fraction.len() == 0 {
        integer
    } else {
        integer + "."@ + fraction
    }
}

fn find_point(s: &Vec<char>) -> (r: usize)
    ensures
        r == point_index(s@),
        r <= s@.len(),
{
    let mut i: usize = 0;
    proof {
        assert(s@.skip(0) =~= s@);
    }
    while i < s.len()
        invariant
            i <= s@.len(),
            point_index(s@) == i + point_index(s@.skip(i as int)),
        decreases s@.len() - i,
    {
        if s[i] == '.' {
            return i;
        }
        proof {
            assert(s@.skip(i as int).drop_first() =~= s@.skip(i as int + 1));
        }
        i = i + 1;
    }
    i
}

fn drop_leading_zeros(s: &Vec<char>) -> (r: Vec<char>)
    ensures
        r@ == without_leading_zeros(s@),
{
    let mut i: usize = 0;
    proof {
        assert(s@.skip(0) =~= s@);
    }
    while i < s.len() && s[i] == '0'
        invariant
            i <= s@.len(),
            without_leading_zeros(s@) == without_leading_zeros(s@.skip(i as int)),
        decreases s@.len() - i,
    {
        proof {
            assert(s@.skip(i as int).drop_first() =~= s@.skip(i as int + 1));
        }
        i = i + 1;
    }
    proof {
        assert(s@.skip(i as int) =~= s@.subrange(i as int, s@.len() as int));
    }
    slice(s, i, s.len())
}

fn drop_trailing_zeros(s: &Vec<char>) -> (r: Vec<char>)
    ensures
        r@ == without_trailing_zeros(s@),
{
    let mut j: usize = s.len();
    proof {
        assert(s@.take(j as int) =~= s@);
    }
    while j > 0 && s[j - 1] == '0'
        invariant
            j <= s@.len(),
            without_trailing_zeros(s@) == without_trailing_zeros(s@.take(j as int)),
        decreases j,
    {
        proof {
            assert(s@.take(j as int).drop_last() =~= s@.take(j as int - 1));
            assert(s@.take(j as int).last() == s@[j as int - 1]);
        }
        j = j - 1;
    }
    proof {
        if j > 0 {
            assert(s@.take(j as int).last() == s@[j as int - 1]);
        }
        assert(s@.take(j as int) =~= s@.subrange(0, j as int));
    }
    slice(s, 0, j)
}

pub fn normalize_numeric_claim(value: &str) -> (r: String)
    ensures
        r@ == plain_number(value@),
{
    let chars = chars_of(value);
    let digits = drop_char(&chars, ',');
    let point = find_point(&digits);
    let head = slice(&digits, 0, point);
    proof {
        assert(head@ =~= digits@.take(point as int));
    }
    let whole = drop_leading_zeros(&head);
    let mut out: Vec<char> = Vec::new();
    if whole.len() == 0 {
        push_text(&mut out, "0");
    } else {
        push_all(&mut out, &whole);
    }
    if point < digits.len() {
        let tail = slice(&digits, point + 1, digits.len());
        proof {
            assert(tail@ =~= digits@.skip(point as int + 1));
        }
        let fraction = drop_trailing_zeros(&tail);
        if fraction.len() > 0 {
            push_text(&mut out, ".");
            push_all(&mut out, &fraction);
        }
    }
    proof {
        assert(out@ =~= plain_number(value@));
    }
    string_of(&out)
}

pub open spec fn zeros(n: nat) -> Seq<char> {
    Seq::new(n, |i: int| '0')
}

proof fn lemma_without_char(s: Seq<char>, c: char)
    ensures
        forall|i: int| 0 <= i < without_char(s, c).len() ==> #[trigger] without_char(s, c)[i] != c,
        forall|d: char| d != c ==> (#[trigger] has_char(without_char(s, c), d) <==> has_char(s, d)),
        !has_char(s, c) ==> without_char(s, c) == s,
    decreases s.len(),
{
    if s.len() > 0 {
        let rest = s.drop_last();
        lemma_without_char(rest, c);
        assert forall|i: int| 0 <= i < without_char(s, c).len() implies #[trigger] without_char(
            s,
            c,
        )[i] != c by {
            if i < without_char(rest, c).len() {
                assert(without_char(s, c)[i] == without_char(rest, c)[i]);
            }
        }
        assert forall|d: char| d != c implies (#[trigger] has_char(without_char(s, c), d)
            <==> has_char(s, d)) by {
            let out = without_char(s, c);
            let before = without_char(rest, c);
            assert(has_char(before, d) <==> has_char(rest, d));
            if has_char(s, d) {
                let i = choose|i: int| 0 <= i < s.len() && #[trigger] s[i] == d;
                if i < rest.len() {
                    assert(rest[i] == d);
                    let k = choose|k: int| 0 <= k < before.len() && #[trigger] before[k] == d;
                    assert(out[k] == d);
                } else {
                    assert(out[before.len() as int] == d);
                }
            }
            if has_char(out, d) {
                let i = choose|i: int| 0 <= i < out.len() && #[trigger] out[i] == d;
                if i < before.len() {
                    assert(before[i] == d);
                    let k = choose|k: int| 0 <= k < rest.len() && #[trigger] rest[k] == d;
                    assert(s[k] == d);
                } else {
                    assert(s[s.len() - 1] == d);
                }
            }
        }
        if !has_char(s, c) {
            assert(s[s.len() - 1] != c);
            assert(!has_char(rest, c)) by {
                if has_char(rest, c) {
                    let k = choose|k: int| 0 <= k < rest.len() && #[trigger] rest[k] == c;
                    assert(s[k] == c);
                }
            }
            assert(rest.push(s.last()) =~= s);
        }
    }
}

proof fn lemma_without_char_concat(a: Seq<char>, b: Seq<char>, c: char)
    ensures
        without_char(a + b, c) == without_char(a, c) + without_char(b, c),
    decreases b.len(),
{
    if b.len() == 0 {
        assert(a + b =~= a);
        assert(without_char(a, c) + without_char(b, c) =~= without_char(a, c));
    } else {
        lemma_without_char_concat(a, b.drop_last(), c);
        assert((a + b).drop_last() =~= a + b.drop_last());
        let x = without_char(a, c);
        let y = without_char(b.drop_last(), c);
        assert(x + y.push(b.last()) =~= (x + y).push(b.last()));
    }
}

proof fn lemma_point(s: Seq<char>)
    ensures
        0 <= point_index(s) <= s.len(),
        forall|i: int| 0 <= i < point_index(s) ==> #[trigger] s[i] != '.',
        point_index(s) < s.len() ==> s[point_index(s)] == '.',
        point_index(s) < s.len() <==> has_char(s, '.'),
    decreases s.len(),
{
    if s.len() > 0 && s[0] != '.' {
        let rest = s.drop_first();
        lemma_point(rest);
        assert forall|i: int| 0 <= i < point_index(s) implies #[trigger] s[i] != '.' by {
            if i > 0 {
                assert(s[i] == rest[i - 1]);
            }
        }
        if point_index(s) < s.len() {
            assert(s[point_index(s)] == rest[point_index(rest)]);
        }
        if has_char(s, '.') {
            let k = choose|k: int| 0 <= k < s.len() && #[trigger] s[k] == '.';
            assert(rest[k - 1] == '.');
        }
    }
}

/// The first point is where no point stands before it.
proof fn lemma_point_at(s: Seq<char>, p: int)
    requires
        0 <= p <= s.len(),
        forall|i: int| 0 <= i < p ==> #[trigger] s[i] != '.',
        p < s.len() ==> s[p] == '.',
    ensures
        point_index(s) == p,
{
    lemma_point(s);
}

proof fn lemma_leading(n: nat, s: Seq<char>)
    ensures
        without_leading_zeros(zeros(n) + s) == without_leading_zeros(s),
    decreases n,
{
    if n == 0 {
        assert(zeros(0) + s =~= s);
    } else {
        lemma_leading((n - 1) as nat, s);
        assert((zeros(n) + s).drop_first() =~= zeros((n - 1) as nat) + s);
    }
}

proof fn lemma_trailing(s: Seq<char>, n: nat)
    ensures
        without_trailing_zeros(s + zeros(n)) == without_trailing_zeros(s),
    decreases n,
{
    if n == 0 {
        assert(s + zeros(0) =~= s);
    } else {
        lemma_trailing(s, (n - 1) as nat);
        assert((s + zeros(n)).drop_last() =~= s + zeros((n - 1) as nat));
    }
}

proof fn lemma_stripped(s: Seq<char>)
    ensures
        ({
            let front = without_leading_zeros(s);
            let back = without_trailing_zeros(s);
            &&& without_leading_zeros(front) == front
            &&& without_trailing_zeros(back) == back
            &&& forall|d: char| has_char(front, d) ==> #[trigger] has_char(s, d)
            &&& forall|d: char| has_char(back, d) ==> #[trigger] has_char(s, d)
        }),
    decreases s.len(),
{
    if s.len() > 0 {
        lemma_stripped(s.drop_first());
        lemma_stripped(s.drop_last());
        let front = without_leading_zeros(s);
        let back = without_trailing_zeros(s);
        assert forall|d: char| has_char(front, d) implies #[trigger] has_char(s, d) by {
            if s[0] == '0' {
                assert(has_char(s.drop_first(), d));
                let k = choose|k: int|
                    0 <= k < s.drop_first().len() && #[trigger] s.drop_first()[k] == d;
                assert(s[k + 1] == d);
            }
        }
        assert forall|d: char| has_char(back, d) implies #[trigger] has_char(s, d) by {
            if s.last() == '0' {
                assert(has_char(s.drop_last(), d));
                let k = choose|k: int|
                    0 <= k < s.drop_last().len() && #[trigger] s.drop_last()[k] == d;
                assert(s[k] == d);
            }
        }
    }
}

/// The parts of a number: what stands before its point, without the zeros at the
/// front, and what stands behind it, without those at the back.
spec fn plain_from(whole: Seq<char>, fraction: Seq<char>) -> Seq<char> {
    let integer = if whole.len() == 0 {
        "0"@
    } else {
        whole
    };
    if fraction.len() == 0 {
        integer
    } else {
        integer + "."@ + fraction
    }
}

spec fn whole_part(digits: Seq<char>) -> Seq<char> {
    without_leading_zeros(digits.take(point_index(digits)))
}

spec fn fraction_part(digits: Seq<char>) -> Seq<char> {
    if point_index(digits) < digits.len() {
        without_trailing_zeros(digits.skip(point_index(digits) + 1))
    } else {
        Seq::empty()
    }
}

proof fn lemma_no_char(s: Seq<char>, part: Seq<char>, a: int, c: char)
    requires
        !has_char(s, c),
        0 <= a <= a + part.len() <= s.len(),
        part == s.subrange(a, a + part.len()),
    ensures
        !has_char(part, c),
{
    if has_char(part, c) {
        let k = choose|k: int| 0 <= k < part.len() && #[trigger] part[k] == c;
        assert(s[a + k] == c);
    }
}

/// A numeral without superfluous zeros keeps its digits, before and behind the point;
/// thousands separators are all that it loses.
pub proof fn numerals_keep_their_digits(whole: Seq<char>, fraction: Seq<char>, value: Seq<char>)
    requires
        whole.len() > 0,
        whole[0] != '0',
        forall|i: int| 0 <= i < whole.len() ==> #[trigger] whole[i] != ',' && whole[i] != '.',
        fraction.len() > 0,
        fraction.last() != '0',
        forall|i: int| 0 <= i < fraction.len() ==> #[trigger] fraction[i] != ',',
    ensures
        plain_number(whole) == whole,
        plain_number(whole + "."@ + fraction) == whole + "."@ + fraction,
        plain_number(value) == plain_number(without_char(value, ',')),
{
    reveal_strlit(".");
    lemma_without_char(whole, ',');
    lemma_point_at(whole, whole.len() as int);
    assert(whole.take(whole.len() as int) =~= whole);
    let full = whole + "."@ + fraction;
    assert(!has_char(full, ',')) by {
        assert forall|i: int| 0 <= i < full.len() implies #[trigger] full[i] != ',' by {
            if i < whole.len() {
                assert(full[i] == whole[i]);
            } else if i > whole.len() {
                assert(full[i] == fraction[i - whole.len() - 1]);
            }
        }
    }
    lemma_without_char(full, ',');
    assert forall|i: int| 0 <= i < whole.len() implies #[trigger] full[i] != '.' by {
        assert(full[i] == whole[i]);
    }
    lemma_point_at(full, whole.len() as int);
    assert(full.take(whole.len() as int) =~= whole);
    assert(full.skip(whole.len() as int + 1) =~= fraction);
    let bare = without_char(value, ',');
    lemma_without_char(value, ',');
    assert(!has_char(bare, ','));
    lemma_without_char(bare, ',');
}

/// A number in its plain form has no thousands separators, and taking its plain
/// form again changes nothing.
pub proof fn plain_numbers_stay(value: Seq<char>)
    ensures
        !has_char(plain_number(value), ','),
        plain_number(plain_number(value)) == plain_number(value),
{
    reveal_strlit("0");
    reveal_strlit(".");
    let digits = without_char(value, ',');
    let p = point_index(digits);
    lemma_without_char(value, ',');
    lemma_point(digits);
    assert(!has_char(digits, ','));
    let head = digits.take(p);
    lemma_no_char(digits, head, 0, ',');
    lemma_stripped(head);
    let whole = whole_part(digits);
    let fraction = fraction_part(digits);
    let out = plain_number(value);
    assert(out == plain_from(whole, fraction));
    let integer = if whole.len() == 0 {
        "0"@
    } else {
        whole
    };
    assert(!has_char(head, '.')) by {
        if has_char(head, '.') {
            let k = choose|k: int| 0 <= k < head.len() && #[trigger] head[k] == '.';
            assert(digits[k] == '.');
        }
    }
    assert(!has_char(whole, ',') && !has_char(whole, '.')) by {
        assert(has_char(whole, ',') ==> has_char(head, ','));
        assert(has_char(whole, '.') ==> has_char(head, '.'));
    }
    assert(!has_char(integer, ',') && !has_char(integer, '.'));
    if p < digits.len() {
        let tail = digits.skip(p + 1);
        lemma_no_char(digits, tail, p + 1, ',');
        lemma_stripped(tail);
        assert(has_char(fraction, ',') ==> has_char(tail, ','));
    }
    assert(!has_char(fraction, ','));
    assert(!has_char(out, ',')) by {
        if has_char(out, ',') {
            let k = choose|k: int| 0 <= k < out.len() && #[trigger] out[k] == ',';
            if k < integer.len() {
                assert(integer[k] == ',');
            } else if k > integer.len() {
                assert(fraction[k - integer.len() - 1] == ',');
            }
        }
    }
    lemma_without_char(out, ',');
    assert(without_char(out, ',') == out);
    assert forall|i: int| 0 <= i < integer.len() implies #[trigger] out[i] != '.' by {
        assert(integer[i] == out[i]);
    }
    lemma_point_at(out, integer.len() as int);
    assert(out.take(integer.len() as int) =~= integer);
    if whole.len() == 0 {
        assert(integer.drop_first() =~= Seq::<char>::empty());
        assert(without_leading_zeros(integer.drop_first()) =~= Seq::<char>::empty());
        assert(without_leading_zeros(integer).len() == 0);
    }
    if fraction.len() > 0 {
        assert(out.skip(integer.len() as int + 1) =~= fraction);
    }
}

/// Thousands separators, zeros in front and zeros behind the point do not matter,
/// nor does a point with nothing but zeros behind it: numerals of one number have
/// one form.
pub proof fn equal_numerals_have_one_form(value: Seq<char>, n: nat)
    ensures
        plain_number(without_char(value, ',')) == plain_number(value),
        plain_number(zeros(n) + value) == plain_number(value),
        has_char(value, '.') ==> plain_number(value + zeros(n)) == plain_number(value),
        !has_char(value, '.') ==> plain_number(value + "."@ + zeros(n)) == plain_number(value),
{
    reveal_strlit(".");
    let digits = without_char(value, ',');
    let p = point_index(digits);
    let pad = zeros(n);
    lemma_without_char(value, ',');
    lemma_without_char(digits, ',');
    lemma_point(digits);
    assert(!has_char(pad, ','));
    lemma_without_char(pad, ',');
    assert(has_char(digits, '.') <==> has_char(value, '.'));
    assert(without_char(digits, ',') == digits) by {
        assert(!has_char(digits, ','));
    }
    // zeros in front
    lemma_without_char_concat(pad, value, ',');
    let front = pad + digits;
    assert forall|i: int| 0 <= i < n + p implies #[trigger] front[i] != '.' by {
        if i >= n {
            assert(front[i] == digits[i - n]);
        }
    }
    lemma_point_at(front, n + p);
    assert(front.take(n + p) =~= pad + digits.take(p));
    lemma_leading(n, digits.take(p));
    if p < digits.len() {
        assert(front.skip(n + p + 1) =~= digits.skip(p + 1));
    }
    // zeros behind the point
    lemma_without_char_concat(value, pad, ',');
    let back = digits + pad;
    if p < digits.len() {
        assert forall|i: int| 0 <= i < p implies #[trigger] back[i] != '.' by {
            assert(back[i] == digits[i]);
        }
        lemma_point_at(back, p);
        assert(back.take(p) =~= digits.take(p));
        assert(back.skip(p + 1) =~= digits.skip(p + 1) + pad);
        lemma_trailing(digits.skip(p + 1), n);
    } else {
        let point = "."@;
        assert(!has_char(point, ','));
        lemma_without_char(point, ',');
        lemma_without_char_concat(value, point, ',');
        lemma_without_char_concat(value + point, pad, ',');
        let long = digits + point + pad;
        assert forall|i: int| 0 <= i < p implies #[trigger] long[i] != '.' by {
            assert(long[i] == digits[i]);
        }
        lemma_point_at(long, p);
        assert(long.take(p) =~= digits.take(p));
        assert(long.skip(p + 1) =~= Seq::<char>::empty() + pad);
        lemma_trailing(Seq::empty(), n);
        assert(without_trailing_zeros(Seq::<char>::empty()).len() == 0);
    }
}

/// A character inside a written number.
pub open spec fn in_number(c: char) -> bool {
    is_digit(c) || c == ',' || c == '.' || c == '\u{a0}'
}

/// The end of the written number at `i`.
pub open spec fn number_end(s: Seq<char>, i: int) -> int
    decreases s.len() - i,
{
    if 0 <= i < s.len() && in_number(s[i]) {
        number_end(s, i + 1)
    } else {
        i
    }
}

/// The written number between `start` and `end` can be what a question asks
/// for: no citation mark and no year, and of a population at least three digits.
pub open spec fn counts_as_claim(s: Seq<char>, start: int, end: int, population: bool) -> bool {
    let digits = digits_of(s.subrange(start, end));
    &&& !(start > 0 && s[start - 1] == '[' && end < s.len() && s[end] == ']')
    &&& !is_year(digits)
    &&& (!population || digits.len() >= 3)
}

pub proof fn lemma_number_end(s: Seq<char>, i: int)
    requires
        0 <= i <= s.len(),
    ensures
        i <= number_end(s, i) <= s.len(),
        i < s.len() && in_number(s[i]) ==> i < number_end(s, i),
    decreases s.len() - i,
{
    if i < s.len() && in_number(s[i]) {
        lemma_number_end(s, i + 1);
    }
}

/// A number that can be what a question asks for stands at `i` or later.
pub open spec fn claim_number_from(s: Seq<char>, i: int, population: bool) -> bool
    decreases s.len() - i,
{
    if i < 0 || i >= s.len() {
        false
    } else if !is_digit(s[i]) {
        claim_number_from(s, i + 1, population)
    } else {
        let end = number_end(s, i);
        if end <= i || end > s.len() {
            false
        } else {
            counts_as_claim(s, i, end, population) || claim_number_from(s, end, population)
        }
    }
}

pub open spec fn asks_population(query: Seq<char>) -> bool {
    crate::text::contains(ascii_lowercase(query), "population"@)
}

pub fn passage_contains_claim_number(query: &str, passage: &str) -> (r: bool)
    ensures
        r == claim_number_from(passage@, 0, asks_population(query@)),
{
    let query_chars = chars_of(query);
    let lowered = lower_ascii(&query_chars);
    let population = crate::text::has(&lowered, "population");
    let s = chars_of(passage);
    let mut index: usize = 0;
    while index < s.len()
        invariant
            index <= s@.len(),
            s@ == passage@,
            population == asks_population(query@),
            claim_number_from(s@, 0, population) == claim_number_from(
                s@,
                index as int,
                population,
            ),
        decreases s@.len() - index,
    {
        if !digit(s[index]) {
            index = index + 1;
        } else {
            let start: usize = index;
            proof {
                lemma_number_end(s@, start as int);
            }
            while index < s.len() && (digit(s[index]) || s[index] == ',' || s[index] == '.' || s[index]
                == '\u{a0}')
                invariant
                    start <= index <= s@.len(),
                    number_end(s@, start as int) == number_end(s@, index as int),
                decreases s@.len() - index,
            {
                index = index + 1;
            }
            let citation = start > 0 && s[start - 1] == '[' && index < s.len() && s[index] == ']';
            let token = slice(&s, start, index);
            let digits = only_digits(&token);
            if !citation && !is_year_text(&token) && (!population || digits.len() >= 3) {
                return true;
            }
        }
    }
    false
}

} // verus!
