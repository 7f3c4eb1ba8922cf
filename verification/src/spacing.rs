//! Normal forms of text that is made of words: what the runs of a text hold,
//! how they come apart again once they are joined, and which texts are spaced
//! already.

use crate::text::{
    all_ascii, ascii_lower, ascii_lowercase, collapse, is_white_space, join, non_space_marks,
    run_state, runs, words,
};
use vstd::prelude::*;

verus! {

/// The characters of a text that belong to a class.
pub open spec fn class_marks(s: Seq<char>, class: spec_fn(char) -> bool) -> Seq<bool> {
    Seq::new(s.len(), |i: int| class(s[i]))
}

/// The maximal runs of the characters of a class.
pub open spec fn class_runs(s: Seq<char>, class: spec_fn(char) -> bool) -> Seq<Seq<char>> {
    runs(s, class_marks(s, class))
}

pub open spec fn all_in(s: Seq<char>, class: spec_fn(char) -> bool) -> bool {
    forall|i: int| 0 <= i < s.len() ==> class(#[trigger] s[i])
}

pub open spec fn none_in(s: Seq<char>, class: spec_fn(char) -> bool) -> bool {
    forall|i: int| 0 <= i < s.len() ==> !class(#[trigger] s[i])
}

/// Words that are not empty and made of a class.
pub open spec fn are_words(parts: Seq<Seq<char>>, class: spec_fn(char) -> bool) -> bool {
    forall|i: int|
        0 <= i < parts.len() ==> (#[trigger] parts[i]).len() > 0 && all_in(parts[i], class)
}

/// Words of a class with one separator between two, and none at either end.
pub open spec fn is_spaced(s: Seq<char>, class: spec_fn(char) -> bool, sep: char) -> bool {
    &&& forall|i: int| 0 <= i < s.len() ==> class(#[trigger] s[i]) || s[i] == sep
    &&& s.len() > 0 ==> class(s[0]) && class(s.last())
    &&& forall|i: int, j: int|
        0 <= i < s.len() && j == i + 1 && j < s.len() ==> class(#[trigger] s[i]) || class(
            #[trigger] s[j],
        )
}

/// Everything that is not white space.
pub open spec fn visible() -> spec_fn(char) -> bool {
    |c: char| !is_white_space(c)
}

/// The words of a text are its visible runs.
pub proof fn words_are_visible_runs(s: Seq<char>)
    ensures
        words(s) == class_runs(s, visible()),
{
    assert(non_space_marks(s) =~= class_marks(s, visible()));
}

proof fn lemma_state_of_prefix(
    a: Seq<char>,
    s: Seq<char>,
    class: spec_fn(char) -> bool,
    n: int,
)
    requires
        0 <= n <= a.len() <= s.len(),
        s.take(a.len() as int) == a,
    ensures
        run_state(s, class_marks(s, class), n) == run_state(a, class_marks(a, class), n),
    decreases n,
{
    if n > 0 {
        lemma_state_of_prefix(a, s, class, n - 1);
        assert(a[n - 1] == s.take(a.len() as int)[n - 1]);
        assert(class_marks(s, class)[n - 1] == class_marks(a, class)[n - 1]);
    }
}

/// Behind a separator the runs start anew.
proof fn lemma_state_behind(
    a: Seq<char>,
    gap: Seq<char>,
    b: Seq<char>,
    class: spec_fn(char) -> bool,
    n: int,
)
    requires
        gap.len() > 0,
        none_in(gap, class),
        0 < n <= gap.len() + b.len(),
    ensures
        ({
            let s = a + gap + b;
            let state = run_state(s, class_marks(s, class), a.len() + n);
            let later = run_state(b, class_marks(b, class), n - gap.len());
            state.0 == class_runs(a, class) + later.0 && state.1 == later.1
        }),
    decreases n,
{
    let s = a + gap + b;
    let marks = class_marks(s, class);
    let m = a.len() + n;
    let done = class_runs(a, class);
    if n <= gap.len() {
        assert(s[m - 1] == gap[n - 1]);
        assert(!marks[m - 1]);
        if n == 1 {
            assert(s.take(a.len() as int) =~= a);
            lemma_state_of_prefix(a, s, class, a.len() as int);
        } else {
            lemma_state_behind(a, gap, b, class, n - 1);
        }
        assert(done + Seq::<Seq<char>>::empty() =~= done);
    } else {
        lemma_state_behind(a, gap, b, class, n - 1);
        let k = n - gap.len();
        assert(s[m - 1] == b[k - 1]);
        assert(marks[m - 1] == class_marks(b, class)[k - 1]);
        let before = run_state(b, class_marks(b, class), k - 1);
        if !marks[m - 1] && before.1.len() > 0 {
            assert((done + before.0).push(before.1) =~= done + before.0.push(before.1));
        }
    }
}

/// Where a text is parted by separators, its runs are those of the parts,
/// whatever the separators are.
pub proof fn runs_of_parts(
    a: Seq<char>,
    gap: Seq<char>,
    b: Seq<char>,
    class: spec_fn(char) -> bool,
)
    requires
        gap.len() > 0,
        none_in(gap, class),
    ensures
        class_runs(a + gap + b, class) == class_runs(a, class) + class_runs(b, class),
{
    let n = gap.len() + b.len();
    lemma_state_behind(a, gap, b, class, n as int);
    assert((a + gap + b).len() == a.len() + n);
    let later = run_state(b, class_marks(b, class), b.len() as int);
    if later.1.len() > 0 {
        assert((class_runs(a, class) + later.0).push(later.1) =~= class_runs(a, class)
            + later.0.push(later.1));
    }
}

proof fn lemma_state_of_word(s: Seq<char>, class: spec_fn(char) -> bool, n: int)
    requires
        all_in(s, class),
        0 <= n <= s.len(),
    ensures
        run_state(s, class_marks(s, class), n) == (Seq::<Seq<char>>::empty(), s.take(n)),
    decreases n,
{
    if n > 0 {
        lemma_state_of_word(s, class, n - 1);
        assert(class(s[n - 1]));
        assert(s.take(n - 1).push(s[n - 1]) =~= s.take(n));
    } else {
        assert(s.take(0) =~= Seq::<char>::empty());
    }
}

/// A word of the class is its only run.
pub proof fn runs_of_word(s: Seq<char>, class: spec_fn(char) -> bool)
    requires
        all_in(s, class),
    ensures
        s.len() > 0 ==> class_runs(s, class) == seq![s],
        s.len() == 0 ==> class_runs(s, class) == Seq::<Seq<char>>::empty(),
{
    lemma_state_of_word(s, class, s.len() as int);
    assert(s.take(s.len() as int) =~= s);
    assert(Seq::<Seq<char>>::empty().push(s) =~= seq![s]);
}

proof fn lemma_state_words(
    s: Seq<char>,
    class: spec_fn(char) -> bool,
    also: spec_fn(char) -> bool,
    n: int,
)
    requires
        0 <= n <= s.len(),
        all_in(s, also),
    ensures
        are_words(run_state(s, class_marks(s, class), n).0, class),
        are_words(run_state(s, class_marks(s, class), n).0, also),
        all_in(run_state(s, class_marks(s, class), n).1, class),
        all_in(run_state(s, class_marks(s, class), n).1, also),
    decreases n,
{
    if n > 0 {
        lemma_state_words(s, class, also, n - 1);
        assert(also(s[n - 1]));
    }
}

/// The runs are words of the class, made of what the text is made of.
pub proof fn runs_are_words(
    s: Seq<char>,
    class: spec_fn(char) -> bool,
    also: spec_fn(char) -> bool,
)
    requires
        all_in(s, also),
    ensures
        are_words(class_runs(s, class), class),
        are_words(class_runs(s, class), also),
{
    lemma_state_words(s, class, also, s.len() as int);
}

/// Joined words are spaced.
pub proof fn joined_words_are_spaced(
    parts: Seq<Seq<char>>,
    class: spec_fn(char) -> bool,
    sep: char,
)
    requires
        are_words(parts, class),
    ensures
        is_spaced(join(parts, seq![sep]), class, sep),
        parts.len() > 0 ==> join(parts, seq![sep]).len() > 0,
    decreases parts.len(),
{
    let gap = seq![sep];
    if parts.len() == 1 {
        assert(all_in(parts[0], class));
    } else if parts.len() > 1 {
        let rest = parts.drop_last();
        assert(are_words(rest, class));
        joined_words_are_spaced(rest, class, sep);
        let head = join(rest, gap);
        let word = parts.last();
        assert(word == parts[parts.len() - 1]);
        let s = head + gap + word;
        assert(s == join(parts, gap));
        assert forall|i: int| 0 <= i < s.len() implies class(#[trigger] s[i]) || s[i] == sep by {
            if i < head.len() {
                assert(s[i] == head[i]);
            } else if i > head.len() {
                assert(s[i] == word[i - head.len() - 1]);
            }
        }
        assert(s[0] == head[0]);
        assert(s.last() == word[word.len() - 1]);
        assert forall|i: int, j: int|
            0 <= i < s.len() && j == i + 1 && j < s.len() implies class(#[trigger] s[i]) || class(
            #[trigger] s[j],
        ) by {
            if j < head.len() {
                assert(s[i] == head[i] && s[j] == head[j]);
            } else if j == head.len() {
                assert(s[i] == head.last());
            } else {
                assert(s[j] == word[j - head.len() - 1]);
            }
        }
    }
}

/// Joined words come apart again.
pub proof fn joined_words_come_apart(
    parts: Seq<Seq<char>>,
    class: spec_fn(char) -> bool,
    sep: char,
)
    requires
        are_words(parts, class),
        !class(sep),
    ensures
        class_runs(join(parts, seq![sep]), class) == parts,
    decreases parts.len(),
{
    let gap = seq![sep];
    if parts.len() == 0 {
        runs_of_word(Seq::empty(), class);
        assert(parts =~= Seq::empty());
    } else if parts.len() == 1 {
        runs_of_word(parts[0], class);
        assert(parts =~= seq![parts[0]]);
    } else {
        let rest = parts.drop_last();
        let word = parts.last();
        assert(word == parts[parts.len() - 1]);
        assert(are_words(rest, class));
        joined_words_come_apart(rest, class, sep);
        runs_of_parts(join(rest, gap), gap, word, class);
        runs_of_word(word, class);
        assert(rest + seq![word] =~= parts);
    }
}

/// The characters of joined words are those of the words and the separator.
pub proof fn joined_words_are_made_of(
    parts: Seq<Seq<char>>,
    sep: char,
    also: spec_fn(char) -> bool,
)
    requires
        are_words(parts, also),
        also(sep),
    ensures
        all_in(join(parts, seq![sep]), also),
    decreases parts.len(),
{
    if parts.len() == 1 {
        assert(all_in(parts[0], also));
    } else if parts.len() > 1 {
        let rest = parts.drop_last();
        assert(are_words(rest, also));
        joined_words_are_made_of(rest, sep, also);
        assert(all_in(parts[parts.len() - 1], also));
    }
}

/// The last separator of a text.
spec fn last_sep(s: Seq<char>, sep: char) -> int
    decreases s.len(),
{
    if s.len() == 0 {
        -1
    } else if s.last() == sep {
        s.len() - 1
    } else {
        last_sep(s.drop_last(), sep)
    }
}

proof fn lemma_last_sep(s: Seq<char>, sep: char)
    ensures
        -1 <= last_sep(s, sep) < s.len(),
        last_sep(s, sep) >= 0 ==> s[last_sep(s, sep)] == sep,
        forall|i: int| last_sep(s, sep) < i < s.len() ==> #[trigger] s[i] != sep,
    decreases s.len(),
{
    if s.len() > 0 && s.last() != sep {
        let rest = s.drop_last();
        lemma_last_sep(rest, sep);
        assert forall|i: int| last_sep(s, sep) < i < s.len() implies #[trigger] s[i] != sep by {
            if i < rest.len() {
                assert(rest[i] == s[i]);
            }
        }
        if last_sep(s, sep) >= 0 {
            assert(rest[last_sep(s, sep)] == s[last_sep(s, sep)]);
        }
    }
}

/// A text that is spaced already is what its words are joined to.
pub proof fn spaced_texts_stay(s: Seq<char>, class: spec_fn(char) -> bool, sep: char)
    requires
        is_spaced(s, class, sep),
        !class(sep),
    ensures
        join(class_runs(s, class), seq![sep]) == s,
    decreases s.len(),
{
    let gap = seq![sep];
    lemma_last_sep(s, sep);
    let p = last_sep(s, sep);
    if p < 0 {
        assert(all_in(s, class));
        runs_of_word(s, class);
        if s.len() == 0 {
            assert(s =~= Seq::empty());
        }
    } else {
        let head = s.take(p);
        let word = s.skip(p + 1);
        assert(s[p] == sep);
        assert(p > 0 && p < s.len() - 1);
        assert(s =~= head + gap + word);
        assert(class(s[p - 1]) || class(s[p]));
        assert forall|i: int| 0 <= i < word.len() implies class(#[trigger] word[i]) by {
            assert(word[i] == s[p + 1 + i]);
        }
        assert(is_spaced(head, class, sep)) by {
            assert forall|i: int| 0 <= i < head.len() implies class(#[trigger] head[i]) || head[i]
                == sep by {
                assert(head[i] == s[i]);
            }
            assert(head[0] == s[0]);
            assert(head.last() == s[p - 1]);
            assert forall|i: int, j: int|
                0 <= i < head.len() && j == i + 1 && j < head.len() implies class(
                #[trigger] head[i],
            ) || class(#[trigger] head[j]) by {
                assert(head[i] == s[i] && head[j] == s[j]);
            }
        }
        spaced_texts_stay(head, class, sep);
        runs_of_parts(head, gap, word, class);
        runs_of_word(word, class);
        let before = class_runs(head, class);
        assert(class_runs(s, class) =~= before.push(word));
        assert(before.push(word).drop_last() =~= before);
        if before.len() == 0 {
            assert(join(before, gap) =~= Seq::<char>::empty());
        }
    }
}

/// One space between words of visible characters, and none at either end.
pub open spec fn is_spaced_once(s: Seq<char>) -> bool {
    is_spaced(s, visible(), ' ')
}

/// A collapsed text is spaced once, and a text that is so stays as it is.
pub proof fn collapsed_texts_are_spaced_once(s: Seq<char>)
    ensures
        is_spaced_once(collapse(s)),
        is_spaced_once(s) ==> collapse(s) == s,
        words(collapse(s)) == words(s),
        collapse(collapse(s)) == collapse(s),
{
    reveal_strlit(" ");
    assert(" "@ =~= seq![' ']);
    words_are_visible_runs(s);
    words_are_visible_runs(collapse(s));
    runs_are_words(s, visible(), |c: char| true);
    joined_words_are_spaced(words(s), visible(), ' ');
    joined_words_come_apart(words(s), visible(), ' ');
    if is_spaced_once(s) {
        spaced_texts_stay(s, visible(), ' ');
    }
}

/// Lower case is kept as it is, and the spacing is the same in lower case.
pub proof fn lower_case_keeps_the_spacing(s: Seq<char>)
    ensures
        ascii_lowercase(ascii_lowercase(s)) == ascii_lowercase(s),
        is_spaced_once(s) ==> is_spaced_once(ascii_lowercase(s)),
{
    let low = ascii_lowercase(s);
    assert forall|i: int| 0 <= i < s.len() implies #[trigger] low[i] == ascii_lower(s[i]) && (
    is_white_space(low[i]) <==> is_white_space(s[i])) && (low[i] == ' ' <==> s[i] == ' ')
        && ascii_lower(low[i]) == low[i] by {
        lemma_lower(s[i]);
    }
    assert(ascii_lowercase(low) =~= low);
    if is_spaced_once(s) {
        assert forall|i: int| 0 <= i < low.len() implies visible()(#[trigger] low[i]) || low[i]
            == ' ' by {
            assert(visible()(s[i]) || s[i] == ' ');
        }
        assert forall|i: int, j: int|
            0 <= i < low.len() && j == i + 1 && j < low.len() implies visible()(#[trigger] low[i])
            || visible()(#[trigger] low[j]) by {
            assert(visible()(s[i]) || visible()(s[j]));
        }
        if s.len() > 0 {
            assert(visible()(low[0]));
            assert(low.last() == low[s.len() - 1]);
        }
    }
}

proof fn lemma_lower(c: char)
    ensures
        is_white_space(ascii_lower(c)) <==> is_white_space(c),
        ascii_lower(c) == ' ' <==> c == ' ',
        ascii_lower(ascii_lower(c)) == ascii_lower(c),
{
}

spec fn lower_all(parts: Seq<Seq<char>>) -> Seq<Seq<char>> {
    Seq::new(parts.len(), |i: int| ascii_lowercase(parts[i]))
}

proof fn lemma_lower_state(s: Seq<char>, n: int)
    requires
        0 <= n <= s.len(),
    ensures
        ({
            let low = ascii_lowercase(s);
            let state = run_state(s, class_marks(s, visible()), n);
            run_state(low, class_marks(low, visible()), n) == (
                lower_all(state.0),
                ascii_lowercase(state.1),
            )
        }),
    decreases n,
{
    let low = ascii_lowercase(s);
    if n > 0 {
        lemma_lower_state(s, n - 1);
        lemma_lower(s[n - 1]);
        let (done, open) = run_state(s, class_marks(s, visible()), n - 1);
        assert(class_marks(low, visible())[n - 1] == class_marks(s, visible())[n - 1]);
        assert(ascii_lowercase(open.push(s[n - 1])) =~= ascii_lowercase(open).push(low[n - 1]));
        assert(lower_all(done.push(open)) =~= lower_all(done).push(ascii_lowercase(open)));
        assert(ascii_lowercase(Seq::empty()) =~= Seq::<char>::empty());
    } else {
        assert(lower_all(Seq::empty()) =~= Seq::<Seq<char>>::empty());
        assert(ascii_lowercase(Seq::empty()) =~= Seq::<char>::empty());
    }
}

proof fn lemma_lower_join(parts: Seq<Seq<char>>)
    ensures
        join(lower_all(parts), seq![' ']) == ascii_lowercase(join(parts, seq![' '])),
    decreases parts.len(),
{
    let gap = seq![' '];
    if parts.len() == 0 {
        assert(ascii_lowercase(join(parts, gap)) =~= Seq::<char>::empty());
    } else if parts.len() > 1 {
        let rest = parts.drop_last();
        lemma_lower_join(rest);
        assert(lower_all(parts).drop_last() =~= lower_all(rest));
        assert(lower_all(parts).last() == ascii_lowercase(parts.last()));
        assert(ascii_lowercase(join(rest, gap) + gap + parts.last()) =~= ascii_lowercase(
            join(rest, gap),
        ) + gap + ascii_lowercase(parts.last()));
    }
}

/// It does not matter whether a text is first collapsed or first lowered.
pub proof fn collapsing_and_lowering_commute(s: Seq<char>)
    ensures
        collapse(ascii_lowercase(s)) == ascii_lowercase(collapse(s)),
{
    let low = ascii_lowercase(s);
    reveal_strlit(" ");
    assert(" "@ =~= seq![' ']);
    words_are_visible_runs(s);
    words_are_visible_runs(low);
    lemma_lower_state(s, s.len() as int);
    let (done, open) = run_state(s, class_marks(s, visible()), s.len() as int);
    assert(lower_all(done.push(open)) =~= lower_all(done).push(ascii_lowercase(open)));
    assert(words(low) == lower_all(words(s)));
    lemma_lower_join(words(s));
}

/// What is collapsed holds nothing but what was there, and spaces.
pub proof fn collapsed_texts_are_made_of(s: Seq<char>, also: spec_fn(char) -> bool)
    requires
        all_in(s, also),
        also(' '),
    ensures
        all_in(collapse(s), also),
{
    reveal_strlit(" ");
    assert(" "@ =~= seq![' ']);
    words_are_visible_runs(s);
    runs_are_words(s, visible(), also);
    joined_words_are_made_of(words(s), ' ', also);
}

pub proof fn collapsed_ascii_is_ascii(s: Seq<char>)
    requires
        all_ascii(s),
    ensures
        all_ascii(collapse(s)),
{
    let ascii = |c: char| (c as u32) < 128;
    assert(all_in(s, ascii));
    collapsed_texts_are_made_of(s, ascii);
    assert forall|i: int| 0 <= i < collapse(s).len() implies (#[trigger] collapse(s)[i] as u32)
        < 128 by {
        assert(ascii(collapse(s)[i]));
    }
}

/// The words of a text, and the collapsed text, do not depend on what white
/// space stands between two words or around them.
pub proof fn words_ignore_the_space_between(a: Seq<char>, gap: Seq<char>, b: Seq<char>)
    requires
        gap.len() > 0,
        none_in(gap, visible()),
    ensures
        words(a + gap + b) == words(a) + words(b),
        collapse(a + gap + b) == collapse(a + " "@ + b),
        collapse(gap + b) == collapse(b),
        collapse(a + gap) == collapse(a),
{
    reveal_strlit(" ");
    assert(" "@ =~= seq![' ']);
    let empty = Seq::<char>::empty();
    words_are_visible_runs(a);
    words_are_visible_runs(b);
    words_are_visible_runs(a + gap + b);
    words_are_visible_runs(a + " "@ + b);
    words_are_visible_runs(gap + b);
    words_are_visible_runs(a + gap);
    runs_of_parts(a, gap, b, visible());
    runs_of_parts(a, " "@, b, visible());
    runs_of_parts(empty, gap, b, visible());
    runs_of_parts(a, gap, empty, visible());
    runs_of_word(empty, visible());
    assert(empty + gap + b =~= gap + b);
    assert(a + gap + empty =~= a + gap);
    assert(Seq::<Seq<char>>::empty() + words(b) =~= words(b));
    assert(words(a) + Seq::<Seq<char>>::empty() =~= words(a));
}

proof fn lemma_state_keeps(s: Seq<char>, class: spec_fn(char) -> bool, n: int)
    requires
        0 <= n <= s.len(),
    ensures
        run_state(s, class_marks(s, class), n).0.flatten() + run_state(
            s,
            class_marks(s, class),
            n,
        ).1 == s.take(n).filter(class),
    decreases n,
{
    reveal(Seq::filter);
    if n == 0 {
        assert(s.take(0) =~= Seq::empty());
        assert(Seq::<Seq<char>>::empty().flatten() =~= Seq::<char>::empty());
    } else {
        lemma_state_keeps(s, class, n - 1);
        let (done, open) = run_state(s, class_marks(s, class), n - 1);
        assert(s.take(n).drop_last() =~= s.take(n - 1));
        assert(s.take(n).last() == s[n - 1]);
        done.lemma_flatten_push(open);
        assert(done.flatten() + open.push(s[n - 1]) =~= (done.flatten() + open).push(s[n - 1]));
        assert(done.push(open).flatten() + Seq::<char>::empty() =~= done.flatten() + open);
    }
}

/// The runs one after the other are the characters of the class, each of them and
/// in their order.
pub proof fn runs_keep_every_character(s: Seq<char>, class: spec_fn(char) -> bool)
    ensures
        class_runs(s, class).flatten() == s.filter(class),
{
    lemma_state_keeps(s, class, s.len() as int);
    assert(s.take(s.len() as int) =~= s);
    let (done, open) = run_state(s, class_marks(s, class), s.len() as int);
    done.lemma_flatten_push(open);
    if open.len() == 0 {
        assert(done.flatten() + open =~= done.flatten());
    }
}

/// White space is taken out of a text, and nothing else: a text, its words and the
/// collapsed text have the same visible characters in the same order.
pub proof fn words_keep_every_visible_character(s: Seq<char>)
    ensures
        words(s).flatten() == s.filter(|c: char| !is_white_space(c)),
        collapse(s).filter(|c: char| !is_white_space(c)) == s.filter(
            |c: char| !is_white_space(c),
        ),
        words(collapse(s)) == words(s),
{
    let class = |c: char| !is_white_space(c);
    reveal_strlit(" ");
    assert(" "@ =~= seq![' ']);
    assert(class =~= visible());
    words_are_visible_runs(s);
    runs_keep_every_character(s, visible());
    runs_are_words(s, visible(), |c: char| true);
    joined_words_come_apart(words(s), visible(), ' ');
    words_are_visible_runs(collapse(s));
    runs_keep_every_character(collapse(s), visible());
}

} // verus!
