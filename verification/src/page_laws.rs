//! What is read on a page, said of its elements and their texts.

use crate::document::{
    element_text, encloses, has_tag, is_silent, is_tag, shown_texts, silent_marks, silent_tags,
    subtree_end, subtree_from, tagged, tagged_within, under_mark, HtmlNode,
};
use crate::html::{
    after_tag, before_char, carried_address, ddg_href, decoded_from, escaped, has_link, hex_pair,
    href_of, is_local_link, leading_word, link_label, links_from, percent_decoded,
    resolve_references, results_from, snippet_after, tag_name, tag_part, visible_state,
    visible_text, without_slashes, LinkModel,
};
use crate::numeric::value_claim;
use crate::page::{
    block_tags, boilerplate_share, boilerplate_tags, boilerplate_terms, content_blocks,
    content_root, described, has_key, heading_block, is_boilerplate, is_content_block,
    is_header_row, is_link_list, labelled_claims, longest, marker, pair_count, structured_claims,
    total_length, with_title, without_key, CellModel, PageModel,
};
use crate::passages::{
    cookie_phrases, dedup_key, is_boilerplate_text, low_quality, navigation_phrases,
};
use crate::text::{
    ascii_lowercase, collapse, contains, contains_any, count_terms, is_ascii_letter, is_digit,
    is_one_of, replaced, seek, starts_with, trim, words,
};
use crate::weburl::WebUrl;
use vstd::prelude::*;

verus! {

/// The node is an element of this name.
pub open spec fn named(node: HtmlNode, name: Seq<char>) -> bool {
    node.name matches Some(n) && n@ == name
}

proof fn lemma_silent_tags(node: HtmlNode)
    ensures
        has_tag(node, silent_tags()) <==> named(node, "script"@)
            || named(node, "style"@)
            || named(node, "noscript"@)
            || named(node, "template"@),
{
    let tags = silent_tags();
    assert(tags.len() == 4);
    assert(tags[0] == "script");
    assert(tags[1] == "style");
    assert(tags[2] == "noscript");
    assert(tags[3] == "template");
    if has_tag(node, tags) {
        let i = choose|i: int| 0 <= i < tags.len() && is_tag(node, (#[trigger] tags[i])@);
        assert(i == 0 || i == 1 || i == 2 || i == 3);
    }
}

proof fn lemma_boilerplate_tags(node: HtmlNode)
    ensures
        has_tag(node, boilerplate_tags()) <==> named(node, "script"@)
            || named(node, "style"@)
            || named(node, "noscript"@)
            || named(node, "nav"@)
            || named(node, "header"@)
            || named(node, "footer"@)
            || named(node, "aside"@)
            || named(node, "form"@)
            || named(node, "button"@)
            || named(node, "menu"@),
{
    let tags = boilerplate_tags();
    assert(tags.len() == 10);
    assert(tags[0] == "script");
    assert(tags[1] == "style");
    assert(tags[2] == "noscript");
    assert(tags[3] == "nav");
    assert(tags[4] == "header");
    assert(tags[5] == "footer");
    assert(tags[6] == "aside");
    assert(tags[7] == "form");
    assert(tags[8] == "button");
    assert(tags[9] == "menu");
    if has_tag(node, tags) {
        let i = choose|i: int| 0 <= i < tags.len() && is_tag(node, (#[trigger] tags[i])@);
        assert(i == 0 || i == 1 || i == 2 || i == 3 || i == 4 || i == 5 || i == 6 || i == 7 || i == 8 || i == 9);
    }
}

proof fn lemma_block_tags(node: HtmlNode)
    ensures
        has_tag(node, block_tags()) <==> named(node, "h1"@)
            || named(node, "h2"@)
            || named(node, "h3"@)
            || named(node, "h4"@)
            || named(node, "p"@)
            || named(node, "blockquote"@)
            || named(node, "figcaption"@)
            || named(node, "li"@),
{
    let tags = block_tags();
    assert(tags.len() == 8);
    assert(tags[0] == "h1");
    assert(tags[1] == "h2");
    assert(tags[2] == "h3");
    assert(tags[3] == "h4");
    assert(tags[4] == "p");
    assert(tags[5] == "blockquote");
    assert(tags[6] == "figcaption");
    assert(tags[7] == "li");
    if has_tag(node, tags) {
        let i = choose|i: int| 0 <= i < tags.len() && is_tag(node, (#[trigger] tags[i])@);
        assert(i == 0 || i == 1 || i == 2 || i == 3 || i == 4 || i == 5 || i == 6 || i == 7);
    }
}

proof fn lemma_boilerplate_terms(s: Seq<char>)
    ensures
        contains_any(s, boilerplate_terms()) <==> contains(s, "nav"@)
            || contains(s, "menu"@)
            || contains(s, "header"@)
            || contains(s, "footer"@)
            || contains(s, "sidebar"@)
            || contains(s, "cookie"@)
            || contains(s, "consent"@)
            || contains(s, "banner"@)
            || contains(s, "breadcrumb"@)
            || contains(s, "toolbar"@)
            || contains(s, "masthead"@)
            || contains(s, "mw-panel"@)
            || contains(s, "toc"@),
{
    let terms = boilerplate_terms();
    assert(terms.len() == 13);
    assert(terms[0] == "nav");
    assert(terms[1] == "menu");
    assert(terms[2] == "header");
    assert(terms[3] == "footer");
    assert(terms[4] == "sidebar");
    assert(terms[5] == "cookie");
    assert(terms[6] == "consent");
    assert(terms[7] == "banner");
    assert(terms[8] == "breadcrumb");
    assert(terms[9] == "toolbar");
    assert(terms[10] == "masthead");
    assert(terms[11] == "mw-panel");
    assert(terms[12] == "toc");
    if contains_any(s, terms) {
        let i = choose|i: int| 0 <= i < terms.len() && contains(s, (#[trigger] terms[i])@);
        assert(i == 0 || i == 1 || i == 2 || i == 3 || i == 4 || i == 5 || i == 6 || i == 7 || i == 8 || i == 9 || i == 10 || i == 11 || i == 12);
    }
}

proof fn lemma_cookie_phrases(s: Seq<char>)
    ensures
        contains_any(s, cookie_phrases()) <==> contains(s, "accept all cookies"@)
            || contains(s, "accept cookies"@)
            || contains(s, "reject cookies"@)
            || contains(s, "cookie settings"@)
            || contains(s, "cookie preferences"@)
            || contains(s, "manage consent"@)
            || contains(s, "privacy choices"@)
            || contains(s, "we use cookies"@),
{
    let terms = cookie_phrases();
    assert(terms.len() == 8);
    assert(terms[0] == "accept all cookies");
    assert(terms[1] == "accept cookies");
    assert(terms[2] == "reject cookies");
    assert(terms[3] == "cookie settings");
    assert(terms[4] == "cookie preferences");
    assert(terms[5] == "manage consent");
    assert(terms[6] == "privacy choices");
    assert(terms[7] == "we use cookies");
    if contains_any(s, terms) {
        let i = choose|i: int| 0 <= i < terms.len() && contains(s, (#[trigger] terms[i])@);
        assert(i == 0 || i == 1 || i == 2 || i == 3 || i == 4 || i == 5 || i == 6 || i == 7);
    }
}

pub open spec fn one_if(condition: bool) -> nat {
    if condition {
        1
    } else {
        0
    }
}

/// A text is boilerplate where it holds a phrase of consent, or where it is a short
/// list of three or more entries of navigation without the end of a sentence.
#[verifier::rlimit(60)]
pub proof fn boilerplate_text_is_known_by_these_phrases(text: Seq<char>)
    ensures
        is_boilerplate_text(text) <==> {
            let lowered = ascii_lowercase(text);
            let entries = one_if(contains(lowered, "home"@)) +
            one_if(contains(lowered, "main page"@)) +
            one_if(contains(lowered, "menu"@)) +
            one_if(contains(lowered, "products"@)) +
            one_if(contains(lowered, "services"@)) +
            one_if(contains(lowered, "departments"@)) +
            one_if(contains(lowered, "careers"@)) +
            one_if(contains(lowered, "contact"@)) +
            one_if(contains(lowered, "sign in"@)) +
            one_if(contains(lowered, "log in"@)) +
            one_if(contains(lowered, "random article"@)) +
            one_if(contains(lowered, "privacy"@)) +
            one_if(contains(lowered, "privacy policy"@)) +
            one_if(contains(lowered, "terms"@)) +
            one_if(contains(lowered, "terms of use"@)) +
            one_if(contains(lowered, "sitemap"@)) +
            one_if(contains(lowered, "skip to content"@));
            ||| contains(lowered, "accept all cookies"@)
            ||| contains(lowered, "accept cookies"@)
            ||| contains(lowered, "reject cookies"@)
            ||| contains(lowered, "cookie settings"@)
            ||| contains(lowered, "cookie preferences"@)
            ||| contains(lowered, "manage consent"@)
            ||| contains(lowered, "privacy choices"@)
            ||| contains(lowered, "we use cookies"@)
            ||| !text.contains('.') && !text.contains('!') && !text.contains('?') && words(text).len()
                <= 60 && entries >= 3
        },
{
    let lowered = ascii_lowercase(text);
    lemma_cookie_phrases(lowered);
    crate::text_laws::characters_are_picked_in_order(text, '.');
    crate::text_laws::characters_are_picked_in_order(text, '!');
    crate::text_laws::characters_are_picked_in_order(text, '?');
    let terms = navigation_phrases();
    assert(terms.len() == 17);
    assert(terms[0] == "home");
    assert(terms[1] == "main page");
    assert(terms[2] == "menu");
    assert(terms[3] == "products");
    assert(terms[4] == "services");
    assert(terms[5] == "departments");
    assert(terms[6] == "careers");
    assert(terms[7] == "contact");
    assert(terms[8] == "sign in");
    assert(terms[9] == "log in");
    assert(terms[10] == "random article");
    assert(terms[11] == "privacy");
    assert(terms[12] == "privacy policy");
    assert(terms[13] == "terms");
    assert(terms[14] == "terms of use");
    assert(terms[15] == "sitemap");
    assert(terms[16] == "skip to content");
    assert(terms.take(17) =~= terms);
    assert(count_terms(lowered, terms.take(0)) == 0);
    lemma_one_more(lowered, terms, 0);
    lemma_one_more(lowered, terms, 1);
    lemma_one_more(lowered, terms, 2);
    lemma_one_more(lowered, terms, 3);
    lemma_one_more(lowered, terms, 4);
    lemma_one_more(lowered, terms, 5);
    lemma_one_more(lowered, terms, 6);
    lemma_one_more(lowered, terms, 7);
    lemma_one_more(lowered, terms, 8);
    lemma_one_more(lowered, terms, 9);
    lemma_one_more(lowered, terms, 10);
    lemma_one_more(lowered, terms, 11);
    lemma_one_more(lowered, terms, 12);
    lemma_one_more(lowered, terms, 13);
    lemma_one_more(lowered, terms, 14);
    lemma_one_more(lowered, terms, 15);
    lemma_one_more(lowered, terms, 16);
}

proof fn lemma_one_more(value: Seq<char>, terms: Seq<&str>, i: int)
    requires
        0 <= i < terms.len(),
    ensures
        count_terms(value, terms.take(i + 1)) == count_terms(value, terms.take(i)) + one_if(
            contains(value, terms[i]@),
        ),
{
    assert(terms.take(i + 1).drop_last() =~= terms.take(i));
    assert(terms.take(i + 1).last() == terms[i]);
}

/// A page with fewer than sixty useful characters is too short to be read.
pub proof fn short_pages_are_of_low_quality(length: u64)
    ensures
        low_quality(length) is Some <==> length < 60,
{
}

/// The elements of these names in a stretch of a page are all of them, in their order.
pub proof fn tagged_elements_are_all_in_order(
    nodes: Seq<HtmlNode>,
    tags: Seq<&str>,
    from: int,
    to: int,
)
    ensures
        forall|k: int|
            0 <= k < tagged(nodes, tags, from, to).len() ==> from <= #[trigger] tagged(
                nodes,
                tags,
                from,
                to,
            )[k] < to && has_tag(nodes[tagged(nodes, tags, from, to)[k]], tags),
        forall|i: int|
            from <= i < to && has_tag(#[trigger] nodes[i], tags) ==> tagged(
                nodes,
                tags,
                from,
                to,
            ).contains(i),
        forall|j: int, k: int|
            0 <= j < k < tagged(nodes, tags, from, to).len() ==> #[trigger] tagged(
                nodes,
                tags,
                from,
                to,
            )[j] < #[trigger] tagged(nodes, tags, from, to)[k],
    decreases to - from,
{
    if from < to {
        tagged_elements_are_all_in_order(nodes, tags, from, to - 1);
        let before = tagged(nodes, tags, from, to - 1);
        let after = tagged(nodes, tags, from, to);
        assert forall|i: int| from <= i < to && has_tag(#[trigger] nodes[i], tags) implies after.contains(
            i,
        ) by {
            if i < to - 1 {
                assert(before.contains(i));
                let k = choose|k: int| 0 <= k < before.len() && before[k] == i;
                assert(after[k] == i);
            } else {
                assert(after[before.len() as int] == i);
            }
        }
    }
}

/// An element ends where the next node of its depth or above begins.
pub proof fn elements_end_at_the_next_of_their_depth(nodes: Seq<HtmlNode>, i: int)
    requires
        0 <= i < nodes.len(),
    ensures
        i < subtree_end(nodes, i) <= nodes.len(),
        forall|k: int|
            i < k < subtree_end(nodes, i) ==> (#[trigger] nodes[k]).depth > nodes[i].depth,
        subtree_end(nodes, i) < nodes.len() ==> nodes[subtree_end(nodes, i)].depth
            <= nodes[i].depth,
{
    lemma_subtree(nodes, i, i + 1);
}

proof fn lemma_subtree(nodes: Seq<HtmlNode>, i: int, k: int)
    requires
        0 <= i < k <= nodes.len(),
    ensures
        k <= subtree_from(nodes, i, k) <= nodes.len(),
        forall|m: int|
            k <= m < subtree_from(nodes, i, k) ==> (#[trigger] nodes[m]).depth > nodes[i].depth,
        subtree_from(nodes, i, k) < nodes.len() ==> nodes[subtree_from(nodes, i, k)].depth
            <= nodes[i].depth,
    decreases nodes.len() - k,
{
    if k < nodes.len() && nodes[k].depth > nodes[i].depth {
        lemma_subtree(nodes, i, k + 1);
    }
}

/// A node inside a script, a style sheet or another element that shows nothing.
pub open spec fn inside_silence(nodes: Seq<HtmlNode>, i: int) -> bool {
    exists|a: int|
        0 <= a < i && #[trigger] encloses(nodes, a, i) && (named(nodes[a], "script"@) || named(nodes[a], "style"@) || named(nodes[a], "noscript"@) || named(nodes[a], "template"@))
}

/// The text of an element is that of its text nodes that lie inside no script, style
/// sheet or the like.
pub proof fn shown_text_lies_outside_silence(nodes: Seq<HtmlNode>, from: int, to: int)
    requires
        0 <= from,
        to <= nodes.len(),
    ensures
        forall|i: int|
            from <= i < to && (#[trigger] nodes[i]).text is Some && !inside_silence(nodes, i)
                ==> shown_texts(nodes, from, to).contains(nodes[i].text->0@),
        forall|k: int|
            0 <= k < shown_texts(nodes, from, to).len() ==> exists|i: int|
                from <= i < to && (#[trigger] nodes[i]).text is Some && !inside_silence(nodes, i)
                    && nodes[i].text->0@ == #[trigger] shown_texts(nodes, from, to)[k],
    decreases to - from,
{
    if from < to {
        shown_text_lies_outside_silence(nodes, from, to - 1);
        lemma_silence(nodes, to - 1);
        let before = shown_texts(nodes, from, to - 1);
        let after = shown_texts(nodes, from, to);
        assert forall|i: int|
            from <= i < to && (#[trigger] nodes[i]).text is Some && !inside_silence(
                nodes,
                i,
            ) implies after.contains(nodes[i].text->0@) by {
            if i < to - 1 {
                let k = choose|k: int| 0 <= k < before.len() && before[k] == nodes[i].text->0@;
                assert(after[k] == before[k]);
            } else {
                assert(after[before.len() as int] == nodes[i].text->0@);
            }
        }
        assert forall|k: int| 0 <= k < after.len() implies exists|i: int|
            from <= i < to && (#[trigger] nodes[i]).text is Some && !inside_silence(nodes, i)
                && nodes[i].text->0@ == #[trigger] after[k] by {
            if k < before.len() {
                assert(after[k] == before[k]);
                let i = choose|i: int|
                    from <= i < to - 1 && (#[trigger] nodes[i]).text is Some && !inside_silence(
                        nodes,
                        i,
                    ) && nodes[i].text->0@ == before[k];
                assert(nodes[i].text is Some);
            } else {
                assert(nodes[to - 1].text is Some);
            }
        }
    }
}

proof fn lemma_silence(nodes: Seq<HtmlNode>, i: int)
    requires
        0 <= i < nodes.len(),
    ensures
        is_silent(nodes, i) <==> inside_silence(nodes, i),
{
    if is_silent(nodes, i) {
        let a = choose|a: int|
            0 <= a < i && silent_marks(nodes)[a] && #[trigger] encloses(nodes, a, i);
        lemma_silent_tags(nodes[a]);
    }
    if inside_silence(nodes, i) {
        let a = choose|a: int|
            0 <= a < i && #[trigger] encloses(nodes, a, i) && (named(nodes[a], "script"@) || named(nodes[a], "style"@) || named(nodes[a], "noscript"@) || named(nodes[a], "template"@));
        lemma_silent_tags(nodes[a]);
        assert(silent_marks(nodes)[a]);
    }
}

/// An element is boilerplate by its name, or where its identifier, class or role holds
/// one of these words.
pub proof fn boilerplate_elements_are_known_by_name(node: HtmlNode)
    ensures
        is_boilerplate(node) <==> node.name is Some && {
            let mark = ascii_lowercase(
                (match node.id {
                    Some(id) => id@,
                    None => Seq::empty(),
                }) + " "@ + (match node.class {
                    Some(class) => class@,
                    None => Seq::empty(),
                }) + " "@ + (match node.role {
                    Some(role) => role@,
                    None => Seq::empty(),
                }),
            );
            ||| named(node, "script"@)
            ||| named(node, "style"@)
            ||| named(node, "noscript"@)
            ||| named(node, "nav"@)
            ||| named(node, "header"@)
            ||| named(node, "footer"@)
            ||| named(node, "aside"@)
            ||| named(node, "form"@)
            ||| named(node, "button"@)
            ||| named(node, "menu"@)
            ||| contains(mark, "nav"@)
            ||| contains(mark, "menu"@)
            ||| contains(mark, "header"@)
            ||| contains(mark, "footer"@)
            ||| contains(mark, "sidebar"@)
            ||| contains(mark, "cookie"@)
            ||| contains(mark, "consent"@)
            ||| contains(mark, "banner"@)
            ||| contains(mark, "breadcrumb"@)
            ||| contains(mark, "toolbar"@)
            ||| contains(mark, "masthead"@)
            ||| contains(mark, "mw-panel"@)
            ||| contains(mark, "toc"@)
        },
{
    lemma_boilerplate_tags(node);
    lemma_boilerplate_terms(marker(node));
}

/// The blocks of a page are its headings, paragraphs, quotations, captions and list
/// items.
pub proof fn blocks_have_these_names(node: HtmlNode)
    ensures
        has_tag(node, block_tags()) <==> {
            ||| named(node, "h1"@)
            ||| named(node, "h2"@)
            ||| named(node, "h3"@)
            ||| named(node, "h4"@)
            ||| named(node, "p"@)
            ||| named(node, "blockquote"@)
            ||| named(node, "figcaption"@)
            ||| named(node, "li"@)
        },
{
    lemma_block_tags(node);
}

/// A block counts as content where it says something, lies in no boilerplate, is none
/// itself, and is not for more than 55 parts of a hundred made of links.
pub proof fn content_says_something(nodes: Seq<HtmlNode>, root: int, i: int)
    ensures
        is_content_block(nodes, root, i) ==> element_text(nodes, i).len() > 0
            && !is_boilerplate_text(element_text(nodes, i)),
        is_content_block(nodes, root, i) ==> forall|a: int|
            root < a < i && #[trigger] encloses(nodes, a, i) && i <= nodes.len() && 0 <= root
                ==> !is_boilerplate(nodes[a]),
        element_text(nodes, i).len() > 0 ==> (is_link_list(nodes, i) <==> total_length(
            crate::document::element_texts(nodes, tagged_within(nodes, seq!["a"], i)),
        ) * 100 >= 56 * element_text(nodes, i).len()),
{
    let n = element_text(nodes, i).len();
    let links = total_length(
        crate::document::element_texts(nodes, tagged_within(nodes, seq!["a"], i)),
    );
    if n > 0 {
        assert((links * 100 / n > 55) <==> links * 100 >= 56 * n) by (nonlinear_arith)
            requires
                n > 0,
        ;
    }
    if is_content_block(nodes, root, i) {
        assert forall|a: int|
            root < a < i && #[trigger] encloses(nodes, a, i) && i <= nodes.len() && 0
                <= root implies !is_boilerplate(nodes[a]) by {
            let marks = crate::page::boilerplate_marks(nodes);
            assert(marks[a] == is_boilerplate(nodes[a]));
            if is_boilerplate(nodes[a]) {
                assert(under_mark(nodes, marks, root + 1, i));
            }
        }
    }
}

/// The lengths of a list of texts add up to the length of the texts one after the other.
pub proof fn lengths_add_up(list: Seq<Seq<char>>)
    ensures
        total_length(list) == list.flatten().len(),
    decreases list.len(),
{
    if list.len() > 0 {
        lengths_add_up(list.drop_last());
        list.drop_last().lemma_flatten_push(list.last());
        assert(list.drop_last().push(list.last()) =~= list);
    }
}

/// The main element of a page is one of the greatest length, and the last of those.
pub proof fn the_longest_element_is_the_main_one(nodes: Seq<HtmlNode>, list: Seq<int>)
    ensures
        list.len() == 0 <==> longest(nodes, list) is None,
        longest(nodes, list) matches Some(best) ==> exists|p: int|
            0 <= p < list.len() && #[trigger] list[p] == best && (forall|k: int|
                0 <= k < list.len() ==> element_text(nodes, #[trigger] list[k]).len()
                    <= element_text(nodes, best).len()) && forall|k: int|
                p < k < list.len() ==> element_text(nodes, #[trigger] list[k]).len()
                    < element_text(nodes, best).len(),
    decreases list.len(),
{
    if list.len() > 0 {
        let rest = list.drop_last();
        the_longest_element_is_the_main_one(nodes, rest);
        let best = longest(nodes, list)->0;
        assert forall|k: int| 0 <= k < rest.len() implies #[trigger] list[k] == rest[k] by {}
        assert(list[list.len() - 1] == list.last());
        if rest.len() > 0 {
            let earlier = longest(nodes, rest)->0;
            let p = choose|p: int|
                0 <= p < rest.len() && #[trigger] rest[p] == earlier && (forall|k: int|
                    0 <= k < rest.len() ==> element_text(nodes, #[trigger] rest[k]).len()
                        <= element_text(nodes, earlier).len()) && forall|k: int|
                    p < k < rest.len() ==> element_text(nodes, #[trigger] rest[k]).len()
                        < element_text(nodes, earlier).len();
            assert(list[p] == earlier);
        }
    }
}

/// A page is read from its main element; without one from its first body.
pub proof fn pages_are_read_from_their_main_element(page: PageModel)
    ensures
        page.mains.len() > 0 ==> page.mains.contains(content_root(page)),
        page.mains.len() == 0 && page.bodies.len() > 0 ==> content_root(page) == page.bodies[0],
{
    the_longest_element_is_the_main_one(page.nodes, page.mains);
}

/// Every content block of the list is among the blocks by what it says.
pub proof fn content_blocks_are_kept(nodes: Seq<HtmlNode>, root: int, list: Seq<int>)
    ensures
        forall|k: int|
            0 <= k < list.len() && is_content_block(nodes, root, #[trigger] list[k]) ==> has_key(
                content_blocks(nodes, root, list),
                dedup_key(element_text(nodes, list[k])),
            ),
    decreases list.len(),
{
    if list.len() > 0 {
        let rest = list.drop_last();
        content_blocks_are_kept(nodes, root, rest);
        let before = content_blocks(nodes, root, rest);
        let after = content_blocks(nodes, root, list);
        assert forall|k: int|
            0 <= k < list.len() && is_content_block(nodes, root, #[trigger] list[k]) implies has_key(
            after,
            dedup_key(element_text(nodes, list[k])),
        ) by {
            let key = dedup_key(element_text(nodes, list[k]));
            if k < rest.len() {
                assert(rest[k] == list[k]);
                let i = choose|i: int|
                    0 <= i < before.len() && dedup_key(#[trigger] before[i]) == key;
                assert(dedup_key(after[i]) == key);
            } else if has_key(before, key) {
                let i = choose|i: int|
                    0 <= i < before.len() && dedup_key(#[trigger] before[i]) == key;
                assert(dedup_key(after[i]) == key);
            } else {
                assert(dedup_key(after[before.len() as int]) == key);
            }
        }
    }
}

/// Every block is the text of a content block of the list.
pub proof fn blocks_are_texts_of_content(
    nodes: Seq<HtmlNode>,
    root: int,
    list: Seq<int>,
    b: int,
)
    requires
        0 <= b < content_blocks(nodes, root, list).len(),
    ensures
        exists|k: int|
            0 <= k < list.len() && is_content_block(nodes, root, #[trigger] list[k])
                && element_text(nodes, list[k]) == content_blocks(nodes, root, list)[b],
    decreases list.len(),
{
    let rest = list.drop_last();
    let before = content_blocks(nodes, root, rest);
    if b < before.len() {
        blocks_are_texts_of_content(nodes, root, rest, b);
        let k = choose|k: int|
            0 <= k < rest.len() && is_content_block(nodes, root, #[trigger] rest[k])
                && element_text(nodes, rest[k]) == before[b];
        assert(list[k] == rest[k]);
    } else {
        assert(list[list.len() - 1] == list.last());
    }
}

proof fn lemma_heading(blocks: Seq<Seq<char>>)
    ensures
        heading_block(blocks) matches Some(h) ==> exists|i: int|
            0 <= i < blocks.len() && #[trigger] blocks[i] == h && h.len() <= 180 && forall|k: int|
                0 <= k < i ==> (#[trigger] blocks[k]).len() > 180,
        heading_block(blocks) is None ==> forall|k: int|
            0 <= k < blocks.len() ==> (#[trigger] blocks[k]).len() > 180,
    decreases blocks.len(),
{
    if blocks.len() > 0 && blocks[0].len() > 180 {
        let rest = blocks.drop_first();
        lemma_heading(rest);
        assert forall|k: int| 0 < k < blocks.len() implies #[trigger] blocks[k] == rest[k - 1] by {}
        if heading_block(blocks) is Some {
            let h = heading_block(blocks)->0;
            let i = choose|i: int|
                0 <= i < rest.len() && #[trigger] rest[i] == h && h.len() <= 180 && forall|k: int|
                    0 <= k < i ==> (#[trigger] rest[k]).len() > 180;
            assert(blocks[i + 1] == h);
            assert forall|k: int| 0 <= k < i + 1 implies (#[trigger] blocks[k]).len() > 180 by {
                if k > 0 {
                    assert(rest[k - 1].len() > 180);
                }
            }
        } else {
            assert forall|k: int| 0 <= k < blocks.len() implies (#[trigger] blocks[k]).len()
                > 180 by {
                if k > 0 {
                    assert(rest[k - 1].len() > 180);
                }
            }
        }
    } else if blocks.len() > 0 {
        assert(blocks[0].len() <= 180);
    }
}

/// The title of a page leads its blocks, and stands there once, unless the first short
/// block begins like it or it like the block.
pub proof fn titles_lead_the_blocks(blocks: Seq<Seq<char>>, title: Seq<char>)
    ensures
        ({
            let key = dedup_key(title);
            let out = with_title(blocks, title);
            let heading = heading_block(blocks);
            let known = heading matches Some(h) && (dedup_key(h).is_prefix_of(key)
                || key.is_prefix_of(dedup_key(h)));
            &&& heading matches Some(h) ==> blocks.contains(h) && h.len() <= 180
            &&& heading is None ==> forall|k: int|
                0 <= k < blocks.len() ==> (#[trigger] blocks[k]).len() > 180
            &&& known ==> out == blocks
            &&& !known ==> out.len() > 0 && out[0] == title && out.drop_first() == blocks.filter(
                |b: Seq<char>| dedup_key(b) != key,
            )
        }),
{
    let key = dedup_key(title);
    lemma_heading(blocks);
    if heading_block(blocks) is Some {
        let other = dedup_key(heading_block(blocks)->0);
        crate::text_laws::contained_texts_are_stretches(key, other);
        crate::text_laws::contained_texts_are_stretches(other, key);
    }
    lemma_without_key(blocks, key);
    assert((seq![title] + without_key(blocks, key)).drop_first() =~= without_key(blocks, key));
}

proof fn lemma_without_key(blocks: Seq<Seq<char>>, key: Seq<char>)
    ensures
        without_key(blocks, key) == blocks.filter(|b: Seq<char>| dedup_key(b) != key),
    decreases blocks.len(),
{
    reveal(Seq::filter);
    if blocks.len() > 0 {
        lemma_without_key(blocks.drop_last(), key);
    }
}

/// A description counts with twenty characters or more, with its white space collapsed.
pub proof fn descriptions_have_twenty_characters(nodes: Seq<HtmlNode>, list: Seq<int>, i: int)
    ensures
        nodes[i].content matches Some(content) ==> (collapse(content@).len() >= 20 ==> described(
            nodes,
            list.push(i),
        ) == described(nodes, list).push(collapse(content@))),
        nodes[i].content matches Some(content) ==> (collapse(content@).len() < 20 ==> described(
            nodes,
            list.push(i),
        ) == described(nodes, list)),
        nodes[i].content is None ==> described(nodes, list.push(i)) == described(nodes, list),
{
    assert(list.push(i).drop_last() =~= list);
}

/// A row of a heading and a value gives what it says and the claim that it makes; any
/// other row gives nothing.
pub proof fn labelled_rows_give_text_and_claim(
    context: Seq<char>,
    rows: Seq<Seq<CellModel>>,
    row: Seq<CellModel>,
)
    ensures
        ({
            let before = labelled_claims(context, rows);
            let after = labelled_claims(context, rows.push(row));
            let labelled = row.len() == 2 && row[0].heading && !row[1].heading;
            &&& !labelled ==> after == before
            &&& labelled ==> match value_claim(context, row[0].text, row[1].text) {
                Some(claim) => after == before + seq![
                    context + ": "@ + row[0].text + " "@ + row[1].text,
                    claim,
                ],
                None => after == before,
            }
        }),
{
    assert(rows.push(row).drop_last() =~= rows);
    let before = labelled_claims(context, rows);
    let after = labelled_claims(context, rows.push(row));
    if row.len() == 2 && row[0].heading && !row[1].heading {
        match value_claim(context, row[0].text, row[1].text) {
            Some(claim) => {
                assert(after =~= before + seq![
                    context + ": "@ + row[0].text + " "@ + row[1].text,
                    claim,
                ]);
            },
            None => {},
        }
    }
}

/// At most eight pairs of a list are read, as many as have both a term and a value.
pub proof fn pairs_have_both_parts(terms: int, values: int)
    requires
        0 <= terms,
        0 <= values,
    ensures
        pair_count(terms, values) <= terms,
        pair_count(terms, values) <= values,
        pair_count(terms, values) <= 8,
        pair_count(terms, values) == terms || pair_count(terms, values) == values || pair_count(
            terms,
            values,
        ) == 8,
{
}

/// A header row has two cells or more, and all of them are headings.
pub proof fn header_rows_are_all_headings(row: Seq<CellModel>, i: int)
    requires
        0 <= i < row.len(),
    ensures
        is_header_row(row) ==> row[i].heading && row.len() >= 2,
        !row[i].heading ==> !is_header_row(row),
        row.len() == 1 ==> !is_header_row(row),
{
}

/// A page gives at most sixteen claims from its structure.
pub proof fn structure_gives_few_claims(
    page: PageModel,
    root: int,
    url: WebUrl,
    context: Seq<char>,
)
    ensures
        structured_claims(page, root, url, context).len() <= 16,
{
}

/// The share of boilerplate is what the useful text leaves of the whole; a page without
/// any text is all boilerplate, and one that is all useful has none.
pub proof fn boilerplate_is_what_is_left(total: nat, useful: u64)
    ensures
        total == 0 ==> boilerplate_share(total, useful) == 10000,
        total > 0 && useful >= total ==> boilerplate_share(total, useful) == 0,
        total > 0 && useful == 0 ==> boilerplate_share(total, useful) == 10000,
        total > 0 && useful <= total ==> boilerplate_share(total, useful) * total <= (total
            - useful) * 10000 < (boilerplate_share(total, useful) + 1) * total,
{
    if total > 0 {
        crate::ranking_laws::shares_are_rounded_down(
            if useful <= total {
                (total - useful) as nat
            } else {
                0
            },
            total,
        );
    }
}

/// Text between tags is shown with a space before it; a script, a style sheet or what
/// stands for them hides all that follows up to its own closing tag.
pub proof fn hidden_elements_show_nothing(chunks: Seq<Seq<char>>, n: int)
    requires
        2 <= n <= chunks.len(),
    ensures
        ({
            let before = visible_state(chunks, n - 1);
            let after = visible_state(chunks, n);
            let tag = tag_part(chunks[n - 1]);
            let name = tag_name(tag);
            let closing = tag.len() > 0 && tag[0] == '/';
            let empty = tag.len() > 0 && tag.last() == '/';
            let hides = name == "script"@ || name == "style"@ || name == "noscript"@;
            &&& before.hidden is None && hides && !closing && !empty ==> after.out == before.out
                && after.hidden == Some(name)
            &&& before.hidden is None && (!hides || closing || empty) ==> after.out == before.out
                + " "@ + after_tag(chunks[n - 1]) && after.hidden is None
            &&& before.hidden is Some ==> after.out == before.out
            &&& before.hidden matches Some(open) ==> (closing && name == open ==> after.hidden
                is None)
            &&& before.hidden matches Some(open) ==> (!(closing && name == open) ==> after.hidden
                == Some(open))
        }),
{
    let name = tag_name(tag_part(chunks[n - 1]));
    let tags = crate::html::hidden_tags();
    assert(tags.len() == 3);
    assert(tags[0] == "script" && tags[1] == "style" && tags[2] == "noscript");
    if is_one_of(name, tags) {
        let i = choose|i: int| 0 <= i < tags.len() && name == (#[trigger] tags[i])@;
        assert(i == 0 || i == 1 || i == 2);
    }
}

/// The code of a hexadecimal digit, in lower or in upper case.
pub open spec fn hex_code(value: u8, upper: bool) -> u8 {
    if value < 10 {
        (48 + value) as u8
    } else if upper {
        (55 + value) as u8
    } else {
        (87 + value) as u8
    }
}

/// Two hexadecimal digits behind a percent sign denote their byte, a plus sign a space,
/// and any other byte but a percent sign itself.
pub proof fn percent_escapes_denote_bytes(
    high: u8,
    low: u8,
    upper: bool,
    other: u8,
    rest: Seq<u8>,
)
    requires
        high < 16,
        low < 16,
    ensures
        decoded_from(
            seq![37u8, hex_code(high, upper), hex_code(low, upper)] + rest,
            0,
        ) == seq![(16 * high + low) as u8] + decoded_from(rest, 0),
        other != 37 && other != 43 ==> decoded_from(seq![other] + rest, 0) == seq![other]
            + decoded_from(rest, 0),
        decoded_from(seq![43u8] + rest, 0) == seq![32u8] + decoded_from(rest, 0),
{
    let a = seq![37u8, hex_code(high, upper), hex_code(low, upper)];
    lemma_decoded_shift(a, rest, 3);
    lemma_decoded_shift(seq![other], rest, 1);
    lemma_decoded_shift(seq![43u8], rest, 1);
    assert((a + rest)[0] == 37 && (a + rest)[1] == hex_code(high, upper) && (a + rest)[2]
        == hex_code(low, upper));
    assert(hex_pair(hex_code(high, upper), hex_code(low, upper)) == Some((16 * high + low) as u8));
    assert((seq![other] + rest)[0] == other);
    assert((seq![43u8] + rest)[0] == 43);
}

proof fn lemma_decoded_shift(front: Seq<u8>, rest: Seq<u8>, n: int)
    requires
        n == front.len(),
    ensures
        decoded_from(front + rest, n) == decoded_from(rest, 0),
{
    lemma_decoded_at(front, rest, 0);
}

proof fn lemma_decoded_at(front: Seq<u8>, rest: Seq<u8>, i: int)
    requires
        0 <= i,
    ensures
        decoded_from(front + rest, front.len() + i) == decoded_from(rest, i),
    decreases rest.len() - i,
{
    if i < rest.len() {
        let s = front + rest;
        let n = front.len() + i;
        assert(s[n] == rest[i]);
        if i + 2 < rest.len() {
            assert(s[n + 1] == rest[i + 1] && s[n + 2] == rest[i + 2]);
            lemma_decoded_at(front, rest, i + 3);
        }
        lemma_decoded_at(front, rest, i + 1);
    }
}

/// What stands before a character is the front of the text up to its first occurrence.
pub proof fn the_front_ends_at_the_character(s: Seq<char>, c: char)
    ensures
        before_char(s, c).is_prefix_of(s),
        !before_char(s, c).contains(c),
        before_char(s, c).len() < s.len() ==> s[before_char(s, c).len() as int] == c,
    decreases s.len(),
{
    let out = before_char(s, c);
    if s.len() > 0 && s[0] != c {
        let rest = s.drop_first();
        the_front_ends_at_the_character(rest, c);
        let inner = before_char(rest, c);
        assert(out =~= seq![s[0]] + inner);
        assert forall|i: int| 0 <= i < out.len() implies out[i] == s[i] by {
            if i > 0 {
                assert(inner[i - 1] == rest[i - 1]);
            }
        }
        assert(s.subrange(0, out.len() as int) =~= out);
        assert forall|i: int| 0 <= i < out.len() implies out[i] != c by {
            if i > 0 {
                assert(inner.contains(inner[i - 1]));
            }
        }
        if out.len() < s.len() {
            assert(rest[inner.len() as int] == s[out.len() as int]);
        }
    } else {
        assert(s.subrange(0, 0) =~= out);
    }
}

/// A link of the search page without a carried address is taken as it is, and with two
/// slashes in front of it over HTTPS.
pub proof fn links_without_a_carried_address_stay(href: Seq<char>)
    ensures
        carried_address(href) is None && "//"@.is_prefix_of(href) ==> ddg_href(href)
            == "https://"@ + href.skip(2),
        carried_address(href) is None && !"//"@.is_prefix_of(href) ==> ddg_href(href) == href,
        carried_address(href) matches Some(address) ==> ddg_href(href) == percent_decoded(address),
        carried_address(href) matches Some(address) ==> !address.contains('&'),
{
    crate::text_laws::contained_texts_are_stretches(href, "//"@);
    match seek(href, "uddg="@, 0) {
        Some(at) => {
            the_front_ends_at_the_character(href.skip(at + 5), '&');
        },
        None => {},
    }
}

/// The results of a search page are no more than there is room for, and each has a title
/// and an address.
pub proof fn results_have_title_and_address(s: Seq<char>, pos: int, room: nat)
    ensures
        results_from(s, pos, room).len() <= room,
        forall|i: int|
            0 <= i < results_from(s, pos, room).len() ==> (#[trigger] results_from(
                s,
                pos,
                room,
            )[i]).title.len() > 0 && results_from(s, pos, room)[i].url.len() > 0,
    decreases s.len() - pos,
{
    reveal_strlit("</a>");
    if room > 0 && pos >= 0 {
        let anchor_text = crate::html::result_anchor();
        match seek(s, anchor_text, pos) {
            Some(anchor) => {
                let after = anchor + anchor_text.len();
                match (seek(s, "\""@, after), seek(s, ">"@, after), seek(s, "</a>"@, after)) {
                    (Some(quote), Some(tag_end), Some(close)) => {
                        results_have_title_and_address(s, close + 4, (room - 1) as nat);
                        results_have_title_and_address(s, close + 4, room);
                        let list = results_from(s, pos, room);
                        let rest = results_from(s, close + 4, (room - 1) as nat);
                        assert forall|i: int| 0 <= i < list.len() implies (
                        #[trigger] list[i]).title.len() > 0 && list[i].url.len() > 0 by {
                            if list.len() == rest.len() + 1 && i > 0 {
                                assert(list[i] == rest[i - 1] || list == results_from(
                                    s,
                                    close + 4,
                                    room,
                                ));
                            }
                        }
                    },
                    _ => {},
                }
            },
            None => {},
        }
    }
}

/// A link that leads nowhere else is one to a fragment, a script or a mail address.
pub proof fn local_links_lead_nowhere_else(href: Seq<char>)
    ensures
        is_local_link(href) <==> "#"@.is_prefix_of(href) || "javascript:"@.is_prefix_of(href)
            || "mailto:"@.is_prefix_of(href),
{
    crate::text_laws::contained_texts_are_stretches(href, "#"@);
    crate::text_laws::contained_texts_are_stretches(href, "javascript:"@);
    crate::text_laws::contained_texts_are_stretches(href, "mailto:"@);
}

/// The links of a page are no more than asked for, no two lead to one address, and each
/// has a label.
pub proof fn links_are_distinct_and_labelled(
    s: Seq<char>,
    base: WebUrl,
    pos: int,
    found: Seq<LinkModel>,
    max: nat,
)
    requires
        found.len() <= max,
        forall|i: int| 0 <= i < found.len() ==> (#[trigger] found[i]).label.len() > 0,
        forall|i: int, j: int|
            0 <= i < j < found.len() ==> (#[trigger] found[i]).url.text@ != (
            #[trigger] found[j]).url.text@,
    ensures
        links_from(s, base, pos, found, max).len() <= max,
        found.is_prefix_of(links_from(s, base, pos, found, max)),
        forall|i: int|
            0 <= i < links_from(s, base, pos, found, max).len() ==> (#[trigger] links_from(
                s,
                base,
                pos,
                found,
                max,
            )[i]).label.len() > 0,
        forall|i: int, j: int|
            0 <= i < j < links_from(s, base, pos, found, max).len() ==> (#[trigger] links_from(
                s,
                base,
                pos,
                found,
                max,
            )[i]).url.text@ != (#[trigger] links_from(s, base, pos, found, max)[j]).url.text@,
    decreases s.len() - pos,
{
    reveal_strlit("</a>");
    if found.len() < max && pos >= 0 {
        match seek(s, "<a "@, pos) {
            Some(anchor) => match (seek(s, ">"@, anchor), seek(s, "</a>"@, anchor)) {
                (Some(tag_end), Some(close)) => {
                    let inner = if tag_end < close {
                        s.subrange(tag_end + 1, close)
                    } else {
                        Seq::empty()
                    };
                    let label = link_label(inner);
                    let next = match crate::html::link_target(base, s.subrange(anchor, tag_end)) {
                        Some(url) => if label.len() == 0 || has_link(found, url.text@) {
                            found
                        } else {
                            found.push(LinkModel { url, label })
                        },
                        None => found,
                    };
                    links_are_distinct_and_labelled(s, base, close + 4, next, max);
                    let list = links_from(s, base, pos, found, max);
                    assert(list.subrange(0, found.len() as int) =~= found) by {
                        assert(next.is_prefix_of(list));
                        assert forall|i: int| 0 <= i < found.len() implies list[i] == found[i] by {
                            assert(list.subrange(0, next.len() as int)[i] == next[i]);
                        }
                    }
                },
                _ => {},
            },
            None => {},
        }
    }
}

/// Escaping works on each character alone: the characters of markup are written out, and
/// every other one stays.
pub proof fn escaping_works_on_each_character(s: Seq<char>, c: char)
    ensures
        c == '&' ==> escaped(s.push(c)) == escaped(s) + "&amp;"@,
        c == '<' ==> escaped(s.push(c)) == escaped(s) + "&lt;"@,
        c == '>' ==> escaped(s.push(c)) == escaped(s) + "&gt;"@,
        c != '&' && c != '<' && c != '>' ==> escaped(s.push(c)) == escaped(s).push(c),
        escaped(Seq::empty()).len() == 0,
{
    assert(s.push(c).drop_last() =~= s);
    assert(escaped(s) + seq![c] =~= escaped(s).push(c));
}

/// A text without an ampersand.
spec fn has_no_reference(s: Seq<char>) -> bool {
    forall|i: int| 0 <= i < s.len() ==> #[trigger] s[i] != '&'
}

proof fn lemma_front_stays(front: Seq<char>, s: Seq<char>, p: Seq<char>, w: Seq<char>)
    requires
        has_no_reference(front),
        p.len() > 0,
        p[0] == '&',
    ensures
        replaced(front + s, p, w) == front + replaced(s, p, w),
    decreases front.len(),
{
    let whole = front + s;
    if front.len() == 0 {
        assert(whole =~= s);
        assert(front + replaced(s, p, w) =~= replaced(s, p, w));
    } else {
        assert(whole[0] == front[0]);
        assert(whole.drop_first() =~= front.drop_first() + s);
        assert forall|i: int| 0 <= i < front.drop_first().len() implies #[trigger] front.drop_first()[i]
            != '&' by {
            assert(front[i + 1] != '&');
        }
        lemma_front_stays(front.drop_first(), s, p, w);
        assert(seq![front[0]] + (front.drop_first() + replaced(s, p, w)) =~= front + replaced(
            s,
            p,
            w,
        ));
    }
}

proof fn lemma_plain_stays(s: Seq<char>, p: Seq<char>, w: Seq<char>)
    requires
        has_no_reference(s),
        p.len() > 0,
        p[0] == '&',
    ensures
        replaced(s, p, w) == s,
{
    lemma_front_stays(s, Seq::empty(), p, w);
    assert(s + Seq::<char>::empty() =~= s);
}

/// One reference between texts without any, and a pattern that differs from it at
/// some place.
proof fn lemma_other_stays(
    front: Seq<char>,
    reference: Seq<char>,
    back: Seq<char>,
    p: Seq<char>,
    w: Seq<char>,
    k: int,
)
    requires
        has_no_reference(front),
        has_no_reference(back),
        has_no_reference(reference.drop_first()),
        0 <= k < p.len(),
        k < reference.len(),
        p[k] != reference[k],
        p[0] == '&',
    ensures
        replaced(front + reference + back, p, w) == front + reference + back,
{
    let rest = reference + back;
    assert(front + reference + back =~= front + rest);
    lemma_front_stays(front, rest, p, w);
    assert(rest[k] == reference[k]);
    assert(!starts_with(rest, p));
    let tail = rest.drop_first();
    assert forall|i: int| 0 <= i < tail.len() implies #[trigger] tail[i] != '&' by {
        if i + 1 < reference.len() {
            assert(reference.drop_first()[i] != '&');
        } else {
            assert(back[i + 1 - reference.len()] != '&');
        }
    }
    lemma_plain_stays(tail, p, w);
    assert(seq![rest[0]] + tail =~= rest);
}

proof fn lemma_same_goes(front: Seq<char>, back: Seq<char>, p: Seq<char>, w: Seq<char>)
    requires
        has_no_reference(front),
        has_no_reference(back),
        p.len() > 0,
        p[0] == '&',
    ensures
        replaced(front + p + back, p, w) == front + w + back,
{
    assert(front + p + back =~= front + (p + back));
    lemma_front_stays(front, p + back, p, w);
    crate::text_laws::replacing_goes_from_left_to_right(back, p, w);
    lemma_plain_stays(back, p, w);
    assert(front + (w + back) =~= front + w + back);
}

proof fn lemma_nbsp_resolves(front: Seq<char>, back: Seq<char>)
    requires
        has_no_reference(front),
        has_no_reference(back),
    ensures
        resolve_references(front + "&nbsp;"@ + back) == front + " "@ + back,
{
    reveal_strlit("&nbsp;");
    reveal_strlit("&quot;");
    reveal_strlit("&#39;");
    reveal_strlit("&#039;");
    reveal_strlit("&#x27;");
    reveal_strlit("&lt;");
    reveal_strlit("&gt;");
    reveal_strlit("&amp;");
    reveal_strlit(" ");
    reveal_strlit("\"");
    reveal_strlit("'");
    reveal_strlit("<");
    reveal_strlit(">");
    reveal_strlit("&");
    lemma_same_goes(front, back, "&nbsp;"@, " "@);
    let done = front + " "@ + back;
    assert forall|i: int| 0 <= i < done.len() implies #[trigger] done[i] != '&' by {
        if i < front.len() {
            assert(front[i] != '&');
        } else if i >= front.len() + 1 {
            assert(back[i - front.len() - 1] != '&');
        }
    }
    lemma_plain_stays(done, "&quot;"@, "\""@);
    lemma_plain_stays(done, "&#39;"@, "'"@);
    lemma_plain_stays(done, "&#039;"@, "'"@);
    lemma_plain_stays(done, "&#x27;"@, "'"@);
    lemma_plain_stays(done, "&lt;"@, "<"@);
    lemma_plain_stays(done, "&gt;"@, ">"@);
    lemma_plain_stays(done, "&amp;"@, "&"@);
}

proof fn lemma_quot_resolves(front: Seq<char>, back: Seq<char>)
    requires
        has_no_reference(front),
        has_no_reference(back),
    ensures
        resolve_references(front + "&quot;"@ + back) == front + "\""@ + back,
{
    reveal_strlit("&nbsp;");
    reveal_strlit("&quot;");
    reveal_strlit("&#39;");
    reveal_strlit("&#039;");
    reveal_strlit("&#x27;");
    reveal_strlit("&lt;");
    reveal_strlit("&gt;");
    reveal_strlit("&amp;");
    reveal_strlit(" ");
    reveal_strlit("\"");
    reveal_strlit("'");
    reveal_strlit("<");
    reveal_strlit(">");
    reveal_strlit("&");
    lemma_other_stays(front, "&quot;"@, back, "&nbsp;"@, " "@, 1);
    lemma_same_goes(front, back, "&quot;"@, "\""@);
    let done = front + "\""@ + back;
    assert forall|i: int| 0 <= i < done.len() implies #[trigger] done[i] != '&' by {
        if i < front.len() {
            assert(front[i] != '&');
        } else if i >= front.len() + 1 {
            assert(back[i - front.len() - 1] != '&');
        }
    }
    lemma_plain_stays(done, "&#39;"@, "'"@);
    lemma_plain_stays(done, "&#039;"@, "'"@);
    lemma_plain_stays(done, "&#x27;"@, "'"@);
    lemma_plain_stays(done, "&lt;"@, "<"@);
    lemma_plain_stays(done, "&gt;"@, ">"@);
    lemma_plain_stays(done, "&amp;"@, "&"@);
}

proof fn lemma_short_mark_resolves(front: Seq<char>, back: Seq<char>)
    requires
        has_no_reference(front),
        has_no_reference(back),
    ensures
        resolve_references(front + "&#39;"@ + back) == front + "'"@ + back,
{
    reveal_strlit("&nbsp;");
    reveal_strlit("&quot;");
    reveal_strlit("&#39;");
    reveal_strlit("&#039;");
    reveal_strlit("&#x27;");
    reveal_strlit("&lt;");
    reveal_strlit("&gt;");
    reveal_strlit("&amp;");
    reveal_strlit(" ");
    reveal_strlit("\"");
    reveal_strlit("'");
    reveal_strlit("<");
    reveal_strlit(">");
    reveal_strlit("&");
    lemma_other_stays(front, "&#39;"@, back, "&nbsp;"@, " "@, 1);
    lemma_other_stays(front, "&#39;"@, back, "&quot;"@, "\""@, 1);
    lemma_same_goes(front, back, "&#39;"@, "'"@);
    let done = front + "'"@ + back;
    assert forall|i: int| 0 <= i < done.len() implies #[trigger] done[i] != '&' by {
        if i < front.len() {
            assert(front[i] != '&');
        } else if i >= front.len() + 1 {
            assert(back[i - front.len() - 1] != '&');
        }
    }
    lemma_plain_stays(done, "&#039;"@, "'"@);
    lemma_plain_stays(done, "&#x27;"@, "'"@);
    lemma_plain_stays(done, "&lt;"@, "<"@);
    lemma_plain_stays(done, "&gt;"@, ">"@);
    lemma_plain_stays(done, "&amp;"@, "&"@);
}

proof fn lemma_long_mark_resolves(front: Seq<char>, back: Seq<char>)
    requires
        has_no_reference(front),
        has_no_reference(back),
    ensures
        resolve_references(front + "&#039;"@ + back) == front + "'"@ + back,
{
    reveal_strlit("&nbsp;");
    reveal_strlit("&quot;");
    reveal_strlit("&#39;");
    reveal_strlit("&#039;");
    reveal_strlit("&#x27;");
    reveal_strlit("&lt;");
    reveal_strlit("&gt;");
    reveal_strlit("&amp;");
    reveal_strlit(" ");
    reveal_strlit("\"");
    reveal_strlit("'");
    reveal_strlit("<");
    reveal_strlit(">");
    reveal_strlit("&");
    lemma_other_stays(front, "&#039;"@, back, "&nbsp;"@, " "@, 1);
    lemma_other_stays(front, "&#039;"@, back, "&quot;"@, "\""@, 1);
    lemma_other_stays(front, "&#039;"@, back, "&#39;"@, "'"@, 2);
    lemma_same_goes(front, back, "&#039;"@, "'"@);
    let done = front + "'"@ + back;
    assert forall|i: int| 0 <= i < done.len() implies #[trigger] done[i] != '&' by {
        if i < front.len() {
            assert(front[i] != '&');
        } else if i >= front.len() + 1 {
            assert(back[i - front.len() - 1] != '&');
        }
    }
    lemma_plain_stays(done, "&#x27;"@, "'"@);
    lemma_plain_stays(done, "&lt;"@, "<"@);
    lemma_plain_stays(done, "&gt;"@, ">"@);
    lemma_plain_stays(done, "&amp;"@, "&"@);
}

proof fn lemma_hex_mark_resolves(front: Seq<char>, back: Seq<char>)
    requires
        has_no_reference(front),
        has_no_reference(back),
    ensures
        resolve_references(front + "&#x27;"@ + back) == front + "'"@ + back,
{
    reveal_strlit("&nbsp;");
    reveal_strlit("&quot;");
    reveal_strlit("&#39;");
    reveal_strlit("&#039;");
    reveal_strlit("&#x27;");
    reveal_strlit("&lt;");
    reveal_strlit("&gt;");
    reveal_strlit("&amp;");
    reveal_strlit(" ");
    reveal_strlit("\"");
    reveal_strlit("'");
    reveal_strlit("<");
    reveal_strlit(">");
    reveal_strlit("&");
    lemma_other_stays(front, "&#x27;"@, back, "&nbsp;"@, " "@, 1);
    lemma_other_stays(front, "&#x27;"@, back, "&quot;"@, "\""@, 1);
    lemma_other_stays(front, "&#x27;"@, back, "&#39;"@, "'"@, 2);
    lemma_other_stays(front, "&#x27;"@, back, "&#039;"@, "'"@, 2);
    lemma_same_goes(front, back, "&#x27;"@, "'"@);
    let done = front + "'"@ + back;
    assert forall|i: int| 0 <= i < done.len() implies #[trigger] done[i] != '&' by {
        if i < front.len() {
            assert(front[i] != '&');
        } else if i >= front.len() + 1 {
            assert(back[i - front.len() - 1] != '&');
        }
    }
    lemma_plain_stays(done, "&lt;"@, "<"@);
    lemma_plain_stays(done, "&gt;"@, ">"@);
    lemma_plain_stays(done, "&amp;"@, "&"@);
}

proof fn lemma_less_resolves(front: Seq<char>, back: Seq<char>)
    requires
        has_no_reference(front),
        has_no_reference(back),
    ensures
        resolve_references(front + "&lt;"@ + back) == front + "<"@ + back,
{
    reveal_strlit("&nbsp;");
    reveal_strlit("&quot;");
    reveal_strlit("&#39;");
    reveal_strlit("&#039;");
    reveal_strlit("&#x27;");
    reveal_strlit("&lt;");
    reveal_strlit("&gt;");
    reveal_strlit("&amp;");
    reveal_strlit(" ");
    reveal_strlit("\"");
    reveal_strlit("'");
    reveal_strlit("<");
    reveal_strlit(">");
    reveal_strlit("&");
    lemma_other_stays(front, "&lt;"@, back, "&nbsp;"@, " "@, 1);
    lemma_other_stays(front, "&lt;"@, back, "&quot;"@, "\""@, 1);
    lemma_other_stays(front, "&lt;"@, back, "&#39;"@, "'"@, 1);
    lemma_other_stays(front, "&lt;"@, back, "&#039;"@, "'"@, 1);
    lemma_other_stays(front, "&lt;"@, back, "&#x27;"@, "'"@, 1);
    lemma_same_goes(front, back, "&lt;"@, "<"@);
    let done = front + "<"@ + back;
    assert forall|i: int| 0 <= i < done.len() implies #[trigger] done[i] != '&' by {
        if i < front.len() {
            assert(front[i] != '&');
        } else if i >= front.len() + 1 {
            assert(back[i - front.len() - 1] != '&');
        }
    }
    lemma_plain_stays(done, "&gt;"@, ">"@);
    lemma_plain_stays(done, "&amp;"@, "&"@);
}

proof fn lemma_greater_resolves(front: Seq<char>, back: Seq<char>)
    requires
        has_no_reference(front),
        has_no_reference(back),
    ensures
        resolve_references(front + "&gt;"@ + back) == front + ">"@ + back,
{
    reveal_strlit("&nbsp;");
    reveal_strlit("&quot;");
    reveal_strlit("&#39;");
    reveal_strlit("&#039;");
    reveal_strlit("&#x27;");
    reveal_strlit("&lt;");
    reveal_strlit("&gt;");
    reveal_strlit("&amp;");
    reveal_strlit(" ");
    reveal_strlit("\"");
    reveal_strlit("'");
    reveal_strlit("<");
    reveal_strlit(">");
    reveal_strlit("&");
    lemma_other_stays(front, "&gt;"@, back, "&nbsp;"@, " "@, 1);
    lemma_other_stays(front, "&gt;"@, back, "&quot;"@, "\""@, 1);
    lemma_other_stays(front, "&gt;"@, back, "&#39;"@, "'"@, 1);
    lemma_other_stays(front, "&gt;"@, back, "&#039;"@, "'"@, 1);
    lemma_other_stays(front, "&gt;"@, back, "&#x27;"@, "'"@, 1);
    lemma_other_stays(front, "&gt;"@, back, "&lt;"@, "<"@, 1);
    lemma_same_goes(front, back, "&gt;"@, ">"@);
    let done = front + ">"@ + back;
    assert forall|i: int| 0 <= i < done.len() implies #[trigger] done[i] != '&' by {
        if i < front.len() {
            assert(front[i] != '&');
        } else if i >= front.len() + 1 {
            assert(back[i - front.len() - 1] != '&');
        }
    }
    lemma_plain_stays(done, "&amp;"@, "&"@);
}

proof fn lemma_ampersand_resolves(front: Seq<char>, back: Seq<char>)
    requires
        has_no_reference(front),
        has_no_reference(back),
    ensures
        resolve_references(front + "&amp;"@ + back) == front + "&"@ + back,
{
    reveal_strlit("&nbsp;");
    reveal_strlit("&quot;");
    reveal_strlit("&#39;");
    reveal_strlit("&#039;");
    reveal_strlit("&#x27;");
    reveal_strlit("&lt;");
    reveal_strlit("&gt;");
    reveal_strlit("&amp;");
    reveal_strlit(" ");
    reveal_strlit("\"");
    reveal_strlit("'");
    reveal_strlit("<");
    reveal_strlit(">");
    reveal_strlit("&");
    lemma_other_stays(front, "&amp;"@, back, "&nbsp;"@, " "@, 1);
    lemma_other_stays(front, "&amp;"@, back, "&quot;"@, "\""@, 1);
    lemma_other_stays(front, "&amp;"@, back, "&#39;"@, "'"@, 1);
    lemma_other_stays(front, "&amp;"@, back, "&#039;"@, "'"@, 1);
    lemma_other_stays(front, "&amp;"@, back, "&#x27;"@, "'"@, 1);
    lemma_other_stays(front, "&amp;"@, back, "&lt;"@, "<"@, 1);
    lemma_other_stays(front, "&amp;"@, back, "&gt;"@, ">"@, 1);
    lemma_same_goes(front, back, "&amp;"@, "&"@);
}

/// A character reference between texts without an ampersand is the character it
/// stands for, and nothing around it changes. What an ampersand leads after its
/// reference is resolved stays as it is.
pub proof fn references_stand_for_their_character(front: Seq<char>, back: Seq<char>)
    requires
        forall|i: int| 0 <= i < front.len() ==> #[trigger] front[i] != '&',
        forall|i: int| 0 <= i < back.len() ==> #[trigger] back[i] != '&',
    ensures
        resolve_references(front) == front,
        resolve_references(front + "&nbsp;"@ + back) == front + " "@ + back,
        resolve_references(front + "&quot;"@ + back) == front + "\""@ + back,
        resolve_references(front + "&#39;"@ + back) == front + "'"@ + back,
        resolve_references(front + "&#039;"@ + back) == front + "'"@ + back,
        resolve_references(front + "&#x27;"@ + back) == front + "'"@ + back,
        resolve_references(front + "&lt;"@ + back) == front + "<"@ + back,
        resolve_references(front + "&gt;"@ + back) == front + ">"@ + back,
        resolve_references(front + "&amp;"@ + back) == front + "&"@ + back,
{
    reveal_strlit("&nbsp;");
    reveal_strlit("&quot;");
    reveal_strlit("&#39;");
    reveal_strlit("&#039;");
    reveal_strlit("&#x27;");
    reveal_strlit("&lt;");
    reveal_strlit("&gt;");
    reveal_strlit("&amp;");
    lemma_plain_stays(front, "&nbsp;"@, " "@);
    lemma_plain_stays(front, "&quot;"@, "\""@);
    lemma_plain_stays(front, "&#39;"@, "'"@);
    lemma_plain_stays(front, "&#039;"@, "'"@);
    lemma_plain_stays(front, "&#x27;"@, "'"@);
    lemma_plain_stays(front, "&lt;"@, "<"@);
    lemma_plain_stays(front, "&gt;"@, ">"@);
    lemma_plain_stays(front, "&amp;"@, "&"@);
    lemma_nbsp_resolves(front, back);
    lemma_quot_resolves(front, back);
    lemma_short_mark_resolves(front, back);
    lemma_long_mark_resolves(front, back);
    lemma_hex_mark_resolves(front, back);
    lemma_less_resolves(front, back);
    lemma_greater_resolves(front, back);
    lemma_ampersand_resolves(front, back);
}

/// The snippet of a result is the visible text between the next tag end behind its
/// mark and the end of its cell.
pub proof fn snippets_stand_in_their_cell(s: Seq<char>, from: int, at: int, open: int, close: int)
    requires
        seek(s, "result-snippet"@, from) == Some(at),
        seek(s, ">"@, at) == Some(open),
        seek(s, "</td>"@, at) == Some(close),
    ensures
        open < close ==> snippet_after(s, from) == visible_text(s.subrange(open + 1, close)),
        open >= close ==> snippet_after(s, from).len() == 0,
{
}

/// The value of an attribute stands between its opening quote and the next one of the
/// same kind; double quotes are looked for first.
pub proof fn attributes_stand_between_their_quotes(tag: Seq<char>, at: int, end: int)
    requires
        0 <= at,
    ensures
        seek(tag, "href=\""@, 0) == Some(at) && seek(tag, "\""@, at + 6) == Some(end) ==> href_of(tag)
            == Some(tag.subrange(at + 6, end)),
        seek(tag, "href=\""@, 0) is None && seek(tag, "href='"@, 0) == Some(at) && seek(
            tag,
            "'"@,
            at + 6,
        ) == Some(end) ==> href_of(tag) == Some(tag.subrange(at + 6, end)),
        seek(tag, "href=\""@, 0) is None && seek(tag, "href='"@, 0) is None ==> href_of(tag) is None,
{
    reveal_strlit("href=\"");
    reveal_strlit("href='");
}

/// The name of a tag is what stands behind its slashes up to the first character that
/// is neither a letter nor a digit, in lower case.
pub proof fn tags_are_named_by_their_first_word(slashes: Seq<char>, name: Seq<char>, rest: Seq<char>)
    requires
        forall|i: int| 0 <= i < slashes.len() ==> #[trigger] slashes[i] == '/',
        name.len() > 0,
        forall|i: int|
            0 <= i < name.len() ==> is_ascii_letter(#[trigger] name[i]) || is_digit(name[i]),
        rest.len() > 0 ==> !is_ascii_letter(rest[0]) && !is_digit(rest[0]),
    ensures
        tag_name(slashes + name + rest) == ascii_lowercase(name),
{
    lemma_slashes(slashes, name + rest);
    assert(slashes + name + rest =~= slashes + (name + rest));
    assert(name[0] != '/') by {
        assert(is_ascii_letter(name[0]) || is_digit(name[0]));
    }
    lemma_leading_word(name, rest);
}

proof fn lemma_slashes(slashes: Seq<char>, s: Seq<char>)
    requires
        forall|i: int| 0 <= i < slashes.len() ==> #[trigger] slashes[i] == '/',
    ensures
        without_slashes(slashes + s) == without_slashes(s),
    decreases slashes.len(),
{
    if slashes.len() == 0 {
        assert(slashes + s =~= s);
    } else {
        assert((slashes + s)[0] == slashes[0]);
        assert((slashes + s).drop_first() =~= slashes.drop_first() + s);
        assert forall|i: int| 0 <= i < slashes.drop_first().len() implies #[trigger] slashes.drop_first()[i]
            == '/' by {
            assert(slashes[i + 1] == '/');
        }
        lemma_slashes(slashes.drop_first(), s);
    }
}

proof fn lemma_leading_word(name: Seq<char>, rest: Seq<char>)
    requires
        forall|i: int|
            0 <= i < name.len() ==> is_ascii_letter(#[trigger] name[i]) || is_digit(name[i]),
        rest.len() > 0 ==> !is_ascii_letter(rest[0]) && !is_digit(rest[0]),
    ensures
        leading_word(name + rest) == name,
    decreases name.len(),
{
    let whole = name + rest;
    if name.len() == 0 {
        assert(whole =~= rest);
        assert(leading_word(rest) =~= name);
    } else {
        assert(whole[0] == name[0]);
        assert(whole.drop_first() =~= name.drop_first() + rest);
        assert forall|i: int| 0 <= i < name.drop_first().len() implies is_ascii_letter(
            #[trigger] name.drop_first()[i],
        ) || is_digit(name.drop_first()[i]) by {
            assert(is_ascii_letter(name[i + 1]) || is_digit(name[i + 1]));
        }
        lemma_leading_word(name.drop_first(), rest);
        assert(seq![name[0]] + name.drop_first() =~= name);
    }
}

/// The label of a link is the front of its visible text, of at most 60 characters.
pub proof fn labels_are_short(inner: Seq<char>)
    ensures
        visible_text(inner).len() <= 60 ==> link_label(inner) == trim(visible_text(inner)),
        visible_text(inner).len() > 60 ==> link_label(inner) == trim(visible_text(inner).take(60)),
{
}

} // verus!
