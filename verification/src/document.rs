//! The nodes of a parsed page: ancestry, visible text and selection by tag.

use crate::text::{
    chars_of, collapse, collapsed, join, join_chars, push_text, same, texts,
};
use vstd::prelude::*;

verus! {

/// A node of a page. The nodes of a page stand in document order, and `depth`
/// counts the ancestors of a node.
#[derive(Debug, PartialEq, Eq)]
pub struct HtmlNode {
    pub depth: usize,
    /// The tag of an element.
    pub name: Option<String>,
    /// The text of a text node.
    pub text: Option<String>,
    pub id: Option<String>,
    pub class: Option<String>,
    pub role: Option<String>,
    pub content: Option<String>,
}

/// The nodes of the document that `scraper::Html::parse_document` builds, in
/// document order from the root on.
pub uninterp spec fn page_nodes(html: Seq<char>) -> Seq<HtmlNode>;

/// The positions, among the nodes in document order, of the elements that
/// `scraper::Html::select` finds in a page, in the order in which it finds them.
pub uninterp spec fn page_selection(html: Seq<char>, selector: Seq<char>) -> Seq<usize>;

/// `scraper::Html::parse_document`: the nodes that are reached from the root of
/// the document, in document order, each with its depth, tag, text and
/// attributes. They depend on the markup alone, and the root is one of them.
#[verifier::external_body]
pub(crate) fn html_nodes(html: &str) -> (r: Vec<HtmlNode>)
    ensures
        r@ == page_nodes(html@),
        r@.len() > 0,
{
    let page = scraper::Html::parse_document(html);
    page.tree.root().descendants().map(|node| {
        let element = node.value().as_element();
        HtmlNode {
            depth: node.ancestors().count(),
            name: element.map(|e| e.name().to_string()),
            text: node.value().as_text().map(|t| t.to_string()),
            id: element.and_then(|e| e.attr("id")).map(str::to_string),
            class: element.and_then(|e| e.attr("class")).map(str::to_string),
            role: element.and_then(|e| e.attr("role")).map(str::to_string),
            content: element.and_then(|e| e.attr("content")).map(str::to_string),
        }
    }).collect()
}

/// `scraper::Html::select`: the positions, among the nodes in document order, of
/// the elements that a selector matches, in the order in which they are found.
/// They depend on the markup and the selector alone. An element that is not
/// reached from the root has the number of nodes as its position, and a
/// selector that cannot be parsed matches nothing.
#[verifier::external_body]
pub(crate) fn html_selection(html: &str, selector: &str) -> (r: Vec<usize>)
    ensures
        r@ == page_selection(html@, selector@),
{
    let page = scraper::Html::parse_document(html);
    let order: Vec<_> = page.tree.root().descendants().map(|node| node.id()).collect();
    match scraper::Selector::parse(selector) {
        Ok(query) => page.select(&query).map(|element| {
            order.iter().position(|id| *id == element.id()).unwrap_or(order.len())
        }).collect(),
        Err(_) => Vec::new(),
    }
}

/// Node `a` encloses node `i`.
pub open spec fn encloses(nodes: Seq<HtmlNode>, a: int, i: int) -> bool {
    &&& 0 <= a < i
    &&& forall|k: int| a < k <= i ==> (#[trigger] nodes[k]).depth > nodes[a].depth
}

/// A marked node from `from` on encloses node `i`.
pub open spec fn under_mark(nodes: Seq<HtmlNode>, marks: Seq<bool>, from: int, i: int) -> bool {
    exists|a: int| from <= a < i && marks[a] && #[trigger] encloses(nodes, a, i)
}

pub open spec fn is_tag(node: HtmlNode, tag: Seq<char>) -> bool {
    match node.name {
        Some(name) => name@ == tag,
        None => false,
    }
}

pub open spec fn has_tag(node: HtmlNode, tags: Seq<&str>) -> bool {
    exists|i: int| 0 <= i < tags.len() && is_tag(node, (#[trigger] tags[i])@)
}

pub fn tag_among(node: &HtmlNode, tags: &[&str]) -> (r: bool)
    ensures
        r == has_tag(*node, tags@),
{
    match &node.name {
        Some(name) => {
            let mut i: usize = 0;
            while i < tags.len()
                invariant
                    i <= tags@.len(),
                    node.name == Some(*name),
                    forall|k: int| 0 <= k < i ==> !is_tag(*node, (#[trigger] tags@[k])@),
                decreases tags@.len() - i,
            {
                if same(name.as_str(), tags[i]) {
                    assert(is_tag(*node, tags@[i as int]@));
                    return true;
                }
                i = i + 1;
            }
            false
        },
        None => false,
    }
}

/// Which nodes stand under a marked node from `from` on.
pub fn marked_cover(nodes: &Vec<HtmlNode>, marks: &Vec<bool>, from: usize) -> (r: Vec<bool>)
    requires
        marks@.len() == nodes@.len(),
    ensures
        r@.len() == nodes@.len(),
        forall|i: int| 0 <= i < r@.len() ==> #[trigger] r@[i] == under_mark(
            nodes@,
            marks@,
            from as int,
            i,
        ),
{
    let mut cover: Vec<bool> = Vec::new();
    let mut open: Option<usize> = None;
    let mut i: usize = 0;
    while i < nodes.len()
        invariant
            i <= nodes@.len(),
            marks@.len() == nodes@.len(),
            cover@.len() == i,
            forall|k: int| 0 <= k < i ==> #[trigger] cover@[k] == under_mark(
                nodes@,
                marks@,
                from as int,
                k,
            ),
            match open {
                Some(d) => {
                    &&& exists|a: int|
                        from <= a < i && marks@[a] && (#[trigger] nodes@[a]).depth == d && (forall|
                            k: int,
                        |
                            a < k < i ==> (#[trigger] nodes@[k]).depth > d)
                    &&& forall|b: int|
                        #![trigger marks@[b]]
                        from <= b < i && marks@[b] && (forall|k: int|
                            b < k < i ==> (#[trigger] nodes@[k]).depth > nodes@[b].depth)
                            ==> nodes@[b].depth >= d
                },
                None => forall|b: int|
                    #![trigger marks@[b]]
                    from <= b < i && marks@[b] ==> !(forall|k: int|
                        b < k < i ==> (#[trigger] nodes@[k]).depth > nodes@[b].depth),
            },
        decreases nodes@.len() - i,
    {
        let depth = nodes[i].depth;
        let ghost was = open;
        let inside = match open {
            Some(d) => depth > d,
            None => false,
        };
        proof {
            if inside {
                let d = open->0;
                let a = choose|a: int|
                    from <= a < i && marks@[a] && (#[trigger] nodes@[a]).depth == d && (forall|
                        k: int,
                    |
                        a < k < i ==> (#[trigger] nodes@[k]).depth > d);
                assert(encloses(nodes@, a, i as int));
                assert(under_mark(nodes@, marks@, from as int, i as int));
            } else if under_mark(nodes@, marks@, from as int, i as int) {
                let a = choose|a: int|
                    from <= a < i && marks@[a] && #[trigger] encloses(nodes@, a, i as int);
                assert(nodes@[i as int].depth > nodes@[a].depth);
                assert(marks@[a]);
                assert(forall|k: int| a < k < i ==> (#[trigger] nodes@[k]).depth > nodes@[a].depth);
            }
        }
        cover.push(inside);
        if !inside {
            if from <= i && marks[i] {
                open = Some(depth);
                proof {
                    assert(nodes@[i as int].depth == depth);
                }
            } else {
                open = None;
            }
        }
        proof {
            let next = i as int + 1;
            assert forall|b: int|
                #![trigger marks@[b]]
                from <= b < i && marks@[b] && (forall|k: int|
                    b < k < next ==> (#[trigger] nodes@[k]).depth > nodes@[b].depth) implies (
            inside && nodes@[b].depth >= was->0) by {
                assert(forall|k: int| b < k < i ==> (#[trigger] nodes@[k]).depth > nodes@[b].depth);
                assert(nodes@[i as int].depth > nodes@[b].depth);
            }
            if inside {
                let d = was->0;
                let a = choose|a: int|
                    from <= a < i && marks@[a] && (#[trigger] nodes@[a]).depth == d && (forall|
                        k: int,
                    |
                        a < k < i ==> (#[trigger] nodes@[k]).depth > d);
                assert(nodes@[a].depth == d);
                assert(forall|k: int| a < k < next ==> (#[trigger] nodes@[k]).depth > d);
            }
        }
        i = i + 1;
    }
    cover
}

/// The first node behind `i`, from `k` on, that node `i` does not enclose.
pub open spec fn subtree_from(nodes: Seq<HtmlNode>, i: int, k: int) -> int
    decreases nodes.len() - k,
{
    if k >= nodes.len() {
        nodes.len() as int
    } else if nodes[k].depth <= nodes[i].depth {
        k
    } else {
        subtree_from(nodes, i, k + 1)
    }
}

/// The end of the nodes that node `i` encloses.
pub open spec fn subtree_end(nodes: Seq<HtmlNode>, i: int) -> int {
    subtree_from(nodes, i, i + 1)
}

pub fn end_of(nodes: &Vec<HtmlNode>, i: usize) -> (r: usize)
    requires
        i < nodes@.len(),
    ensures
        r == subtree_end(nodes@, i as int),
        i < r <= nodes@.len(),
{
    let n: usize = nodes.len();
    let mut k: usize = i + 1;
    while k < n && nodes[k].depth > nodes[i].depth
        invariant
            i < k <= nodes@.len(),
            n == nodes@.len(),
            subtree_end(nodes@, i as int) == subtree_from(nodes@, i as int, k as int),
        decreases nodes@.len() - k,
    {
        k = k + 1;
    }
    k
}

/// Elements whose text is never shown.
pub open spec fn silent_tags() -> Seq<&'static str> {
    seq!["script", "style", "noscript", "template"]
}

pub open spec fn silent_marks(nodes: Seq<HtmlNode>) -> Seq<bool> {
    Seq::new(nodes.len(), |i: int| has_tag(nodes[i], silent_tags()))
}

/// A node of an element whose text is never shown.
pub open spec fn is_silent(nodes: Seq<HtmlNode>, i: int) -> bool {
    under_mark(nodes, silent_marks(nodes), 0, i)
}

pub open spec fn silent_flags(nodes: Seq<HtmlNode>) -> Seq<bool> {
    Seq::new(nodes.len(), |i: int| is_silent(nodes, i))
}

pub fn silent_nodes(nodes: &Vec<HtmlNode>) -> (r: Vec<bool>)
    ensures
        r@ == silent_flags(nodes@),
{
    let tags = ["script", "style", "noscript", "template"];
    proof {
        assert(tags@ =~= silent_tags());
    }
    let mut marks: Vec<bool> = Vec::new();
    let mut i: usize = 0;
    while i < nodes.len()
        invariant
            i <= nodes@.len(),
            tags@ == silent_tags(),
            marks@ =~= silent_marks(nodes@).take(i as int),
        decreases nodes@.len() - i,
    {
        marks.push(tag_among(&nodes[i], &tags));
        i = i + 1;
    }
    proof {
        assert(marks@ =~= silent_marks(nodes@));
    }
    let cover = marked_cover(nodes, &marks, 0);
    proof {
        assert(cover@ =~= silent_flags(nodes@));
    }
    cover
}

/// The shown texts of the nodes from `from` to `to`.
pub open spec fn shown_texts(nodes: Seq<HtmlNode>, from: int, to: int) -> Seq<Seq<char>>
    decreases to - from,
{
    if to <= from {
        Seq::empty()
    } else {
        let before = shown_texts(nodes, from, to - 1);
        match nodes[to - 1].text {
            Some(text) => if is_silent(nodes, to - 1) {
                before
            } else {
                before.push(text@)
            },
            None => before,
        }
    }
}

/// The shown text of an element, with one space between words.
pub open spec fn element_text(nodes: Seq<HtmlNode>, i: int) -> Seq<char> {
    collapse(join(shown_texts(nodes, i, subtree_end(nodes, i)), " "@))
}

pub fn text_of_element(nodes: &Vec<HtmlNode>, silent: &Vec<bool>, i: usize) -> (r: Vec<char>)
    requires
        i < nodes@.len(),
        silent@ == silent_flags(nodes@),
    ensures
        r@ == element_text(nodes@, i as int),
{
    let end = end_of(nodes, i);
    let mut parts: Vec<Vec<char>> = Vec::new();
    let mut k: usize = i;
    proof {
        assert(texts(parts@) =~= Seq::empty());
    }
    while k < end
        invariant
            i <= k <= end <= nodes@.len(),
            silent@ == silent_flags(nodes@),
            texts(parts@) == shown_texts(nodes@, i as int, k as int),
        decreases end - k,
    {
        if let Some(text) = &nodes[k].text {
            if !silent[k] {
                let ghost before = parts@;
                let chars = chars_of(text.as_str());
                let ghost value = chars@;
                parts.push(chars);
                proof {
                    assert(texts(parts@) =~= texts(before).push(value));
                }
            }
        }
        k = k + 1;
    }
    let joined = join_chars(&parts, " ");
    collapsed(&joined)
}

/// All text of the nodes from `from` to `to`, shown or not.
pub open spec fn raw_text(nodes: Seq<HtmlNode>, from: int, to: int) -> Seq<char>
    decreases to - from,
{
    if to <= from {
        Seq::empty()
    } else {
        let before = raw_text(nodes, from, to - 1);
        match nodes[to - 1].text {
            Some(text) => before + text@,
            None => before,
        }
    }
}

pub fn raw_text_of(nodes: &Vec<HtmlNode>, i: usize) -> (r: Vec<char>)
    requires
        i < nodes@.len(),
    ensures
        r@ == raw_text(nodes@, i as int, subtree_end(nodes@, i as int)),
{
    let end = end_of(nodes, i);
    let mut out: Vec<char> = Vec::new();
    let mut k: usize = i;
    proof {
        assert(out@ =~= Seq::empty());
    }
    while k < end
        invariant
            i <= k <= end <= nodes@.len(),
            out@ == raw_text(nodes@, i as int, k as int),
        decreases end - k,
    {
        if let Some(text) = &nodes[k].text {
            push_text(&mut out, text.as_str());
        }
        k = k + 1;
    }
    out
}

/// The elements with one of these tags from `from` to `to`.
pub open spec fn tagged(nodes: Seq<HtmlNode>, tags: Seq<&str>, from: int, to: int) -> Seq<int>
    decreases to - from,
{
    if to <= from {
        Seq::empty()
    } else {
        let before = tagged(nodes, tags, from, to - 1);
        if has_tag(nodes[to - 1], tags) {
            before.push(to - 1)
        } else {
            before
        }
    }
}

/// The elements with one of these tags that an element encloses.
pub open spec fn tagged_within(nodes: Seq<HtmlNode>, tags: Seq<&str>, i: int) -> Seq<int> {
    tagged(nodes, tags, i + 1, subtree_end(nodes, i))
}

pub open spec fn positions(list: Seq<usize>) -> Seq<int> {
    Seq::new(list.len(), |i: int| list[i] as int)
}

pub open spec fn all_below(list: Seq<usize>, n: int) -> bool {
    forall|i: int| 0 <= i < list.len() ==> #[trigger] list[i] < n
}

pub fn tagged_in_element(nodes: &Vec<HtmlNode>, tags: &[&str], i: usize) -> (r: Vec<usize>)
    requires
        i < nodes@.len(),
    ensures
        positions(r@) == tagged_within(nodes@, tags@, i as int),
        all_below(r@, nodes@.len() as int),
{
    let end = end_of(nodes, i);
    let mut found: Vec<usize> = Vec::new();
    let mut k: usize = i + 1;
    proof {
        assert(positions(found@) =~= Seq::empty());
    }
    while k < end
        invariant
            i < k <= end <= nodes@.len(),
            positions(found@) == tagged(nodes@, tags@, i as int + 1, k as int),
            all_below(found@, nodes@.len() as int),
        decreases end - k,
    {
        if tag_among(&nodes[k], tags) {
            let ghost before = found@;
            found.push(k);
            proof {
                assert(positions(found@) =~= positions(before).push(k as int));
            }
        }
        k = k + 1;
    }
    found
}

/// The texts of several elements.
pub open spec fn element_texts(nodes: Seq<HtmlNode>, list: Seq<int>) -> Seq<Seq<char>> {
    Seq::new(list.len(), |i: int| element_text(nodes, list[i]))
}

pub fn texts_of_elements(nodes: &Vec<HtmlNode>, silent: &Vec<bool>, list: &Vec<usize>) -> (r: Vec<
    Vec<char>,
>)
    requires
        silent@ == silent_flags(nodes@),
        all_below(list@, nodes@.len() as int),
    ensures
        texts(r@) == element_texts(nodes@, positions(list@)),
{
    let mut out: Vec<Vec<char>> = Vec::new();
    let mut i: usize = 0;
    while i < list.len()
        invariant
            i <= list@.len(),
            silent@ == silent_flags(nodes@),
            all_below(list@, nodes@.len() as int),
            out@.len() == i,
            forall|k: int|
                0 <= k < i ==> (#[trigger] out@[k])@ == element_text(nodes@, list@[k] as int),
        decreases list@.len() - i,
    {
        let at = list[i];
        out.push(text_of_element(nodes, silent, at));
        i = i + 1;
    }
    proof {
        assert(texts(out@) =~= element_texts(nodes@, positions(list@)));
    }
    out
}

} // verus!
