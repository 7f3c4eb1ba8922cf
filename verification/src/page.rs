//! The main content of a page: readable blocks and structured claims.

use crate::document::{
    all_below, element_text, element_texts, has_tag, html_nodes, html_selection, marked_cover,
    page_nodes, page_selection, positions, raw_text, raw_text_of, silent_flags, silent_nodes,
    subtree_end, tag_among, tagged_in_element, tagged_within, text_of_element, texts_of_elements,
    under_mark, HtmlNode,
};
use crate::jsonld::{claims_of_scripts, script_claims};
use crate::numeric::{
    labelled_value_claim, row_claim, structured_cells_to_claim, value_claim,
};
use crate::passages::{
    bounded_passages, dedup_chars, dedup_key, first_texts, is_boilerplate_text,
    split_bounded_passages, text_is_cookie_or_menu_boilerplate, MainContent,
};
use crate::relevance::{basis_points, share};
use crate::text::{
    any_term, ascii_lowercase, chars_of, collapse, collapsed, contains_any, copy_chars,
    lower_ascii, push_text, same_chars, starts_with, string_of, strings, texts,
};
use crate::weburl::WebUrl;
use vstd::prelude::*;

verus! {

/// A parsed page: its nodes in document order, and the positions of the
/// elements that matter to reading it, in the order of selection.
#[derive(Debug, PartialEq, Eq)]
pub struct HtmlPage {
    pub nodes: Vec<HtmlNode>,
    pub mains: Vec<usize>,
    pub bodies: Vec<usize>,
    pub titles: Vec<usize>,
    pub descriptions: Vec<usize>,
    pub scripts: Vec<usize>,
}

pub struct PageModel {
    pub nodes: Seq<HtmlNode>,
    pub mains: Seq<int>,
    pub bodies: Seq<int>,
    pub titles: Seq<int>,
    pub descriptions: Seq<int>,
    pub scripts: Seq<int>,
}

impl View for HtmlPage {
    type V = PageModel;

    open spec fn view(&self) -> PageModel {
        PageModel {
            nodes: self.nodes@,
            mains: positions(self.mains@),
            bodies: positions(self.bodies@),
            titles: positions(self.titles@),
            descriptions: positions(self.descriptions@),
            scripts: positions(self.scripts@),
        }
    }
}

impl HtmlPage {
    /// A page has a node, and its positions are those of nodes.
    pub open spec fn well_formed(&self) -> bool {
        &&& self.nodes@.len() > 0
        &&& all_below(self.mains@, self.nodes@.len() as int)
        &&& all_below(self.bodies@, self.nodes@.len() as int)
        &&& all_below(self.titles@, self.nodes@.len() as int)
        &&& all_below(self.descriptions@, self.nodes@.len() as int)
        &&& all_below(self.scripts@, self.nodes@.len() as int)
    }
}

/// The element with the longest text, the last of several.
pub open spec fn longest(nodes: Seq<HtmlNode>, list: Seq<int>) -> Option<int>
    decreases list.len(),
{
    if list.len() == 0 {
        None
    } else {
        match longest(nodes, list.drop_last()) {
            Some(best) => if element_text(nodes, list.last()).len() >= element_text(
                nodes,
                best,
            ).len() {
                Some(list.last())
            } else {
                Some(best)
            },
            None => Some(list.last()),
        }
    }
}

/// The first element below the document, from `k` on.
pub open spec fn top_element(nodes: Seq<HtmlNode>, k: int) -> int
    decreases nodes.len() - k,
{
    if k >= nodes.len() {
        0
    } else if nodes[k].depth == 1 && nodes[k].name is Some {
        k
    } else {
        top_element(nodes, k + 1)
    }
}

/// The element that is read: the longest main element, else the body.
pub open spec fn content_root(page: PageModel) -> int {
    match longest(page.nodes, page.mains) {
        Some(main) => main,
        None => if page.bodies.len() > 0 {
            page.bodies[0]
        } else {
            top_element(page.nodes, 0)
        },
    }
}

pub open spec fn boilerplate_tags() -> Seq<&'static str> {
    seq![
        "script",
        "style",
        "noscript",
        "nav",
        "header",
        "footer",
        "aside",
        "form",
        "button",
        "menu",
    ]
}

pub open spec fn boilerplate_terms() -> Seq<&'static str> {
    seq![
        "nav",
        "menu",
        "header",
        "footer",
        "sidebar",
        "cookie",
        "consent",
        "banner",
        "breadcrumb",
        "toolbar",
        "masthead",
        "mw-panel",
        "toc",
    ]
}

pub open spec fn attribute_text(value: Option<String>) -> Seq<char> {
    match value {
        Some(text) => text@,
        None => Seq::empty(),
    }
}

pub open spec fn marker(node: HtmlNode) -> Seq<char> {
    ascii_lowercase(
        attribute_text(node.id) + " "@ + attribute_text(node.class) + " "@ + attribute_text(
            node.role,
        ),
    )
}

/// An element of navigation, consent or other matter around the content.
pub open spec fn is_boilerplate(node: HtmlNode) -> bool {
    node.name is Some && (has_tag(node, boilerplate_tags()) || contains_any(
        marker(node),
        boilerplate_terms(),
    ))
}

pub open spec fn boilerplate_marks(nodes: Seq<HtmlNode>) -> Seq<bool> {
    Seq::new(nodes.len(), |i: int| is_boilerplate(nodes[i]))
}

/// Between the element and the root of the content stands boilerplate.
pub open spec fn in_boilerplate(nodes: Seq<HtmlNode>, root: int, i: int) -> bool {
    under_mark(nodes, boilerplate_marks(nodes), root + 1, i)
}

pub open spec fn block_tags() -> Seq<&'static str> {
    seq!["h1", "h2", "h3", "h4", "p", "blockquote", "figcaption", "li"]
}

pub open spec fn total_length(list: Seq<Seq<char>>) -> nat
    decreases list.len(),
{
    if list.len() == 0 {
        0
    } else {
        total_length(list.drop_last()) + list.last().len()
    }
}

/// More than 55 percent of the text is the text of links.
pub open spec fn is_link_list(nodes: Seq<HtmlNode>, i: int) -> bool {
    total_length(element_texts(nodes, tagged_within(nodes, seq!["a"], i))) * 100 / element_text(
        nodes,
        i,
    ).len() > 55
}

/// The element is read as a block of content.
pub open spec fn is_content_block(nodes: Seq<HtmlNode>, root: int, i: int) -> bool {
    &&& !in_boilerplate(nodes, root, i)
    &&& element_text(nodes, i).len() > 0
    &&& !is_boilerplate_text(element_text(nodes, i))
    &&& !is_link_list(nodes, i)
}

pub open spec fn has_key(blocks: Seq<Seq<char>>, key: Seq<char>) -> bool {
    exists|i: int| 0 <= i < blocks.len() && dedup_key(#[trigger] blocks[i]) == key
}

/// A block that says something new.
pub open spec fn with_block(blocks: Seq<Seq<char>>, text: Seq<char>) -> Seq<Seq<char>> {
    if has_key(blocks, dedup_key(text)) {
        blocks
    } else {
        blocks.push(text)
    }
}

pub open spec fn with_blocks(blocks: Seq<Seq<char>>, list: Seq<Seq<char>>) -> Seq<Seq<char>>
    decreases list.len(),
{
    if list.len() == 0 {
        blocks
    } else {
        with_block(with_blocks(blocks, list.drop_last()), list.last())
    }
}

/// The blocks among a list of elements, each text once.
pub open spec fn content_blocks(nodes: Seq<HtmlNode>, root: int, list: Seq<int>) -> Seq<Seq<char>>
    decreases list.len(),
{
    if list.len() == 0 {
        Seq::empty()
    } else {
        let before = content_blocks(nodes, root, list.drop_last());
        if is_content_block(nodes, root, list.last()) {
            with_block(before, element_text(nodes, list.last()))
        } else {
            before
        }
    }
}

/// The first block that is short enough to be a heading.
pub open spec fn heading_block(blocks: Seq<Seq<char>>) -> Option<Seq<char>>
    decreases blocks.len(),
{
    if blocks.len() == 0 {
        None
    } else if blocks[0].len() <= 180 {
        Some(blocks[0])
    } else {
        heading_block(blocks.drop_first())
    }
}

/// One of two texts begins as the other.
pub open spec fn overlaps(a: Seq<char>, b: Seq<char>) -> bool {
    starts_with(a, b) || starts_with(b, a)
}

pub open spec fn without_key(blocks: Seq<Seq<char>>, key: Seq<char>) -> Seq<Seq<char>>
    decreases blocks.len(),
{
    if blocks.len() == 0 {
        Seq::empty()
    } else if dedup_key(blocks.last()) == key {
        without_key(blocks.drop_last(), key)
    } else {
        without_key(blocks.drop_last(), key).push(blocks.last())
    }
}

/// The title leads the blocks, unless a heading says it already.
pub open spec fn with_title(blocks: Seq<Seq<char>>, title: Seq<char>) -> Seq<Seq<char>> {
    let key = dedup_key(title);
    let known = match heading_block(blocks) {
        Some(heading) => overlaps(key, dedup_key(heading)),
        None => false,
    };
    if known {
        blocks
    } else {
        seq![title] + without_key(blocks, key)
    }
}

/// The text of the first element of a list, where it has one.
pub open spec fn first_element_text(nodes: Seq<HtmlNode>, list: Seq<int>) -> Option<Seq<char>> {
    if list.len() > 0 && element_text(nodes, list[0]).len() > 0 {
        Some(element_text(nodes, list[0]))
    } else {
        None
    }
}

/// Descriptions of the page in its metadata.
pub open spec fn described(nodes: Seq<HtmlNode>, list: Seq<int>) -> Seq<Seq<char>>
    decreases list.len(),
{
    if list.len() == 0 {
        Seq::empty()
    } else {
        let before = described(nodes, list.drop_last());
        match nodes[list.last()].content {
            Some(content) => if collapse(content@).len() >= 20 {
                before.push(collapse(content@))
            } else {
                before
            },
            None => before,
        }
    }
}

pub open spec fn first_positions(list: Seq<int>, n: int) -> Seq<int> {
    if list.len() <= n {
        list
    } else {
        list.take(n)
    }
}

pub open spec fn raw_texts(nodes: Seq<HtmlNode>, list: Seq<int>) -> Seq<Seq<char>> {
    Seq::new(list.len(), |i: int| raw_text(nodes, list[i], subtree_end(nodes, list[i])))
}

/// A cell of a table: whether it is a heading, and its text.
pub struct CellModel {
    pub heading: bool,
    pub text: Seq<char>,
}

/// The cells of a row that hold text.
pub open spec fn cells_in(nodes: Seq<HtmlNode>, list: Seq<int>) -> Seq<CellModel>
    decreases list.len(),
{
    if list.len() == 0 {
        Seq::empty()
    } else {
        let before = cells_in(nodes, list.drop_last());
        let text = element_text(nodes, list.last());
        if text.len() > 0 {
            before.push(CellModel { heading: has_tag(nodes[list.last()], seq!["th"]), text })
        } else {
            before
        }
    }
}

pub open spec fn row_cells(nodes: Seq<HtmlNode>, row: int) -> Seq<CellModel> {
    cells_in(nodes, tagged_within(nodes, seq!["th", "td"], row))
}

/// The rows that hold a cell.
pub open spec fn rows_in(nodes: Seq<HtmlNode>, list: Seq<int>) -> Seq<Seq<CellModel>>
    decreases list.len(),
{
    if list.len() == 0 {
        Seq::empty()
    } else {
        let before = rows_in(nodes, list.drop_last());
        let cells = row_cells(nodes, list.last());
        if cells.len() > 0 {
            before.push(cells)
        } else {
            before
        }
    }
}

pub open spec fn table_rows(nodes: Seq<HtmlNode>, table: int) -> Seq<Seq<CellModel>> {
    rows_in(nodes, tagged_within(nodes, seq!["tr"], table))
}

pub open spec fn cell_texts(row: Seq<CellModel>) -> Seq<Seq<char>> {
    Seq::new(row.len(), |i: int| row[i].text)
}

/// A row of two or more headings.
pub open spec fn is_header_row(row: Seq<CellModel>) -> bool {
    row.len() >= 2 && forall|i: int| 0 <= i < row.len() ==> (#[trigger] row[i]).heading
}

/// The claims of rows under a row of headings.
pub open spec fn headed_claims(
    context: Seq<char>,
    headers: Seq<Seq<char>>,
    rows: Seq<Seq<CellModel>>,
) -> Seq<Seq<char>>
    decreases rows.len(),
{
    if rows.len() == 0 {
        Seq::empty()
    } else {
        let before = headed_claims(context, headers, rows.drop_last());
        let row = rows.last();
        if row.len() != headers.len() {
            before
        } else {
            match row_claim(context, headers, cell_texts(row)) {
                Some(claim) => before.push(claim),
                None => before,
            }
        }
    }
}

/// The claims of rows of a heading and a value.
pub open spec fn labelled_claims(context: Seq<char>, rows: Seq<Seq<CellModel>>) -> Seq<Seq<char>>
    decreases rows.len(),
{
    if rows.len() == 0 {
        Seq::empty()
    } else {
        let before = labelled_claims(context, rows.drop_last());
        let row = rows.last();
        if row.len() != 2 || !row[0].heading || row[1].heading {
            before
        } else {
            match value_claim(context, row[0].text, row[1].text) {
                Some(claim) => before.push(
                    context + ": "@ + row[0].text + " "@ + row[1].text,
                ).push(claim),
                None => before,
            }
        }
    }
}

pub open spec fn table_claims(context: Seq<char>, rows: Seq<Seq<CellModel>>) -> Seq<Seq<char>> {
    if rows.len() > 0 && is_header_row(rows[0]) {
        headed_claims(context, cell_texts(rows[0]), rows.drop_first())
    } else {
        labelled_claims(context, rows)
    }
}

pub open spec fn tables_claims(
    nodes: Seq<HtmlNode>,
    tables: Seq<int>,
    context: Seq<char>,
) -> Seq<Seq<char>>
    decreases tables.len(),
{
    if tables.len() == 0 {
        Seq::empty()
    } else {
        tables_claims(nodes, tables.drop_last(), context) + table_claims(
            context,
            table_rows(nodes, tables.last()),
        )
    }
}

/// The claims of terms and their values, pair by pair.
pub open spec fn paired_claims(
    context: Seq<char>,
    terms: Seq<Seq<char>>,
    values: Seq<Seq<char>>,
    n: int,
) -> Seq<Seq<char>>
    decreases n,
{
    if n <= 0 {
        Seq::empty()
    } else {
        let before = paired_claims(context, terms, values, n - 1);
        match value_claim(context, terms[n - 1], values[n - 1]) {
            Some(claim) => before.push(claim),
            None => before,
        }
    }
}

pub open spec fn pair_count(terms: int, values: int) -> int {
    let least = if terms <= values {
        terms
    } else {
        values
    };
    if least <= 8 {
        least
    } else {
        8
    }
}

pub open spec fn list_claims(nodes: Seq<HtmlNode>, list: int, context: Seq<char>) -> Seq<Seq<char>> {
    let terms = element_texts(nodes, tagged_within(nodes, seq!["dt"], list));
    let values = element_texts(nodes, tagged_within(nodes, seq!["dd"], list));
    paired_claims(context, terms, values, pair_count(terms.len() as int, values.len() as int))
}

pub open spec fn lists_claims(
    nodes: Seq<HtmlNode>,
    lists: Seq<int>,
    context: Seq<char>,
) -> Seq<Seq<char>>
    decreases lists.len(),
{
    if lists.len() == 0 {
        Seq::empty()
    } else {
        lists_claims(nodes, lists.drop_last(), context) + list_claims(nodes, lists.last(), context)
    }
}

/// Claims of metadata, structured data, tables and definition lists.
pub open spec fn structured_claims(
    page: PageModel,
    root: int,
    url: WebUrl,
    context: Seq<char>,
) -> Seq<Seq<char>> {
    let nodes = page.nodes;
    first_texts(
        first_texts(described(nodes, page.descriptions), 4) + first_texts(
            script_claims(raw_texts(nodes, first_positions(page.scripts, 8)), url),
            8,
        ) + tables_claims(
            nodes,
            first_positions(tagged_within(nodes, seq!["table"], root), 8),
            context,
        ) + lists_claims(
            nodes,
            first_positions(tagged_within(nodes, seq!["dl"], root), 8),
            context,
        ),
        16,
    )
}

/// The blocks of a page with its title in front.
pub open spec fn titled_blocks(page: PageModel) -> Seq<Seq<char>> {
    let root = content_root(page);
    let blocks = content_blocks(
        page.nodes,
        root,
        tagged_within(page.nodes, block_tags(), root),
    );
    match first_element_text(page.nodes, page.titles) {
        Some(title) => with_title(blocks, title),
        None => blocks,
    }
}

/// What a value on a page speaks of: its main heading, else its first block.
pub open spec fn page_context(page: PageModel) -> Seq<char> {
    match first_element_text(
        page.nodes,
        tagged_within(page.nodes, seq!["h1"], content_root(page)),
    ) {
        Some(heading) => heading,
        None => if titled_blocks(page).len() > 0 {
            titled_blocks(page)[0]
        } else {
            Seq::empty()
        },
    }
}

/// All blocks of a page: its text, then its structured claims.
pub open spec fn page_blocks(page: PageModel, url: WebUrl) -> Seq<Seq<char>> {
    with_blocks(
        titled_blocks(page),
        structured_claims(page, content_root(page), url, page_context(page)),
    )
}

pub open spec fn capped64(n: nat) -> u64 {
    if n <= u64::MAX {
        n as u64
    } else {
        u64::MAX
    }
}

/// How much of a text of `total` characters is not content.
pub open spec fn boilerplate_share(total: nat, useful: u64) -> u16 {
    if total == 0 {
        10000
    } else {
        basis_points(
            if useful <= total {
                (total - useful) as nat
            } else {
                0
            },
            total,
        )
    }
}

/// What is read on a page.
pub open spec fn is_main_content(content: MainContent, page: PageModel, url: WebUrl) -> bool {
    let blocks = page_blocks(page, url);
    &&& strings(content.passages@) == bounded_passages(blocks)
    &&& content.useful_text_length == capped64(total_length(blocks))
    &&& content.boilerplate_ratio_basis_points == boilerplate_share(
        element_text(page.nodes, top_element(page.nodes, 0)).len(),
        content.useful_text_length,
    )
}

fn root_of(page: &HtmlPage, silent: &Vec<bool>) -> (r: usize)
    requires
        page.well_formed(),
        silent@ == silent_flags(page.nodes@),
    ensures
        r == content_root(page@),
        r < page.nodes@.len(),
{
    let mut best: Option<(usize, usize)> = None;
    let mut i: usize = 0;
    let ghost list = positions(page.mains@);
    proof {
        assert(list.take(0) =~= Seq::empty());
    }
    while i < page.mains.len()
        invariant
            i <= page.mains@.len(),
            page.well_formed(),
            silent@ == silent_flags(page.nodes@),
            list == positions(page.mains@),
            match best {
                Some((at, length)) => {
                    &&& longest(page.nodes@, list.take(i as int)) == Some(at as int)
                    &&& at < page.nodes@.len()
                    &&& length == element_text(page.nodes@, at as int).len()
                },
                None => longest(page.nodes@, list.take(i as int)) is None,
            },
        decreases page.mains@.len() - i,
    {
        let at = page.mains[i];
        let text = text_of_element(&page.nodes, silent, at);
        proof {
            let next = list.take(i as int + 1);
            assert(next.drop_last() =~= list.take(i as int));
            assert(next.last() == at);
        }
        let better = match best {
            Some((_, length)) => text.len() >= length,
            None => true,
        };
        if better {
            best = Some((at, text.len()));
        }
        i = i + 1;
    }
    proof {
        assert(list.take(list.len() as int) =~= list);
    }
    match best {
        Some((at, _)) => at,
        None => if page.bodies.len() > 0 {
            page.bodies[0]
        } else {
            top_of(&page.nodes)
        },
    }
}

fn top_of(nodes: &Vec<HtmlNode>) -> (r: usize)
    requires
        nodes@.len() > 0,
    ensures
        r == top_element(nodes@, 0),
        r < nodes@.len(),
{
    let mut k: usize = 0;
    while k < nodes.len()
        invariant
            k <= nodes@.len(),
            nodes@.len() > 0,
            top_element(nodes@, 0) == top_element(nodes@, k as int),
        decreases nodes@.len() - k,
    {
        if nodes[k].depth == 1 && nodes[k].name.is_some() {
            return k;
        }
        k = k + 1;
    }
    0
}

fn push_attribute(out: &mut Vec<char>, value: &Option<String>)
    ensures
        final(out)@ == old(out)@ + attribute_text(*value),
{
    match value {
        Some(text) => {
            push_text(out, text.as_str());
        },
        None => {
            proof {
                assert(out@ + Seq::empty() =~= out@);
            }
        },
    }
}

fn boilerplate_node(node: &HtmlNode) -> (r: bool)
    ensures
        r == is_boilerplate(*node),
{
    if node.name.is_none() {
        return false;
    }
    let tags = [
        "script",
        "style",
        "noscript",
        "nav",
        "header",
        "footer",
        "aside",
        "form",
        "button",
        "menu",
    ];
    let terms = [
        "nav",
        "menu",
        "header",
        "footer",
        "sidebar",
        "cookie",
        "consent",
        "banner",
        "breadcrumb",
        "toolbar",
        "masthead",
        "mw-panel",
        "toc",
    ];
    proof {
        assert(tags@ =~= boilerplate_tags());
        assert(terms@ =~= boilerplate_terms());
    }
    if tag_among(node, &tags) {
        return true;
    }
    let mut text: Vec<char> = Vec::new();
    push_attribute(&mut text, &node.id);
    push_text(&mut text, " ");
    push_attribute(&mut text, &node.class);
    push_text(&mut text, " ");
    push_attribute(&mut text, &node.role);
    proof {
        assert(text@ =~= attribute_text(node.id) + " "@ + attribute_text(node.class) + " "@
            + attribute_text(node.role));
    }
    let lowered = lower_ascii(&text);
    any_term(&lowered, &terms)
}

/// Which nodes stand in boilerplate below the root of the content.
pub fn element_has_boilerplate_ancestor(nodes: &Vec<HtmlNode>, root: usize) -> (r: Vec<bool>)
    requires
        root < nodes@.len(),
    ensures
        r@.len() == nodes@.len(),
        forall|i: int| 0 <= i < r@.len() ==> #[trigger] r@[i] == in_boilerplate(
            nodes@,
            root as int,
            i,
        ),
{
    let n: usize = nodes.len();
    let mut marks: Vec<bool> = Vec::new();
    let mut i: usize = 0;
    while i < n
        invariant
            i <= n,
            n == nodes@.len(),
            marks@ =~= boilerplate_marks(nodes@).take(i as int),
        decreases n - i,
    {
        marks.push(boilerplate_node(&nodes[i]));
        i = i + 1;
    }
    proof {
        assert(marks@ =~= boilerplate_marks(nodes@));
    }
    marked_cover(nodes, &marks, root + 1)
}

fn sum_of_lengths(list: &Vec<Vec<char>>) -> (r: u128)
    ensures
        r == total_length(texts(list@)),
        r <= list@.len() * usize::MAX,
{
    let mut sum: u128 = 0;
    let mut i: usize = 0;
    let ghost model = texts(list@);
    let n: usize = list.len();
    proof {
        assert(model.take(0) =~= Seq::empty());
    }
    while i < n
        invariant
            i <= n,
            n == list@.len(),
            model == texts(list@),
            sum == total_length(model.take(i as int)),
            sum <= i * usize::MAX,
        decreases n - i,
    {
        proof {
            let next = model.take(i as int + 1);
            assert(next.drop_last() =~= model.take(i as int));
            assert(next.last() == list@[i as int]@);
            assert(i * usize::MAX + usize::MAX == (i + 1) * usize::MAX) by (nonlinear_arith);
            assert((i + 1) * usize::MAX <= 0xffff_ffff_ffff_ffff * 0xffff_ffff_ffff_ffff)
                by (nonlinear_arith)
                requires
                    i < usize::MAX,
                    usize::MAX <= 0xffff_ffff_ffff_ffff,
            ;
        }
        let length: usize = list[i].len();
        sum = sum + length as u128;
        i = i + 1;
    }
    proof {
        assert(model.take(model.len() as int) =~= model);
    }
    sum
}

fn link_list(nodes: &Vec<HtmlNode>, silent: &Vec<bool>, i: usize, length: usize) -> (r: bool)
    requires
        i < nodes@.len(),
        silent@ == silent_flags(nodes@),
        length == element_text(nodes@, i as int).len(),
        length > 0,
    ensures
        r == is_link_list(nodes@, i as int),
{
    let tags = ["a"];
    proof {
        assert(tags@ =~= seq!["a"]);
    }
    let anchors = tagged_in_element(nodes, &tags, i);
    let anchor_texts = texts_of_elements(nodes, silent, &anchors);
    let linked: u128 = sum_of_lengths(&anchor_texts);
    let limit: u128 = 56 * (length as u128);
    proof {
        let l = linked as int;
        let t = length as int;
        assert((l * 100 / t > 55) == (l * 100 >= 56 * t)) by (nonlinear_arith)
            requires
                t > 0,
                l >= 0,
        ;
    }
    let least: u128 = (limit + 99) / 100;
    linked >= least
}

fn index_of_key(keys: &Vec<Vec<char>>, key: &Vec<char>) -> (r: bool)
    ensures
        r == exists|i: int| 0 <= i < keys@.len() && (#[trigger] keys@[i])@ == key@,
{
    let mut i: usize = 0;
    while i < keys.len()
        invariant
            i <= keys@.len(),
            forall|k: int| 0 <= k < i ==> (#[trigger] keys@[k])@ != key@,
        decreases keys@.len() - i,
    {
        if same_chars(&keys[i], key) {
            return true;
        }
        i = i + 1;
    }
    false
}

/// Blocks with their keys beside them.
pub struct BlockList {
    blocks: Vec<Vec<char>>,
    keys: Vec<Vec<char>>,
}

impl View for BlockList {
    type V = Seq<Seq<char>>;

    closed spec fn view(&self) -> Seq<Seq<char>> {
        texts(self.blocks@)
    }
}

impl BlockList {
    spec fn keyed(&self) -> bool {
        &&& self.keys@.len() == self.blocks@.len()
        &&& forall|i: int|
            0 <= i < self.keys@.len() ==> (#[trigger] self.keys@[i])@ == dedup_key(
                self.blocks@[i]@,
            )
    }

    fn new() -> (r: Self)
        ensures
            r.keyed(),
            r@ == Seq::<Seq<char>>::empty(),
    {
        let r = BlockList { blocks: Vec::new(), keys: Vec::new() };
        proof {
            assert(r@ =~= Seq::<Seq<char>>::empty());
        }
        r
    }

    fn insert_new(&mut self, text: Vec<char>)
        requires
            old(self).keyed(),
        ensures
            final(self).keyed(),
            final(self)@ == with_block(old(self)@, text@),
    {
        let string = string_of(&text);
        let key = dedup_chars(string.as_str());
        let known = index_of_key(&self.keys, &key);
        proof {
            if known {
                let i = choose|i: int| 0 <= i < self.keys@.len() && (#[trigger] self.keys@[i])@
                    == key@;
                assert(dedup_key(self@[i]) == key@);
                assert(has_key(self@, key@));
            } else if has_key(self@, key@) {
                let i = choose|i: int| 0 <= i < self@.len() && dedup_key(#[trigger] self@[i])
                    == key@;
                assert(self.keys@[i]@ == key@);
            }
        }
        if !known {
            let ghost before = self@;
            let ghost added = text@;
            self.blocks.push(text);
            self.keys.push(key);
            proof {
                assert(self@ =~= before.push(added));
            }
        }
    }

    /// The title in front, and nothing else that says the same.
    fn lead_with(&mut self, title: Vec<char>)
        requires
            old(self).keyed(),
        ensures
            final(self).keyed(),
            final(self)@ == with_title(old(self)@, title@),
    {
        let string = string_of(&title);
        let key = dedup_chars(string.as_str());
        let mut i: usize = 0;
        let ghost all = self@;
        proof {
            assert(all.skip(0) =~= all);
        }
        while i < self.blocks.len() && self.blocks[i].len() > 180
            invariant
                i <= self.blocks@.len(),
                all == self@,
                all.len() == self.blocks@.len(),
                heading_block(all) == heading_block(all.skip(i as int)),
            decreases self.blocks@.len() - i,
        {
            proof {
                let rest = all.skip(i as int);
                assert(rest[0] == self.blocks@[i as int]@);
                assert(rest.drop_first() =~= all.skip(i as int + 1));
            }
            i = i + 1;
        }
        proof {
            let rest = all.skip(i as int);
            if i < self.blocks@.len() {
                assert(rest[0] == self.blocks@[i as int]@);
            }
        }
        if i < self.blocks.len() {
            let heading = &self.keys[i];
            if crate::text::match_at(&key, heading, 0) || crate::text::match_at(heading, &key, 0) {
                return ;
            }
        }
        let mut blocks: Vec<Vec<char>> = Vec::new();
        let mut keys: Vec<Vec<char>> = Vec::new();
        let ghost lead = title@;
        blocks.push(title);
        keys.push(copy_chars(&key));
        let mut k: usize = 0;
        proof {
            assert(all.take(0) =~= Seq::empty());
            assert(texts(blocks@) =~= seq![lead] + without_key(all.take(0), key@));
        }
        while k < self.blocks.len()
            invariant
                k <= self.blocks@.len(),
                self.keyed(),
                all == self@,
                key@ == dedup_key(lead),
                keys@.len() == blocks@.len(),
                forall|q: int|
                    0 <= q < keys@.len() ==> (#[trigger] keys@[q])@ == dedup_key(blocks@[q]@),
                texts(blocks@) == seq![lead] + without_key(all.take(k as int), key@),
            decreases self.blocks@.len() - k,
        {
            proof {
                let next = all.take(k as int + 1);
                assert(next.drop_last() =~= all.take(k as int));
                assert(next.last() == self.blocks@[k as int]@);
            }
            if !same_chars(&self.keys[k], &key) {
                let ghost before = blocks@;
                blocks.push(copy_chars(&self.blocks[k]));
                keys.push(copy_chars(&self.keys[k]));
                proof {
                    assert(texts(blocks@) =~= texts(before).push(self.blocks@[k as int]@));
                    assert(seq![lead] + without_key(all.take(k as int), key@).push(
                        self.blocks@[k as int]@,
                    ) =~= (seq![lead] + without_key(all.take(k as int), key@)).push(
                        self.blocks@[k as int]@,
                    ));
                }
            }
            k = k + 1;
        }
        proof {
            assert(all.take(all.len() as int) =~= all);
        }
        self.blocks = blocks;
        self.keys = keys;
    }

    fn insert_all(&mut self, list: &Vec<Vec<char>>)
        requires
            old(self).keyed(),
        ensures
            final(self).keyed(),
            final(self)@ == with_blocks(old(self)@, texts(list@)),
    {
        let ghost start = self@;
        let ghost model = texts(list@);
        let mut i: usize = 0;
        proof {
            assert(model.take(0) =~= Seq::empty());
        }
        while i < list.len()
            invariant
                i <= list@.len(),
                self.keyed(),
                model == texts(list@),
                self@ == with_blocks(start, model.take(i as int)),
            decreases list@.len() - i,
        {
            proof {
                let next = model.take(i as int + 1);
                assert(next.drop_last() =~= model.take(i as int));
                assert(next.last() == list@[i as int]@);
            }
            self.insert_new(copy_chars(&list[i]));
            i = i + 1;
        }
        proof {
            assert(model.take(model.len() as int) =~= model);
        }
    }
}

fn blocks_of(nodes: &Vec<HtmlNode>, silent: &Vec<bool>, root: usize) -> (r: BlockList)
    requires
        root < nodes@.len(),
        silent@ == silent_flags(nodes@),
    ensures
        r.keyed(),
        r@ == content_blocks(
            nodes@,
            root as int,
            tagged_within(nodes@, block_tags(), root as int),
        ),
{
    let tags = ["h1", "h2", "h3", "h4", "p", "blockquote", "figcaption", "li"];
    proof {
        assert(tags@ =~= block_tags());
    }
    let list = tagged_in_element(nodes, &tags, root);
    let around = element_has_boilerplate_ancestor(nodes, root);
    let mut blocks = BlockList::new();
    let ghost model = positions(list@);
    let mut i: usize = 0;
    proof {
        assert(model.take(0) =~= Seq::empty());
    }
    while i < list.len()
        invariant
            i <= list@.len(),
            root < nodes@.len(),
            silent@ == silent_flags(nodes@),
            model == positions(list@),
            all_below(list@, nodes@.len() as int),
            around@.len() == nodes@.len(),
            forall|k: int|
                0 <= k < around@.len() ==> #[trigger] around@[k] == in_boilerplate(
                    nodes@,
                    root as int,
                    k,
                ),
            blocks.keyed(),
            blocks@ == content_blocks(nodes@, root as int, model.take(i as int)),
        decreases list@.len() - i,
    {
        let at = list[i];
        proof {
            let next = model.take(i as int + 1);
            assert(next.drop_last() =~= model.take(i as int));
            assert(next.last() == at);
        }
        if !around[at] {
            let text = text_of_element(nodes, silent, at);
            let string = string_of(&text);
            if text.len() > 0 && !text_is_cookie_or_menu_boilerplate(string.as_str()) && !link_list(
                nodes,
                silent,
                at,
                text.len(),
            ) {
                blocks.insert_new(text);
            }
        }
        i = i + 1;
    }
    proof {
        assert(model.take(model.len() as int) =~= model);
    }
    blocks
}

fn leading_text(nodes: &Vec<HtmlNode>, silent: &Vec<bool>, list: &Vec<usize>) -> (r: Option<
    Vec<char>,
>)
    requires
        silent@ == silent_flags(nodes@),
        all_below(list@, nodes@.len() as int),
    ensures
        match r {
            Some(text) => first_element_text(nodes@, positions(list@)) == Some(text@),
            None => first_element_text(nodes@, positions(list@)) is None,
        },
{
    if list.len() == 0 {
        return None;
    }
    let at = list[0];
    let text = text_of_element(nodes, silent, at);
    if text.len() > 0 {
        Some(text)
    } else {
        None
    }
}

pub fn extract_metadata_passages(nodes: &Vec<HtmlNode>, list: &Vec<usize>) -> (r: Vec<Vec<char>>)
    requires
        all_below(list@, nodes@.len() as int),
    ensures
        texts(r@) == first_texts(described(nodes@, positions(list@)), 4),
{
    let mut out: Vec<Vec<char>> = Vec::new();
    let ghost model = positions(list@);
    let mut i: usize = 0;
    proof {
        assert(model.take(0) =~= Seq::empty());
        assert(texts(out@) =~= Seq::empty());
    }
    while i < list.len()
        invariant
            i <= list@.len(),
            model == positions(list@),
            all_below(list@, nodes@.len() as int),
            texts(out@) == described(nodes@, model.take(i as int)),
        decreases list@.len() - i,
    {
        let at = list[i];
        proof {
            let next = model.take(i as int + 1);
            assert(next.drop_last() =~= model.take(i as int));
            assert(next.last() == at);
        }
        if let Some(content) = &nodes[at].content {
            let chars = chars_of(content.as_str());
            let text = collapsed(&chars);
            if text.len() >= 20 {
                let ghost before = out@;
                let ghost value = text@;
                out.push(text);
                proof {
                    assert(texts(out@) =~= texts(before).push(value));
                }
            }
        }
        i = i + 1;
    }
    proof {
        assert(model.take(model.len() as int) =~= model);
    }
    cut_texts(out, 4)
}

/// At most the first `n` of a list.
pub fn cut_texts(list: Vec<Vec<char>>, n: usize) -> (r: Vec<Vec<char>>)
    ensures
        texts(r@) == first_texts(texts(list@), n as int),
{
    if list.len() <= n {
        return list;
    }
    let mut out: Vec<Vec<char>> = Vec::new();
    let mut i: usize = 0;
    while i < n
        invariant
            i <= n,
            n < list@.len(),
            texts(out@) =~= texts(list@).take(i as int),
        decreases n - i,
    {
        let ghost before = out@;
        out.push(copy_chars(&list[i]));
        proof {
            assert(texts(out@) =~= texts(before).push(list@[i as int]@));
        }
        i = i + 1;
    }
    out
}

fn cut_positions(list: Vec<usize>, n: usize) -> (r: Vec<usize>)
    ensures
        positions(r@) == first_positions(positions(list@), n as int),
        forall|m: int| all_below(list@, m) ==> #[trigger] all_below(r@, m),
{
    if list.len() <= n {
        return list;
    }
    let mut out: Vec<usize> = Vec::new();
    let mut i: usize = 0;
    while i < n
        invariant
            i <= n,
            n < list@.len(),
            out@ =~= list@.take(i as int),
        decreases n - i,
    {
        out.push(list[i]);
        i = i + 1;
    }
    proof {
        assert(positions(out@) =~= positions(list@).take(n as int));
        assert forall|m: int| all_below(list@, m) implies #[trigger] all_below(out@, m) by {
            assert forall|q: int| 0 <= q < out@.len() implies #[trigger] out@[q] < m by {
                assert(out@[q] == list@[q]);
            }
        }
    }
    out
}

pub fn extract_json_ld_passages(nodes: &Vec<HtmlNode>, list: &Vec<usize>, final_url: &WebUrl) -> (r:
    Vec<Vec<char>>)
    requires
        all_below(list@, nodes@.len() as int),
    ensures
        texts(r@) == first_texts(
            script_claims(
                raw_texts(nodes@, first_positions(positions(list@), 8)),
                *final_url,
            ),
            8,
        ),
{
    let mut scripts: Vec<Vec<char>> = Vec::new();
    let mut i: usize = 0;
    while i < list.len() && i < 8
        invariant
            i <= list@.len(),
            i <= 8,
            all_below(list@, nodes@.len() as int),
            scripts@.len() == i,
            forall|k: int|
                0 <= k < i ==> (#[trigger] scripts@[k])@ == raw_text(
                    nodes@,
                    list@[k] as int,
                    subtree_end(nodes@, list@[k] as int),
                ),
        decreases list@.len() - i,
    {
        let at = list[i];
        scripts.push(raw_text_of(nodes, at));
        i = i + 1;
    }
    proof {
        assert(texts(scripts@) =~= raw_texts(nodes@, first_positions(positions(list@), 8)));
    }
    let claims = claims_of_scripts(&scripts, final_url);
    cut_texts(claims, 8)
}

/// A cell of a table.
pub struct Cell {
    pub heading: bool,
    pub text: Vec<char>,
}

pub open spec fn cell_models(row: Seq<Cell>) -> Seq<CellModel> {
    Seq::new(row.len(), |i: int| CellModel { heading: row[i].heading, text: row[i].text@ })
}

pub open spec fn row_models(rows: Seq<Vec<Cell>>) -> Seq<Seq<CellModel>> {
    Seq::new(rows.len(), |i: int| cell_models(rows[i]@))
}

fn cells_of(nodes: &Vec<HtmlNode>, silent: &Vec<bool>, row: usize) -> (r: Vec<Cell>)
    requires
        row < nodes@.len(),
        silent@ == silent_flags(nodes@),
    ensures
        cell_models(r@) == row_cells(nodes@, row as int),
{
    let tags = ["th", "td"];
    let heading_tags = ["th"];
    proof {
        assert(tags@ =~= seq!["th", "td"]);
        assert(heading_tags@ =~= seq!["th"]);
    }
    let list = tagged_in_element(nodes, &tags, row);
    let mut out: Vec<Cell> = Vec::new();
    let ghost model = positions(list@);
    let mut i: usize = 0;
    proof {
        assert(model.take(0) =~= Seq::empty());
        assert(cell_models(out@) =~= Seq::empty());
    }
    while i < list.len()
        invariant
            i <= list@.len(),
            silent@ == silent_flags(nodes@),
            heading_tags@ == seq!["th"],
            model == positions(list@),
            all_below(list@, nodes@.len() as int),
            cell_models(out@) == cells_in(nodes@, model.take(i as int)),
        decreases list@.len() - i,
    {
        let at = list[i];
        proof {
            let next = model.take(i as int + 1);
            assert(next.drop_last() =~= model.take(i as int));
            assert(next.last() == at);
        }
        let text = text_of_element(nodes, silent, at);
        if text.len() > 0 {
            let heading = tag_among(&nodes[at], &heading_tags);
            let ghost before = out@;
            let ghost cell = CellModel { heading, text: text@ };
            out.push(Cell { heading, text });
            proof {
                assert(cell_models(out@) =~= cell_models(before).push(cell));
            }
        }
        i = i + 1;
    }
    proof {
        assert(model.take(model.len() as int) =~= model);
    }
    out
}

fn rows_of(nodes: &Vec<HtmlNode>, silent: &Vec<bool>, table: usize) -> (r: Vec<Vec<Cell>>)
    requires
        table < nodes@.len(),
        silent@ == silent_flags(nodes@),
    ensures
        row_models(r@) == table_rows(nodes@, table as int),
{
    let tags = ["tr"];
    proof {
        assert(tags@ =~= seq!["tr"]);
    }
    let list = tagged_in_element(nodes, &tags, table);
    let mut out: Vec<Vec<Cell>> = Vec::new();
    let ghost model = positions(list@);
    let mut i: usize = 0;
    proof {
        assert(model.take(0) =~= Seq::empty());
        assert(row_models(out@) =~= Seq::empty());
    }
    while i < list.len()
        invariant
            i <= list@.len(),
            silent@ == silent_flags(nodes@),
            model == positions(list@),
            all_below(list@, nodes@.len() as int),
            row_models(out@) == rows_in(nodes@, model.take(i as int)),
        decreases list@.len() - i,
    {
        let at = list[i];
        proof {
            let next = model.take(i as int + 1);
            assert(next.drop_last() =~= model.take(i as int));
            assert(next.last() == at);
        }
        let cells = cells_of(nodes, silent, at);
        proof {
            assert(cell_models(cells@).len() == cells@.len());
        }
        if cells.len() > 0 {
            let ghost before = out@;
            let ghost row = cell_models(cells@);
            out.push(cells);
            proof {
                assert(row_models(out@) =~= row_models(before).push(row));
            }
        }
        i = i + 1;
    }
    proof {
        assert(model.take(model.len() as int) =~= model);
    }
    out
}

fn texts_of_cells(row: &Vec<Cell>) -> (r: Vec<Vec<char>>)
    ensures
        texts(r@) == cell_texts(cell_models(row@)),
{
    let mut out: Vec<Vec<char>> = Vec::new();
    let mut i: usize = 0;
    while i < row.len()
        invariant
            i <= row@.len(),
            out@.len() == i,
            forall|k: int| 0 <= k < i ==> (#[trigger] out@[k])@ == row@[k].text@,
        decreases row@.len() - i,
    {
        out.push(copy_chars(&row[i].text));
        i = i + 1;
    }
    proof {
        assert(texts(out@) =~= cell_texts(cell_models(row@)));
    }
    out
}

fn header_row(row: &Vec<Cell>) -> (r: bool)
    ensures
        r == is_header_row(cell_models(row@)),
{
    let ghost model = cell_models(row@);
    if row.len() < 2 {
        return false;
    }
    let mut i: usize = 0;
    while i < row.len()
        invariant
            i <= row@.len(),
            model == cell_models(row@),
            forall|k: int| 0 <= k < i ==> (#[trigger] model[k]).heading,
        decreases row@.len() - i,
    {
        if !row[i].heading {
            assert(!model[i as int].heading);
            return false;
        }
        i = i + 1;
    }
    true
}

fn claims_of_rows(context: &str, rows: &Vec<Vec<Cell>>) -> (r: Vec<Vec<char>>)
    ensures
        texts(r@) == table_claims(context@, row_models(rows@)),
{
    let ghost model = row_models(rows@);
    let mut out: Vec<Vec<char>> = Vec::new();
    proof {
        assert(texts(out@) =~= Seq::empty());
    }
    if rows.len() > 0 && header_row(&rows[0]) {
        let headers = texts_of_cells(&rows[0]);
        let ghost heads = cell_texts(model[0]);
        let ghost body = model.drop_first();
        let mut i: usize = 1;
        proof {
            assert(body.take(0) =~= Seq::empty());
            assert(texts(headers@) == heads);
            assert(texts(headers@).len() == headers@.len());
        }
        while i < rows.len()
            invariant
                1 <= i <= rows@.len(),
                model == row_models(rows@),
                body == model.drop_first(),
                texts(headers@) == heads,
                headers@.len() == heads.len(),
                texts(out@) == headed_claims(context@, heads, body.take(i as int - 1)),
            decreases rows@.len() - i,
        {
            proof {
                let next = body.take(i as int);
                assert(next.drop_last() =~= body.take(i as int - 1));
                assert(next.last() == cell_models(rows@[i as int]@));
            }
            if rows[i].len() == headers.len() {
                let values = texts_of_cells(&rows[i]);
                if let Some(claim) = structured_cells_to_claim(context, &headers, &values) {
                    let ghost before = out@;
                    out.push(chars_of(claim.as_str()));
                    proof {
                        assert(texts(out@) =~= texts(before).push(claim@));
                    }
                }
            }
            i = i + 1;
        }
        proof {
            assert(body.take(body.len() as int) =~= body);
        }
        return out;
    }
    let mut i: usize = 0;
    proof {
        assert(model.take(0) =~= Seq::empty());
    }
    while i < rows.len()
        invariant
            i <= rows@.len(),
            model == row_models(rows@),
            texts(out@) == labelled_claims(context@, model.take(i as int)),
        decreases rows@.len() - i,
    {
        proof {
            let next = model.take(i as int + 1);
            assert(next.drop_last() =~= model.take(i as int));
            assert(next.last() == cell_models(rows@[i as int]@));
        }
        let row = &rows[i];
        if row.len() == 2 && row[0].heading && !row[1].heading {
            let label = string_of(&row[0].text);
            let value = string_of(&row[1].text);
            if let Some(claim) = labelled_value_claim(context, label.as_str(), value.as_str()) {
                let mut entry = chars_of(context);
                push_text(&mut entry, ": ");
                push_text(&mut entry, label.as_str());
                push_text(&mut entry, " ");
                push_text(&mut entry, value.as_str());
                let ghost line = entry@;
                let ghost before = out@;
                out.push(entry);
                out.push(chars_of(claim.as_str()));
                proof {
                    assert(texts(out@) =~= texts(before).push(line).push(claim@));
                }
            }
        }
        i = i + 1;
    }
    proof {
        assert(model.take(model.len() as int) =~= model);
    }
    out
}

pub fn extract_table_passages(
    nodes: &Vec<HtmlNode>,
    silent: &Vec<bool>,
    root: usize,
    page_context: &str,
) -> (r: Vec<Vec<char>>)
    requires
        root < nodes@.len(),
        silent@ == silent_flags(nodes@),
    ensures
        texts(r@) == tables_claims(
            nodes@,
            first_positions(tagged_within(nodes@, seq!["table"], root as int), 8),
            page_context@,
        ),
{
    let tags = ["table"];
    proof {
        assert(tags@ =~= seq!["table"]);
    }
    let found = tagged_in_element(nodes, &tags, root);
    let list = cut_positions(found, 8);
    let mut out: Vec<Vec<char>> = Vec::new();
    let ghost model = positions(list@);
    let mut i: usize = 0;
    proof {
        assert(model.take(0) =~= Seq::empty());
        assert(texts(out@) =~= Seq::empty());
        assert(all_below(list@, nodes@.len() as int));
    }
    while i < list.len()
        invariant
            i <= list@.len(),
            silent@ == silent_flags(nodes@),
            model == positions(list@),
            all_below(list@, nodes@.len() as int),
            texts(out@) == tables_claims(nodes@, model.take(i as int), page_context@),
        decreases list@.len() - i,
    {
        let at = list[i];
        proof {
            let next = model.take(i as int + 1);
            assert(next.drop_last() =~= model.take(i as int));
            assert(next.last() == at);
        }
        let rows = rows_of(nodes, silent, at);
        let mut claims = claims_of_rows(page_context, &rows);
        let ghost before = out@;
        let ghost added = claims@;
        out.append(&mut claims);
        proof {
            assert(texts(out@) =~= texts(before) + texts(added));
        }
        i = i + 1;
    }
    proof {
        assert(model.take(model.len() as int) =~= model);
    }
    out
}

fn claims_of_list(nodes: &Vec<HtmlNode>, silent: &Vec<bool>, list: usize, context: &str) -> (r: Vec<
    Vec<char>,
>)
    requires
        list < nodes@.len(),
        silent@ == silent_flags(nodes@),
    ensures
        texts(r@) == list_claims(nodes@, list as int, context@),
{
    let term_tags = ["dt"];
    let value_tags = ["dd"];
    proof {
        assert(term_tags@ =~= seq!["dt"]);
        assert(value_tags@ =~= seq!["dd"]);
    }
    let term_list = tagged_in_element(nodes, &term_tags, list);
    let value_list = tagged_in_element(nodes, &value_tags, list);
    let terms = texts_of_elements(nodes, silent, &term_list);
    let values = texts_of_elements(nodes, silent, &value_list);
    let ghost labels = texts(terms@);
    let ghost figures = texts(values@);
    let mut out: Vec<Vec<char>> = Vec::new();
    let mut i: usize = 0;
    proof {
        assert(texts(out@) =~= Seq::empty());
        assert(labels.len() == terms@.len());
        assert(figures.len() == values@.len());
    }
    while i < terms.len() && i < values.len() && i < 8
        invariant
            i <= terms@.len(),
            i <= values@.len(),
            i <= 8,
            labels == texts(terms@),
            figures == texts(values@),
            texts(out@) == paired_claims(context@, labels, figures, i as int),
        decreases terms@.len() - i,
    {
        let label = string_of(&terms[i]);
        let value = string_of(&values[i]);
        if let Some(claim) = labelled_value_claim(context, label.as_str(), value.as_str()) {
            let ghost before = out@;
            out.push(chars_of(claim.as_str()));
            proof {
                assert(texts(out@) =~= texts(before).push(claim@));
            }
        }
        i = i + 1;
    }
    out
}

pub fn extract_definition_list_passages(
    nodes: &Vec<HtmlNode>,
    silent: &Vec<bool>,
    root: usize,
    page_context: &str,
) -> (r: Vec<Vec<char>>)
    requires
        root < nodes@.len(),
        silent@ == silent_flags(nodes@),
    ensures
        texts(r@) == lists_claims(
            nodes@,
            first_positions(tagged_within(nodes@, seq!["dl"], root as int), 8),
            page_context@,
        ),
{
    let tags = ["dl"];
    proof {
        assert(tags@ =~= seq!["dl"]);
    }
    let found = tagged_in_element(nodes, &tags, root);
    let list = cut_positions(found, 8);
    let mut out: Vec<Vec<char>> = Vec::new();
    let ghost model = positions(list@);
    let mut i: usize = 0;
    proof {
        assert(model.take(0) =~= Seq::empty());
        assert(texts(out@) =~= Seq::empty());
        assert(all_below(list@, nodes@.len() as int));
    }
    while i < list.len()
        invariant
            i <= list@.len(),
            silent@ == silent_flags(nodes@),
            model == positions(list@),
            all_below(list@, nodes@.len() as int),
            texts(out@) == lists_claims(nodes@, model.take(i as int), page_context@),
        decreases list@.len() - i,
    {
        let at = list[i];
        proof {
            let next = model.take(i as int + 1);
            assert(next.drop_last() =~= model.take(i as int));
            assert(next.last() == at);
        }
        let mut claims = claims_of_list(nodes, silent, at, page_context);
        let ghost before = out@;
        let ghost added = claims@;
        out.append(&mut claims);
        proof {
            assert(texts(out@) =~= texts(before) + texts(added));
        }
        i = i + 1;
    }
    proof {
        assert(model.take(model.len() as int) =~= model);
    }
    out
}

pub fn extract_structured_passages(
    page: &HtmlPage,
    silent: &Vec<bool>,
    root: usize,
    final_url: &WebUrl,
    context: &str,
) -> (r: Vec<Vec<char>>)
    requires
        page.well_formed(),
        root < page.nodes@.len(),
        silent@ == silent_flags(page.nodes@),
    ensures
        texts(r@) == structured_claims(page@, root as int, *final_url, context@),
{
    let mut out = extract_metadata_passages(&page.nodes, &page.descriptions);
    let mut data = extract_json_ld_passages(&page.nodes, &page.scripts, final_url);
    let mut tables = extract_table_passages(&page.nodes, silent, root, context);
    let mut lists = extract_definition_list_passages(&page.nodes, silent, root, context);
    let ghost a = texts(out@);
    let ghost b = texts(data@);
    let ghost c = texts(tables@);
    let ghost d = texts(lists@);
    out.append(&mut data);
    out.append(&mut tables);
    out.append(&mut lists);
    proof {
        assert(texts(out@) =~= a + b + c + d);
    }
    cut_texts(out, 16)
}

fn useful_length(list: &Vec<Vec<char>>) -> (r: u64)
    ensures
        r == capped64(total_length(texts(list@))),
{
    let sum: u128 = sum_of_lengths(list);
    if sum <= u64::MAX as u128 {
        sum as u64
    } else {
        u64::MAX
    }
}

fn share_removed(total: usize, useful: u64) -> (r: u16)
    ensures
        r == boilerplate_share(total as nat, useful),
{
    if total == 0 {
        return 10000;
    }
    let whole: u64 = total as u64;
    if useful <= whole {
        share((whole - useful) as usize, total)
    } else {
        share(0, total)
    }
}

/// Reads a page.
pub fn read_page(page: &HtmlPage, final_url: &WebUrl) -> (r: MainContent)
    requires
        page.well_formed(),
    ensures
        is_main_content(r, page@, *final_url),
{
    let silent = silent_nodes(&page.nodes);
    let root = root_of(page, &silent);
    let mut blocks = blocks_of(&page.nodes, &silent, root);
    if let Some(title) = leading_text(&page.nodes, &silent, &page.titles) {
        blocks.lead_with(title);
    }
    let heading_tags = ["h1"];
    proof {
        assert(heading_tags@ =~= seq!["h1"]);
        assert(blocks@ == titled_blocks(page@));
    }
    let headings = tagged_in_element(&page.nodes, &heading_tags, root);
    let context_chars = match leading_text(&page.nodes, &silent, &headings) {
        Some(heading) => heading,
        None => if blocks.blocks.len() > 0 {
            copy_chars(&blocks.blocks[0])
        } else {
            let empty: Vec<char> = Vec::new();
            proof {
                assert(empty@ =~= Seq::empty());
            }
            empty
        },
    };
    let context = string_of(&context_chars);
    proof {
        assert(context@ == page_context(page@));
    }
    let claims = extract_structured_passages(page, &silent, root, final_url, context.as_str());
    blocks.insert_all(&claims);
    let useful_text_length = useful_length(&blocks.blocks);
    let top = top_of(&page.nodes);
    let whole = text_of_element(&page.nodes, &silent, top);
    let boilerplate_ratio_basis_points = share_removed(whole.len(), useful_text_length);
    MainContent {
        passages: split_bounded_passages(&blocks.blocks),
        useful_text_length,
        boilerplate_ratio_basis_points,
    }
}

/// The positions that are those of nodes.
pub open spec fn in_page(list: Seq<usize>, n: int) -> Seq<int>
    decreases list.len(),
{
    if list.len() == 0 {
        Seq::empty()
    } else if list.last() < n {
        in_page(list.drop_last(), n).push(list.last() as int)
    } else {
        in_page(list.drop_last(), n)
    }
}

pub open spec fn main_selector() -> Seq<char> {
    "main, article, [role='main'], #content, #main-content, .main-content"@
}

pub open spec fn description_selector() -> Seq<char> {
    "meta[name='description'], meta[property='og:description'], meta[name='twitter:description']"@
}

pub open spec fn script_selector() -> Seq<char> {
    "script[type='application/ld+json']"@
}

/// The page that markup describes.
pub open spec fn parsed_page(html: Seq<char>) -> PageModel {
    let nodes = page_nodes(html);
    let n = nodes.len() as int;
    PageModel {
        nodes,
        mains: in_page(page_selection(html, main_selector()), n),
        bodies: in_page(page_selection(html, "body"@), n),
        titles: in_page(page_selection(html, "title"@), n),
        descriptions: in_page(page_selection(html, description_selector()), n),
        scripts: in_page(page_selection(html, script_selector()), n),
    }
}

fn select_in_page(html: &str, selector: &str, n: usize) -> (r: Vec<usize>)
    ensures
        positions(r@) == in_page(page_selection(html@, selector@), n as int),
        all_below(r@, n as int),
{
    let list = html_selection(html, selector);
    let mut out: Vec<usize> = Vec::new();
    let mut i: usize = 0;
    proof {
        assert(list@.take(0) =~= Seq::empty());
        assert(positions(out@) =~= Seq::empty());
    }
    while i < list.len()
        invariant
            i <= list@.len(),
            positions(out@) == in_page(list@.take(i as int), n as int),
            all_below(out@, n as int),
        decreases list@.len() - i,
    {
        proof {
            let next = list@.take(i as int + 1);
            assert(next.drop_last() =~= list@.take(i as int));
            assert(next.last() == list@[i as int]);
        }
        if list[i] < n {
            let ghost before = out@;
            out.push(list[i]);
            proof {
                assert(positions(out@) =~= positions(before).push(list@[i as int] as int));
            }
        }
        i = i + 1;
    }
    proof {
        assert(list@.take(list@.len() as int) =~= list@);
    }
    out
}

pub fn parse_page(html: &str) -> (r: HtmlPage)
    ensures
        r.well_formed(),
        r@ == parsed_page(html@),
{
    let nodes = html_nodes(html);
    let n: usize = nodes.len();
    HtmlPage {
        nodes,
        mains: select_in_page(
            html,
            "main, article, [role='main'], #content, #main-content, .main-content",
            n,
        ),
        bodies: select_in_page(html, "body", n),
        titles: select_in_page(html, "title", n),
        descriptions: select_in_page(
            html,
            "meta[name='description'], meta[property='og:description'], meta[name='twitter:description']",
            n,
        ),
        scripts: select_in_page(html, "script[type='application/ld+json']", n),
    }
}

pub fn extract_main_content(html: &str, final_url: &WebUrl) -> (r: MainContent)
    ensures
        is_main_content(r, parsed_page(html@), *final_url),
{
    let page = parse_page(html);
    read_page(&page, final_url)
}

/// The blocks that are read on a page say different things: no two have the
/// same key.
pub proof fn blocks_are_distinct(nodes: Seq<HtmlNode>, root: int, list: Seq<int>, i: int, j: int)
    requires
        0 <= i < j < content_blocks(nodes, root, list).len(),
    ensures
        dedup_key(content_blocks(nodes, root, list)[i]) != dedup_key(
            content_blocks(nodes, root, list)[j],
        ),
    decreases list.len(),
{
    let before = content_blocks(nodes, root, list.drop_last());
    if j < before.len() {
        blocks_are_distinct(nodes, root, list.drop_last(), i, j);
    } else {
        assert(content_blocks(nodes, root, list)[i] == before[i]);
    }
}

} // verus!
