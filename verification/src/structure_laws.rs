//! Laws of the structured parts of a page: its tables and lists, the blocks that
//! its text is made of, and what is read of them.

use crate::document::{
    element_text, element_texts, is_tag, page_nodes, page_selection, raw_text, shown_texts,
    subtree_end, tagged, tagged_within, HtmlNode,
};
use crate::jsonld::script_claims;
use crate::numeric::{row_claim, value_claim};
use crate::page::{
    cells_in, content_root, described, in_page, is_main_content, labelled_claims, list_claims,
    lists_claims, page_blocks, page_context, paired_claims, parsed_page, raw_texts, row_cells,
    rows_in, structured_claims, table_claims, tables_claims, titled_blocks, top_element,
    total_length, with_blocks, CellModel, PageModel,
};
use crate::page_laws::named;
use crate::passages::{bounded_passages, dedup_key, MainContent};
use crate::text::{collapse, join, strings};
use crate::weburl::WebUrl;
use vstd::prelude::*;

verus! {

/// The front of a list, of at most so many items.
pub open spec fn front<T>(list: Seq<T>, n: nat) -> Seq<T> {
    list.take(
        if list.len() <= n {
            list.len() as int
        } else {
            n as int
        },
    )
}

/// A cell with text is kept in its place, and is a heading exactly where the page
/// says so; one without text is left out.
pub proof fn cells_are_kept_in_order(nodes: Seq<HtmlNode>, list: Seq<int>, cell: int)
    ensures
        cells_in(nodes, Seq::empty()).len() == 0,
        element_text(nodes, cell).len() == 0 ==> cells_in(nodes, list.push(cell)) == cells_in(
            nodes,
            list,
        ),
        element_text(nodes, cell).len() > 0 ==> {
            let after = cells_in(nodes, list.push(cell));
            &&& after.drop_last() == cells_in(nodes, list)
            &&& after.len() == cells_in(nodes, list).len() + 1
            &&& after.last().text == element_text(nodes, cell)
            &&& after.last().heading <==> named(nodes[cell], "th"@)
        },
{
    assert(list.push(cell).drop_last() =~= list);
    if element_text(nodes, cell).len() > 0 {
        assert(cells_in(nodes, list.push(cell)).drop_last() =~= cells_in(nodes, list));
    }
    let tags = seq!["th"];
    if named(nodes[cell], "th"@) {
        assert(is_tag(nodes[cell], tags[0]@));
    }
}

/// A row with a cell is kept in its place; one without is left out.
pub proof fn rows_are_kept_in_order(nodes: Seq<HtmlNode>, list: Seq<int>, row: int)
    ensures
        rows_in(nodes, Seq::empty()).len() == 0,
        row_cells(nodes, row) == cells_in(nodes, tagged_within(nodes, seq!["th", "td"], row)),
        row_cells(nodes, row).len() == 0 ==> rows_in(nodes, list.push(row)) == rows_in(nodes, list),
        row_cells(nodes, row).len() > 0 ==> rows_in(nodes, list.push(row)) == rows_in(
            nodes,
            list,
        ).push(row_cells(nodes, row)),
{
    assert(list.push(row).drop_last() =~= list);
}

/// Under a row of headings each row with as many cells makes the claim of its cells
/// under them; without such a row the table is one of labelled values.
pub proof fn headings_stand_above_their_rows(
    context: Seq<char>,
    headings: Seq<CellModel>,
    rows: Seq<Seq<CellModel>>,
    row: Seq<CellModel>,
)
    requires
        headings.len() >= 2,
    ensures
        ({
            let heads = headings.map_values(|c: CellModel| c.text);
            let cells = row.map_values(|c: CellModel| c.text);
            let before = table_claims(context, seq![headings] + rows);
            let after = table_claims(context, (seq![headings] + rows).push(row));
            let headed = forall|i: int|
                0 <= i < headings.len() ==> (#[trigger] headings[i]).heading;
            &&& headed && (row.len() != headings.len() || row_claim(context, heads, cells) is None)
                ==> after == before
            &&& headed && row.len() == headings.len() && row_claim(context, heads, cells) is Some
                ==> after == before.push(row_claim(context, heads, cells)->0)
            &&& !headed ==> before == labelled_claims(context, seq![headings] + rows)
        }),
{
    let whole = seq![headings] + rows;
    assert(whole[0] == headings);
    assert(whole.drop_first() =~= rows);
    let more = whole.push(row);
    assert(more[0] == headings);
    assert(more.drop_first() =~= rows.push(row));
    assert(rows.push(row).drop_last() =~= rows);
    assert(crate::page::cell_texts(headings) =~= headings.map_values(|c: CellModel| c.text));
    assert(crate::page::cell_texts(row) =~= row.map_values(|c: CellModel| c.text));
}

/// The claims of the tables and lists of a page come in the order of the page.
pub proof fn claims_come_in_page_order(
    nodes: Seq<HtmlNode>,
    tables: Seq<int>,
    lists: Seq<int>,
    more: int,
    context: Seq<char>,
)
    ensures
        tables_claims(nodes, Seq::empty(), context).len() == 0,
        lists_claims(nodes, Seq::empty(), context).len() == 0,
        tables_claims(nodes, tables.push(more), context) == tables_claims(nodes, tables, context)
            + table_claims(context, rows_in(nodes, tagged_within(nodes, seq!["tr"], more))),
        lists_claims(nodes, lists.push(more), context) == lists_claims(nodes, lists, context)
            + list_claims(nodes, more, context),
{
    assert(tables.push(more).drop_last() =~= tables);
    assert(lists.push(more).drop_last() =~= lists);
}

/// A list of terms and values makes the claims of its first eight pairs, each term
/// with the value that stands at its place.
pub proof fn terms_go_with_their_values(
    context: Seq<char>,
    terms: Seq<Seq<char>>,
    values: Seq<Seq<char>>,
    n: int,
    nodes: Seq<HtmlNode>,
    list: int,
)
    requires
        0 <= n,
    ensures
        paired_claims(context, terms, values, 0).len() == 0,
        ({
            let before = paired_claims(context, terms, values, n);
            let after = paired_claims(context, terms, values, n + 1);
            match value_claim(context, terms[n], values[n]) {
                Some(claim) => after == before.push(claim),
                None => after == before,
            }
        }),
        ({
            let dts = tagged_within(nodes, seq!["dt"], list);
            let dds = tagged_within(nodes, seq!["dd"], list);
            let least: int = if dts.len() <= dds.len() {
                dts.len() as int
            } else {
                dds.len() as int
            };
            list_claims(nodes, list, context) == paired_claims(
                context,
                element_texts(nodes, dts),
                element_texts(nodes, dds),
                if least <= 8 {
                    least
                } else {
                    8
                },
            )
        }),
{
}

/// A page claims, in this order, what its first four descriptions say, the first
/// eight claims of its first eight scripts, and those of its first eight tables and
/// its first eight lists: sixteen in all at most.
pub proof fn claims_are_bounded_and_in_order(
    page: PageModel,
    root: int,
    url: WebUrl,
    context: Seq<char>,
)
    ensures
        ({
            let tables = tagged_within(page.nodes, seq!["table"], root);
            let lists = tagged_within(page.nodes, seq!["dl"], root);
            structured_claims(page, root, url, context) == front(
                front(described(page.nodes, page.descriptions), 4) + front(
                    script_claims(raw_texts(page.nodes, front(page.scripts, 8)), url),
                    8,
                ) + tables_claims(page.nodes, front(tables, 8), context) + lists_claims(
                    page.nodes,
                    front(lists, 8),
                    context,
                ),
                16,
            )
        }),
{
    let tables = tagged_within(page.nodes, seq!["table"], root);
    let lists = tagged_within(page.nodes, seq!["dl"], root);
    lemma_front(page.scripts, 8);
    lemma_front(tables, 8);
    lemma_front(lists, 8);
    let scripts = script_claims(raw_texts(page.nodes, front(page.scripts, 8)), url);
    lemma_first_texts(described(page.nodes, page.descriptions), 4);
    lemma_first_texts(scripts, 8);
    let whole = front(described(page.nodes, page.descriptions), 4) + front(scripts, 8)
        + tables_claims(page.nodes, front(tables, 8), context) + lists_claims(
        page.nodes,
        front(lists, 8),
        context,
    );
    lemma_first_texts(whole, 16);
}

proof fn lemma_front(list: Seq<int>, n: nat)
    ensures
        front(list, n) == crate::page::first_positions(list, n as int),
{
    if list.len() <= n {
        assert(list.take(list.len() as int) =~= list);
    }
}

proof fn lemma_first_texts(list: Seq<Seq<char>>, n: nat)
    ensures
        front(list, n) == crate::passages::first_texts(list, n as int),
{
    if list.len() <= n {
        assert(list.take(list.len() as int) =~= list);
    }
}

/// The subject of a page is its first heading within the content, and else its first
/// block.
pub proof fn pages_are_about_their_heading(page: PageModel)
    ensures
        ({
            let headings = tagged_within(page.nodes, seq!["h1"], content_root(page));
            let headed = headings.len() > 0 && element_text(page.nodes, headings[0]).len() > 0;
            &&& headed ==> page_context(page) == element_text(page.nodes, headings[0])
            &&& !headed && titled_blocks(page).len() > 0 ==> page_context(page) == titled_blocks(
                page,
            )[0]
            &&& !headed && titled_blocks(page).len() == 0 ==> page_context(page).len() == 0
        }),
{
}

/// Claims follow the blocks of the text; one that says what a block says is not
/// repeated.
pub proof fn claims_follow_the_blocks(blocks: Seq<Seq<char>>, list: Seq<Seq<char>>, more: Seq<char>)
    ensures
        blocks.is_prefix_of(with_blocks(blocks, list)),
        with_blocks(blocks, Seq::empty()) == blocks,
        (exists|i: int|
            0 <= i < with_blocks(blocks, list).len() && dedup_key(
                #[trigger] with_blocks(blocks, list)[i],
            ) == dedup_key(more)) ==> with_blocks(blocks, list.push(more)) == with_blocks(
            blocks,
            list,
        ),
        (forall|i: int|
            0 <= i < with_blocks(blocks, list).len() ==> dedup_key(
                #[trigger] with_blocks(blocks, list)[i],
            ) != dedup_key(more)) ==> with_blocks(blocks, list.push(more)) == with_blocks(
            blocks,
            list,
        ).push(more),
    decreases list.len(),
{
    assert(list.push(more).drop_last() =~= list);
    if list.len() > 0 {
        claims_follow_the_blocks(blocks, list.drop_last(), list.last());
        assert(list.drop_last().push(list.last()) =~= list);
    }
}

/// What is read of a page are the passages of its blocks, and its useful text is as
/// long as they are together.
pub proof fn passages_are_cut_from_the_blocks(content: MainContent, page: PageModel, url: WebUrl)
    requires
        is_main_content(content, page, url),
    ensures
        ({
            let blocks = page_blocks(page, url);
            &&& content.passages@.len() == bounded_passages(blocks).len()
            &&& forall|i: int|
                0 <= i < content.passages@.len() ==> (#[trigger] content.passages@[i])@
                    == bounded_passages(blocks)[i]
            &&& total_length(blocks) <= u64::MAX ==> content.useful_text_length == total_length(
                blocks,
            )
            &&& titled_blocks(page).is_prefix_of(blocks)
            &&& blocks == with_blocks(
                titled_blocks(page),
                structured_claims(page, content_root(page), url, page_context(page)),
            )
        }),
{
    claims_follow_the_blocks(
        titled_blocks(page),
        structured_claims(page, content_root(page), url, page_context(page)),
        Seq::empty(),
    );
    let blocks = page_blocks(page, url);
    assert(strings(content.passages@) == bounded_passages(blocks));
    assert(strings(content.passages@).len() == content.passages@.len());
    assert forall|i: int| 0 <= i < content.passages@.len() implies (
    #[trigger] content.passages@[i])@ == bounded_passages(blocks)[i] by {
        assert(strings(content.passages@)[i] == content.passages@[i]@);
    }
}

/// The outermost element is the first named node at the first depth.
pub proof fn the_outermost_element_is_the_first(nodes: Seq<HtmlNode>, k: int, at: int)
    requires
        0 <= k <= at < nodes.len(),
        nodes[at].depth == 1,
        nodes[at].name is Some,
        forall|j: int|
            k <= j < at ==> !((#[trigger] nodes[j]).depth == 1 && nodes[j].name is Some),
    ensures
        top_element(nodes, k) == at,
    decreases at - k,
{
    if k < at {
        assert(!(nodes[k].depth == 1 && nodes[k].name is Some));
        the_outermost_element_is_the_first(nodes, k + 1, at);
    }
}

/// The positions of a selection that lie in the page, in their order.
pub proof fn positions_within_the_page_are_kept(list: Seq<usize>, more: usize, n: int)
    ensures
        in_page(Seq::empty(), n).len() == 0,
        more < n ==> in_page(list.push(more), n) == in_page(list, n).push(more as int),
        more >= n ==> in_page(list.push(more), n) == in_page(list, n),
{
    assert(list.push(more).drop_last() =~= list);
}

/// Where the parts of a page are looked for.
pub proof fn parts_are_found_by_these_selectors(html: Seq<char>)
    ensures
        ({
            let page = parsed_page(html);
            let n = page.nodes.len() as int;
            &&& page.mains == in_page(
                page_selection(
                    html,
                    "main, article, [role='main'], #content, #main-content, .main-content"@,
                ),
                n,
            )
            &&& page.bodies == in_page(page_selection(html, "body"@), n)
            &&& page.titles == in_page(page_selection(html, "title"@), n)
            &&& page.descriptions == in_page(
                page_selection(
                    html,
                    "meta[name='description'], meta[property='og:description'], meta[name='twitter:description']"@,
                ),
                n,
            )
            &&& page.scripts == in_page(
                page_selection(html, "script[type='application/ld+json']"@),
                n,
            )
            &&& page.nodes == page_nodes(html)
        }),
{
}

/// The raw text of a stretch is that of its nodes, one behind the other.
pub proof fn raw_texts_follow_each_other(nodes: Seq<HtmlNode>, from: int, to: int)
    requires
        from <= to,
    ensures
        raw_text(nodes, from, from).len() == 0,
        nodes[to].text is Some ==> raw_text(nodes, from, to + 1) == raw_text(nodes, from, to)
            + nodes[to].text->0@,
        nodes[to].text is None ==> raw_text(nodes, from, to + 1) == raw_text(nodes, from, to),
{
}

/// The text of an element is what it shows, with single spaces also where one node
/// ends and the next begins; the elements within it are looked for behind it, up to
/// its end.
pub proof fn shown_texts_are_parted_by_spaces(nodes: Seq<HtmlNode>, i: int, tags: Seq<&str>)
    ensures
        element_text(nodes, i) == collapse(
            join(shown_texts(nodes, i, subtree_end(nodes, i)), " "@),
        ),
        tagged_within(nodes, tags, i) == tagged(nodes, tags, i + 1, subtree_end(nodes, i)),
{
}

} // verus!
