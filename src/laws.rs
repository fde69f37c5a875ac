use vstd::prelude::*;

use crate::ast::{text_of, texts_of, MdNode, NodeKind};
use crate::document::{plain_run, styled_run, EntryView};
use crate::error::RenderError;
use crate::render::{
    blocks, chain, decimal, enclose, inline_node, inline_nodes, lemma_inline_nodes_err,
    lemma_styled_children_err, list_item, list_items, marker, newline, styled_children,
};
use crate::style::{fixed_keys, StyleKey};

verus! {

/// A document made of one paragraph that holds one text node renders to
/// exactly one run: that text, with no style.
pub proof fn lemma_plain_paragraph(text: String, para: Vec<MdNode>, root: Vec<MdNode>)
    requires
        para@ == seq![MdNode::Text(text)],
        root@ == seq![MdNode::Paragraph(para)],
    ensures
        blocks(root@) == Ok::<Seq<EntryView>, RenderError>(seq![plain_run(text@)]),
{
    assert(root@.drop_last() =~= Seq::<MdNode>::empty());
    assert(para@.drop_last() =~= Seq::<MdNode>::empty());
    assert(inline_nodes(Seq::<MdNode>::empty(), 0) == Ok::<Seq<EntryView>, RenderError>(Seq::empty()));
    assert(inline_node(para@.last(), 0) == Ok::<Seq<EntryView>, RenderError>(seq![plain_run(text@)]));
    assert(Seq::<EntryView>::empty() + seq![plain_run(text@)] =~= seq![plain_run(text@)]);
    assert(inline_nodes(para@, 0) == Ok::<Seq<EntryView>, RenderError>(seq![plain_run(text@)]));
    assert(blocks(Seq::<MdNode>::empty()) == Ok::<Seq<EntryView>, RenderError>(Seq::empty()));
    assert(crate::render::block_node(root@.last()) == inline_nodes(para@, 0));
}

/// A list nested directly in a list item at depth `depth` is rendered one
/// level deeper: its items carry the list style of depth `depth + 1`.
pub proof fn lemma_nested_list_depth(
    index: nat,
    ordered: bool,
    depth: nat,
    inner_ordered: bool,
    inner: Vec<MdNode>,
    item_children: Vec<MdNode>,
)
    requires
        depth <= crate::render::MAX_LIST_DEPTH,
        item_children@ == seq![MdNode::List { ordered: inner_ordered, children: inner }],
    ensures
        list_item(MdNode::ListItem(item_children), index, ordered, depth) == enclose(
            seq![styled_run(marker(index, ordered), StyleKey::ListItem(depth as u32))],
            enclose(seq![newline()], list_items(inner@, inner_ordered, depth + 1), Seq::empty()),
            seq![newline()],
        ),
{
    let nested = MdNode::List { ordered: inner_ordered, children: inner };
    assert(item_children@.drop_last() =~= Seq::<MdNode>::empty());
    assert(item_children@.last() == nested);
    let r = inline_node(nested, depth);
    assert(r == enclose(seq![newline()], list_items(inner@, inner_ordered, depth + 1), Seq::empty()));
    assert(inline_nodes(Seq::<MdNode>::empty(), depth) == Ok::<Seq<EntryView>, RenderError>(Seq::empty()));
    match r {
        Ok(x) => {
            assert(Seq::<EntryView>::empty() + x =~= x);
        },
        Err(_) => {},
    }
    assert(inline_nodes(item_children@, depth) == r);
}

/// The first marker of a list nested in the first item of a list at depth
/// `depth` carries the list style of depth `depth + 1`, whatever the lists'
/// kinds; so a list nested three deep is rendered at depth 3.
pub proof fn lemma_nested_marker_depth(
    ordered: bool,
    depth: nat,
    inner_ordered: bool,
    inner: Vec<MdNode>,
    item_children: Vec<MdNode>,
)
    requires
        1 <= depth < crate::render::MAX_LIST_DEPTH,
        item_children@ == seq![MdNode::List { ordered: inner_ordered, children: inner }],
        inner@.len() > 0,
        list_items(inner@, inner_ordered, depth + 1) is Ok,
    ensures
        list_item(MdNode::ListItem(item_children), 0, ordered, depth) is Ok,
        list_item(MdNode::ListItem(item_children), 0, ordered, depth).unwrap()[2] == styled_run(
            marker(0, inner_ordered),
            StyleKey::ListItem((depth + 1) as u32),
        ),
{
    lemma_nested_list_depth(0, ordered, depth, inner_ordered, inner, item_children);
    lemma_list_items_first(inner@, inner_ordered, depth + 1);
}

/// The first entry that a non-empty list renders to is the marker of its
/// first item, in the list style of its depth.
pub proof fn lemma_list_items_first(items: Seq<MdNode>, ordered: bool, depth: nat)
    requires
        items.len() > 0,
        list_items(items, ordered, depth) is Ok,
    ensures
        list_items(items, ordered, depth).unwrap().len() > 0,
        list_items(items, ordered, depth).unwrap()[0] == styled_run(
            marker(0, ordered),
            StyleKey::ListItem(depth as u32),
        ),
    decreases items.len(),
{
    let prefix = list_items(items.drop_last(), ordered, depth);
    let last = list_item(items.last(), (items.len() - 1) as nat, ordered, depth);
    assert(list_items(items, ordered, depth) == crate::render::chain(prefix, last));
    if items.len() > 1 {
        lemma_list_items_first(items.drop_last(), ordered, depth);
        let x = prefix.unwrap();
        let y = last.unwrap();
        assert((x + y)[0] == x[0]);
    } else {
        assert(items.drop_last() =~= Seq::<MdNode>::empty());
        assert(prefix == Ok::<Seq<EntryView>, RenderError>(Seq::empty()));
        let y = last.unwrap();
        assert(y[0] == styled_run(marker(0, ordered), StyleKey::ListItem(depth as u32)));
        assert(Seq::<EntryView>::empty() + y =~= y);
    }
}

/// Rendering running text fails with `UnsupportedConstruct(Image)` at the
/// first image, unless something before it failed already: no image is
/// silently dropped.
pub proof fn lemma_image_aborts(s: Seq<MdNode>, i: int, depth: nat)
    requires
        0 <= i < s.len(),
        s[i] == MdNode::Image,
        inline_nodes(s.take(i), depth) is Ok,
    ensures
        inline_nodes(s, depth) == Err::<Seq<EntryView>, RenderError>(
            RenderError::UnsupportedConstruct(NodeKind::Image),
        ),
{
    assert(s.take(i + 1).drop_last() =~= s.take(i));
    assert(s.take(i + 1).last() == s[i]);
    assert(inline_node(s[i], depth) == Err::<Seq<EntryView>, RenderError>(
        RenderError::UnsupportedConstruct(NodeKind::Image),
    ));
    assert(inline_nodes(s.take(i + 1), depth) == crate::render::chain(
        inline_nodes(s.take(i), depth),
        inline_node(s[i], depth),
    ));
    lemma_inline_nodes_err(s, depth, i + 1);
}

/// Inside bold or emphasized text an image fails the render too, with
/// `UnsupportedConstruct(Image)`, unless something before it failed already.
pub proof fn lemma_styled_image_aborts(s: Seq<MdNode>, i: int, key: StyleKey, depth: nat)
    requires
        0 <= i < s.len(),
        s[i] == MdNode::Image,
        styled_children(s.take(i), key, depth) is Ok,
    ensures
        styled_children(s, key, depth) == Err::<Seq<EntryView>, RenderError>(
            RenderError::UnsupportedConstruct(NodeKind::Image),
        ),
{
    assert(s.take(i + 1).drop_last() =~= s.take(i));
    assert(s.take(i + 1).last() == s[i]);
    assert(inline_node(s[i], depth) == Err::<Seq<EntryView>, RenderError>(
        RenderError::UnsupportedConstruct(NodeKind::Image),
    ));
    lemma_styled_children_err(s, key, depth, i + 1);
}

/// A link renders to exactly two entries: an icon whose tooltip is the
/// address, then the link's flattened text in the link style, which is none
/// of the fixed styles.
pub proof fn lemma_link_entries(url: String, children: Vec<MdNode>, depth: nat)
    ensures
        inline_node(MdNode::Link { url, children }, depth) == Ok::<Seq<EntryView>, RenderError>(
            seq![
                EntryView::Icon { tooltip: url@ },
                styled_run(texts_of(children@), StyleKey::Link),
            ],
        ),
        !fixed_keys().contains(StyleKey::Link),
{
    assert(text_of(MdNode::Link { url, children }) == texts_of(children@));
    if fixed_keys().contains(StyleKey::Link) {
        let i = fixed_keys().index_of(StyleKey::Link);
        assert(fixed_keys()[i] == StyleKey::Link);
    }
}

/// The entries of the first `j` items of a list that renders are a prefix
/// of the entries of the whole list.
pub proof fn lemma_list_items_prefix(items: Seq<MdNode>, ordered: bool, depth: nat, j: int)
    requires
        0 <= j <= items.len(),
        list_items(items, ordered, depth) is Ok,
    ensures
        list_items(items.take(j), ordered, depth) is Ok,
        list_items(items.take(j), ordered, depth).unwrap().len() <= list_items(
            items,
            ordered,
            depth,
        ).unwrap().len(),
        list_items(items.take(j), ordered, depth).unwrap() == list_items(items, ordered, depth).unwrap().take(
            list_items(items.take(j), ordered, depth).unwrap().len() as int,
        ),
    decreases items.len() - j,
{
    let whole = list_items(items, ordered, depth).unwrap();
    if j == items.len() {
        assert(items.take(j) =~= items);
        assert(whole.take(whole.len() as int) =~= whole);
    } else {
        lemma_list_items_prefix(items, ordered, depth, j + 1);
        assert(items.take(j + 1).drop_last() =~= items.take(j));
        let longer = list_items(items.take(j + 1), ordered, depth);
        assert(longer == chain(
            list_items(items.take(j), ordered, depth),
            list_item(items.take(j + 1).last(), j as nat, ordered, depth),
        ));
        let x = list_items(items.take(j), ordered, depth).unwrap();
        let y = list_item(items.take(j + 1).last(), j as nat, ordered, depth).unwrap();
        assert(longer.unwrap() == x + y);
        let l = (x + y).len() as int;
        assert(l <= whole.len());
        assert(x + y == whole.take(l));
        assert forall|i: int| 0 <= i < x.len() implies whole.take(x.len() as int)[i] == x[i] by {
            assert(whole.take(l)[i] == (x + y)[i]);
        }
        assert(whole.take(x.len() as int) =~= x);
    }
}

/// Items are numbered by their position: in a list that renders, the
/// entries of item `k` start with its marker (`"k+1. "` in an ordered list,
/// whatever number the source gave the list), in the list style of the
/// list's depth.
pub proof fn lemma_kth_marker(items: Seq<MdNode>, ordered: bool, depth: nat, k: int)
    requires
        0 <= k < items.len(),
        list_items(items, ordered, depth) is Ok,
    ensures
        ({
            let out = list_items(items, ordered, depth).unwrap();
            let p = list_items(items.take(k), ordered, depth).unwrap().len();
            &&& p < out.len()
            &&& out[p as int] == styled_run(marker(k as nat, ordered), StyleKey::ListItem(depth as u32))
        }),
        ordered ==> marker(k as nat, ordered) == decimal((k + 1) as nat) + seq!['.', ' '],
{
    lemma_list_items_prefix(items, ordered, depth, k + 1);
    lemma_list_items_prefix(items, ordered, depth, k);
    assert(items.take(k + 1).drop_last() =~= items.take(k));
    assert(items.take(k + 1).last() == items[k]);
    let out = list_items(items, ordered, depth).unwrap();
    let x = list_items(items.take(k), ordered, depth).unwrap();
    let item = list_item(items[k], k as nat, ordered, depth);
    assert(list_items(items.take(k + 1), ordered, depth) == chain(
        list_items(items.take(k), ordered, depth),
        item,
    ));
    let y = item.unwrap();
    assert(list_items(items.take(k + 1), ordered, depth).unwrap() == x + y);
    assert(y.len() > 0);
    assert(y[0] == styled_run(marker(k as nat, ordered), StyleKey::ListItem(depth as u32)));
    let xy = x + y;
    assert(xy.len() <= out.len());
    assert(xy == out.take(xy.len() as int));
    assert(xy[x.len() as int] == y[0]);
    assert(out.take(xy.len() as int)[x.len() as int] == out[x.len() as int]);
}

} // verus!
