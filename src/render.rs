use vstd::prelude::*;

use crate::ast::{kind_of, text_of, texts_of, MdNode, NodeKind};
use crate::document::{plain_run, styled_run, CellGrid, Document, EntryView, GridView};
use crate::error::RenderError;
use crate::style::{level_of, HeadingLevel, StyleKey};
use crate::table::{project_spec, project_table};

verus! {

/// The deepest list nesting that is rendered; deeper lists are refused.
pub const MAX_LIST_DEPTH: u32 = 64;

/// What rendering a piece of the tree gives: entries, or the first failure.
pub type Rendered = Result<Seq<EntryView>, RenderError>;

/// A line break.
pub open spec fn newline() -> EntryView {
    plain_run(seq!['\n'])
}

/// A blank line.
pub open spec fn blank_line() -> EntryView {
    plain_run(seq!['\n', '\n'])
}

/// The entries of `a` then those of `b`; the first failure wins.
pub open spec fn chain(a: Rendered, b: Rendered) -> Rendered {
    match a {
        Err(e) => Err(e),
        Ok(x) => match b {
            Err(e) => Err(e),
            Ok(y) => Ok(x + y),
        },
    }
}

/// The entries of `r` between `pre` and `post`, unless `r` failed.
pub open spec fn enclose(pre: Seq<EntryView>, r: Rendered, post: Seq<EntryView>) -> Rendered {
    match r {
        Err(e) => Err(e),
        Ok(x) => Ok(pre + x + post),
    }
}

/// The character of a decimal digit.
pub open spec fn digit_char(d: nat) -> char {
    seq!['0', '1', '2', '3', '4', '5', '6', '7', '8', '9'][d as int]
}

/// The decimal digits of `n`, most significant first.
pub open spec fn decimal(n: nat) -> Seq<char>
    decreases n,
{
    if n < 10 {
        seq![digit_char(n)]
    } else {
        decimal(n / 10).push(digit_char(n % 10))
    }
}

/// The marker of the list item at position `index` (counted from 0):
/// `"1. "`, `"2. "`, ... in an ordered list, a bullet otherwise.
pub open spec fn marker(index: nat, ordered: bool) -> Seq<char> {
    if ordered {
        decimal(index + 1) + seq!['.', ' ']
    } else {
        seq!['\u{2022}', ' ']
    }
}

/// Renders one node of running text. `depth` is the nesting depth of the
/// enclosing list (0 outside lists).
pub open spec fn inline_node(n: MdNode, depth: nat) -> Rendered
    decreases n,
{
    match n {
        MdNode::InlineCode(v) => Ok(seq![styled_run(v@, StyleKey::InlineCode)]),
        MdNode::Text(v) => Ok(seq![plain_run(v@)]),
        MdNode::Strong(c) => styled_children(c@, StyleKey::Bold, depth),
        MdNode::Emphasis(c) => styled_children(c@, StyleKey::Emphasis, depth),
        MdNode::Link { url, children } => Ok(
            seq![EntryView::Icon { tooltip: url@ }, styled_run(text_of(n), StyleKey::Link)],
        ),
        MdNode::Paragraph(c) => inline_nodes(c@, depth),
        MdNode::List { ordered, children } => enclose(
            seq![newline()],
            list_items(children@, ordered, depth + 1),
            Seq::empty(),
        ),
        _ => Err(RenderError::UnsupportedConstruct(kind_of(n))),
    }
}

/// Renders a sequence of nodes of running text, in order.
pub open spec fn inline_nodes(s: Seq<MdNode>, depth: nat) -> Rendered
    decreases s,
{
    if s.len() == 0 {
        Ok(Seq::empty())
    } else {
        chain(inline_nodes(s.drop_last(), depth), inline_node(s.last(), depth))
    }
}

/// Renders the children of a bold or emphasized node: a text child becomes
/// a run in style `key`; any other child is rendered on its own terms.
pub open spec fn styled_children(s: Seq<MdNode>, key: StyleKey, depth: nat) -> Rendered
    decreases s,
{
    if s.len() == 0 {
        Ok(Seq::empty())
    } else {
        chain(
            styled_children(s.drop_last(), key, depth),
            match s.last() {
                MdNode::Text(v) => Ok(seq![styled_run(v@, key)]),
                _ => inline_node(s.last(), depth),
            },
        )
    }
}

/// Renders the items of a list nested at `depth` (1 for a top-level list).
pub open spec fn list_items(items: Seq<MdNode>, ordered: bool, depth: nat) -> Rendered
    decreases items,
{
    if depth > MAX_LIST_DEPTH {
        Err(RenderError::RecursionLimitExceeded)
    } else if items.len() == 0 {
        Ok(Seq::empty())
    } else {
        chain(
            list_items(items.drop_last(), ordered, depth),
            list_item(items.last(), (items.len() - 1) as nat, ordered, depth),
        )
    }
}

/// Renders the item at position `index` of a list nested at `depth`: its
/// marker in the list style of that depth, its content, and a line break.
pub open spec fn list_item(item: MdNode, index: nat, ordered: bool, depth: nat) -> Rendered
    decreases item,
{
    enclose(
        seq![styled_run(marker(index, ordered), StyleKey::ListItem(depth as u32))],
        match item {
            MdNode::List { ordered: o, children } => list_items(children@, o, depth + 1),
            MdNode::ListItem(c) => inline_nodes(c@, depth),
            _ => Err(RenderError::UnsupportedConstruct(kind_of(item))),
        },
        seq![newline()],
    )
}

/// Renders one top-level block.
pub open spec fn block_node(n: MdNode) -> Rendered {
    match n {
        MdNode::BlockQuote(_) => Ok(
            seq![newline(), styled_run(text_of(n), StyleKey::BlockQuote), newline()],
        ),
        MdNode::List { ordered, children } => enclose(
            seq![blank_line()],
            list_items(children@, ordered, 1),
            seq![newline()],
        ),
        MdNode::Heading { depth, .. } => match level_of(depth) {
            Some(level) => Ok(
                seq![
                    newline(),
                    EntryView::Run {
                        text: text_of(n),
                        styles: seq![StyleKey::Bold, StyleKey::Heading(level)],
                    },
                    newline(),
                ],
            ),
            None => Err(RenderError::UnsupportedConstruct(NodeKind::Heading)),
        },
        MdNode::Table(rows) => match project_spec(rows@) {
            Ok(g) => Ok(seq![newline(), EntryView::Grid(g), newline()]),
            Err(e) => Err(e),
        },
        MdNode::Paragraph(c) => inline_nodes(c@, 0),
        MdNode::Code { value, .. } => Ok(
            seq![blank_line(), styled_run(value@, StyleKey::CodeBlock), blank_line()],
        ),
        _ => Err(RenderError::UnsupportedConstruct(kind_of(n))),
    }
}

/// Renders a sequence of top-level blocks, in order.
pub open spec fn blocks(s: Seq<MdNode>) -> Rendered
    decreases s,
{
    if s.len() == 0 {
        Ok(Seq::empty())
    } else {
        chain(blocks(s.drop_last()), block_node(s.last()))
    }
}

/// The output contract shared by the emitters: on success `doc` grew by
/// exactly the entries that `spec` gives; otherwise the same error came back.
pub open spec fn emitted(spec: Rendered, r: Result<(), RenderError>, before: Seq<EntryView>, after: Seq<EntryView>) -> bool {
    match spec {
        Ok(es) => r is Ok && after == before + es,
        Err(e) => r == Err::<(), RenderError>(e),
    }
}


/// A failure within a prefix of the inline nodes is the failure of all of them.
pub proof fn lemma_inline_nodes_err(s: Seq<MdNode>, depth: nat, k: int)
    requires
        0 <= k <= s.len(),
        inline_nodes(s.take(k), depth) is Err,
    ensures
        inline_nodes(s, depth) == inline_nodes(s.take(k), depth),
    decreases s.len() - k,
{
    if k < s.len() {
        assert(s.take(k + 1).drop_last() =~= s.take(k));
        lemma_inline_nodes_err(s, depth, k + 1);
    } else {
        assert(s.take(k) =~= s);
    }
}

/// A failure within a prefix of the styled children is the failure of all.
pub proof fn lemma_styled_children_err(s: Seq<MdNode>, key: StyleKey, depth: nat, k: int)
    requires
        0 <= k <= s.len(),
        styled_children(s.take(k), key, depth) is Err,
    ensures
        styled_children(s, key, depth) == styled_children(s.take(k), key, depth),
    decreases s.len() - k,
{
    if k < s.len() {
        assert(s.take(k + 1).drop_last() =~= s.take(k));
        lemma_styled_children_err(s, key, depth, k + 1);
    } else {
        assert(s.take(k) =~= s);
    }
}

/// A failure within a prefix of the list items is the failure of all.
pub proof fn lemma_list_items_err(s: Seq<MdNode>, ordered: bool, depth: nat, k: int)
    requires
        0 <= k <= s.len(),
        list_items(s.take(k), ordered, depth) is Err,
    ensures
        list_items(s, ordered, depth) == list_items(s.take(k), ordered, depth),
    decreases s.len() - k,
{
    if k < s.len() {
        assert(s.take(k + 1).drop_last() =~= s.take(k));
        lemma_list_items_err(s, ordered, depth, k + 1);
    } else {
        assert(s.take(k) =~= s);
    }
}

/// A failure within a prefix of the blocks is the failure of all of them.
proof fn lemma_blocks_err(s: Seq<MdNode>, k: int)
    requires
        0 <= k <= s.len(),
        blocks(s.take(k)) is Err,
    ensures
        blocks(s) == blocks(s.take(k)),
    decreases s.len() - k,
{
    if k < s.len() {
        assert(s.take(k + 1).drop_last() =~= s.take(k));
        lemma_blocks_err(s, k + 1);
    } else {
        assert(s.take(k) =~= s);
    }
}

/// The text of a decimal digit.
fn digit_str(d: usize) -> (r: &'static str)
    requires
        d < 10,
    ensures
        r@ == seq![digit_char(d as nat)],
{
    proof {
        reveal_strlit("0");
        reveal_strlit("1");
        reveal_strlit("2");
        reveal_strlit("3");
        reveal_strlit("4");
        reveal_strlit("5");
        reveal_strlit("6");
        reveal_strlit("7");
        reveal_strlit("8");
        reveal_strlit("9");
    }
    let r = match d {
        0 => "0",
        1 => "1",
        2 => "2",
        3 => "3",
        4 => "4",
        5 => "5",
        6 => "6",
        7 => "7",
        8 => "8",
        _ => "9",
    };
    assert(r@ =~= seq![digit_char(d as nat)]);
    r
}

/// Appends the decimal digits of `n` to `out`.
fn push_decimal(n: usize, out: &mut String)
    ensures
        final(out)@ == old(out)@ + decimal(n as nat),
    decreases n,
{
    if n >= 10 {
        push_decimal(n / 10, out);
    }
    out.append(digit_str(n % 10));
    assert(old(out)@ + decimal(n as nat) =~= out@);
}

/// The marker of the list item at position `index`.
pub fn list_marker(index: usize, ordered: bool) -> (r: String)
    requires
        index < usize::MAX,
    ensures
        r@ == marker(index as nat, ordered),
{
    proof {
        reveal_strlit(". ");
        reveal_strlit("\u{2022} ");
    }
    if ordered {
        let mut m = String::new();
        push_decimal(index + 1, &mut m);
        m.append(". ");
        assert(m@ =~= marker(index as nat, ordered));
        m
    } else {
        let m = String::from_str("\u{2022} ");
        assert(m@ =~= marker(index as nat, ordered));
        m
    }
}

/// Appends a line break.
fn emit_newline(doc: &mut Document)
    ensures
        final(doc)@ == old(doc)@.push(newline()),
{
    proof {
        reveal_strlit("\n");
    }
    doc.insert_text("\n");
    assert(plain_run("\n"@) == newline()) by {
        assert("\n"@ =~= seq!['\n']);
    }
}

/// Appends a blank line.
fn emit_blank_line(doc: &mut Document)
    ensures
        final(doc)@ == old(doc)@.push(blank_line()),
{
    proof {
        reveal_strlit("\n\n");
    }
    doc.insert_text("\n\n");
    assert(plain_run("\n\n"@) == blank_line()) by {
        assert("\n\n"@ =~= seq!['\n', '\n']);
    }
}

/// Renders one node of running text into `doc`.
pub fn md_inline_node(doc: &mut Document, n: &MdNode, depth: u32) -> (r: Result<(), RenderError>)
    requires
        depth <= MAX_LIST_DEPTH,
    ensures
        emitted(inline_node(*n, depth as nat), r, old(doc)@, final(doc)@),
    decreases n,
{
    let ghost before = doc@;
    match n {
        MdNode::InlineCode(v) => {
            doc.insert_with_style(v.as_str(), StyleKey::InlineCode);
            assert(doc@ =~= before + seq![styled_run(v@, StyleKey::InlineCode)]);
            Ok(())
        },
        MdNode::Text(v) => {
            doc.insert_text(v.as_str());
            assert(doc@ =~= before + seq![plain_run(v@)]);
            Ok(())
        },
        MdNode::Strong(c) => md_styled_children(doc, c, StyleKey::Bold, depth),
        MdNode::Emphasis(c) => md_styled_children(doc, c, StyleKey::Emphasis, depth),
        MdNode::Link { url, .. } => {
            doc.insert_icon(url.as_str());
            let text = n.to_text();
            doc.insert_with_style(text.as_str(), StyleKey::Link);
            assert(doc@ =~= before + seq![EntryView::Icon { tooltip: url@ }, styled_run(text_of(*n), StyleKey::Link)]);
            Ok(())
        },
        MdNode::Paragraph(c) => md_paragraph2buf(doc, c, depth),
        MdNode::List { ordered, children } => {
            emit_newline(doc);
            let r = md_list2buf(doc, children, *ordered, depth + 1);
            proof {
                if r is Ok {
                    let es = list_items(children@, *ordered, depth as nat + 1).unwrap();
                    assert(doc@ =~= before + (seq![newline()] + es + Seq::<EntryView>::empty()));
                }
            }
            r
        },
        _ => Err(RenderError::UnsupportedConstruct(n.kind())),
    }
}

/// Renders nodes of running text into `doc`, in order.
pub fn md_paragraph2buf(doc: &mut Document, nodes: &Vec<MdNode>, depth: u32) -> (r: Result<(), RenderError>)
    requires
        depth <= MAX_LIST_DEPTH,
    ensures
        emitted(inline_nodes(nodes@, depth as nat), r, old(doc)@, final(doc)@),
    decreases nodes,
{
    let ghost start = doc@;
    let ghost mut produced = Seq::<EntryView>::empty();
    let mut i: usize = 0;
    assert(nodes@.take(0) =~= Seq::<MdNode>::empty());
    while i < nodes.len()
        invariant
            i <= nodes@.len(),
            depth <= MAX_LIST_DEPTH,
            inline_nodes(nodes@.take(i as int), depth as nat) == Ok::<Seq<EntryView>, RenderError>(produced),
            doc@ == start + produced,
        decreases nodes@.len() - i,
    {
        assert(nodes@.take(i + 1).drop_last() =~= nodes@.take(i as int));
        let ghost before = doc@;
        assert(nodes@.take(i + 1).last() == nodes@[i as int]);
        match md_inline_node(doc, &nodes[i], depth) {
            Ok(()) => {
                proof {
                    let es = inline_node(nodes@[i as int], depth as nat).unwrap();
                    assert(doc@.skip(before.len() as int) =~= es);
                    produced = produced + es;
                    assert(doc@ =~= start + produced);
                }
            },
            Err(e) => {
                proof {
                    lemma_inline_nodes_err(nodes@, depth as nat, i + 1);
                }
                return Err(e);
            },
        }
        i = i + 1;
    }
    assert(nodes@.take(i as int) =~= nodes@);
    Ok(())
}

/// Renders the children of a bold or emphasized node into `doc`.
pub fn md_styled_children(doc: &mut Document, nodes: &Vec<MdNode>, key: StyleKey, depth: u32) -> (r: Result<(), RenderError>)
    requires
        depth <= MAX_LIST_DEPTH,
    ensures
        emitted(styled_children(nodes@, key, depth as nat), r, old(doc)@, final(doc)@),
    decreases nodes,
{
    let ghost start = doc@;
    let ghost mut produced = Seq::<EntryView>::empty();
    let mut i: usize = 0;
    assert(nodes@.take(0) =~= Seq::<MdNode>::empty());
    while i < nodes.len()
        invariant
            i <= nodes@.len(),
            depth <= MAX_LIST_DEPTH,
            styled_children(nodes@.take(i as int), key, depth as nat) == Ok::<Seq<EntryView>, RenderError>(produced),
            doc@ == start + produced,
        decreases nodes@.len() - i,
    {
        assert(nodes@.take(i + 1).drop_last() =~= nodes@.take(i as int));
        let ghost before = doc@;
        assert(nodes@.take(i + 1).last() == nodes@[i as int]);
        let ghost item_spec = match nodes@[i as int] {
            MdNode::Text(v) => Ok(seq![styled_run(v@, key)]),
            _ => inline_node(nodes@[i as int], depth as nat),
        };
        let r = match &nodes[i] {
            MdNode::Text(v) => {
                doc.insert_with_style(v.as_str(), key);
                assert(doc@ =~= before + seq![styled_run(v@, key)]);
                Ok(())
            },
            other => md_inline_node(doc, other, depth),
        };
        assert(emitted(item_spec, r, before, doc@));
        match r {
            Ok(()) => {
                proof {
                    let es = item_spec.unwrap();
                    assert(doc@.skip(before.len() as int) =~= es);
                    produced = produced + es;
                    assert(doc@ =~= start + produced);
                }
            },
            Err(e) => {
                proof {
                    lemma_styled_children_err(nodes@, key, depth as nat, i + 1);
                }
                return Err(e);
            },
        }
        i = i + 1;
    }
    assert(nodes@.take(i as int) =~= nodes@);
    Ok(())
}

/// Renders the items of a list nested at `depth` into `doc`.
pub fn md_list2buf(doc: &mut Document, items: &Vec<MdNode>, ordered: bool, depth: u32) -> (r: Result<(), RenderError>)
    requires
        depth <= MAX_LIST_DEPTH + 1,
    ensures
        emitted(list_items(items@, ordered, depth as nat), r, old(doc)@, final(doc)@),
    decreases items,
{
    if depth > MAX_LIST_DEPTH {
        return Err(RenderError::RecursionLimitExceeded);
    }
    let ghost start = doc@;
    let ghost mut produced = Seq::<EntryView>::empty();
    let mut i: usize = 0;
    assert(items@.take(0) =~= Seq::<MdNode>::empty());
    while i < items.len()
        invariant
            i <= items@.len(),
            depth <= MAX_LIST_DEPTH,
            list_items(items@.take(i as int), ordered, depth as nat) == Ok::<Seq<EntryView>, RenderError>(produced),
            doc@ == start + produced,
        decreases items@.len() - i,
    {
        assert(items@.take(i + 1).drop_last() =~= items@.take(i as int));
        let ghost before = doc@;
        let m = list_marker(i, ordered);
        doc.insert_with_style(m.as_str(), StyleKey::ListItem(depth));
        let ghost after_marker = doc@;
        assert(items@.take(i + 1).last() == items@[i as int]);
        let ghost content_spec = match items@[i as int] {
            MdNode::List { ordered: o, children } => list_items(children@, o, depth as nat + 1),
            MdNode::ListItem(c) => inline_nodes(c@, depth as nat),
            _ => Err(RenderError::UnsupportedConstruct(kind_of(items@[i as int]))),
        };
        assert(list_item(items@[i as int], i as nat, ordered, depth as nat) == enclose(
            seq![styled_run(marker(i as nat, ordered), StyleKey::ListItem(depth))],
            content_spec,
            seq![newline()],
        ));
        let r = match &items[i] {
            MdNode::List { ordered: o, children } => md_list2buf(doc, children, *o, depth + 1),
            MdNode::ListItem(c) => md_paragraph2buf(doc, c, depth),
            other => Err(RenderError::UnsupportedConstruct(other.kind())),
        };
        assert(emitted(content_spec, r, after_marker, doc@));
        match r {
            Ok(()) => {
                let ghost content = content_spec.unwrap();
                assert(doc@.skip(after_marker.len() as int) =~= content);
                emit_newline(doc);
                proof {
                    assert(after_marker =~= before.push(styled_run(marker(i as nat, ordered), StyleKey::ListItem(depth))));
                    assert(doc@ =~= before + (seq![styled_run(marker(i as nat, ordered), StyleKey::ListItem(depth))] + content + seq![newline()]));
                    produced = produced + (seq![styled_run(marker(i as nat, ordered), StyleKey::ListItem(depth))] + content + seq![newline()]);
                    assert(doc@ =~= start + produced);
                }
            },
            Err(e) => {
                proof {
                    lemma_list_items_err(items@, ordered, depth as nat, i + 1);
                }
                return Err(e);
            },
        }
        i = i + 1;
    }
    assert(items@.take(i as int) =~= items@);
    Ok(())
}

/// Renders one top-level block into `doc`.
pub fn md_block(doc: &mut Document, n: &MdNode) -> (r: Result<(), RenderError>)
    ensures
        emitted(block_node(*n), r, old(doc)@, final(doc)@),
{
    let ghost before = doc@;
    match n {
        MdNode::BlockQuote(_) => {
            emit_newline(doc);
            let text = n.to_text();
            doc.insert_with_style(text.as_str(), StyleKey::BlockQuote);
            emit_newline(doc);
            assert(doc@ =~= before + seq![newline(), styled_run(text_of(*n), StyleKey::BlockQuote), newline()]);
            Ok(())
        },
        MdNode::List { ordered, children } => {
            emit_blank_line(doc);
            let r = md_list2buf(doc, children, *ordered, 1);
            match r {
                Ok(()) => {
                    let ghost es = list_items(children@, *ordered, 1).unwrap();
                    emit_newline(doc);
                    assert(doc@ =~= before + (seq![blank_line()] + es + seq![newline()]));
                    Ok(())
                },
                Err(e) => Err(e),
            }
        },
        MdNode::Heading { depth, .. } => {
            let level = match HeadingLevel::from_depth(*depth) {
                Some(l) => l,
                None => {
                    return Err(RenderError::UnsupportedConstruct(NodeKind::Heading));
                },
            };
            emit_newline(doc);
            let text = n.to_text();
            let styles = vec![StyleKey::Bold, StyleKey::Heading(level)];
            let ghost sv = styles@;
            doc.insert_styled(text.as_str(), styles);
            emit_newline(doc);
            assert(sv =~= seq![StyleKey::Bold, StyleKey::Heading(level)]);
            assert(doc@ =~= before + seq![
                newline(),
                EntryView::Run { text: text_of(*n), styles: seq![StyleKey::Bold, StyleKey::Heading(level)] },
                newline(),
            ]);
            Ok(())
        },
        MdNode::Table(rows) => {
            match project_table(rows) {
                Ok(grid) => {
                    let ghost g = grid@;
                    emit_newline(doc);
                    doc.insert_grid(grid);
                    emit_newline(doc);
                    assert(doc@ =~= before + seq![newline(), EntryView::Grid(g), newline()]);
                    Ok(())
                },
                Err(e) => Err(e),
            }
        },
        MdNode::Paragraph(c) => md_paragraph2buf(doc, c, 0),
        MdNode::Code { value, .. } => {
            emit_blank_line(doc);
            doc.insert_with_style(value.as_str(), StyleKey::CodeBlock);
            emit_blank_line(doc);
            assert(doc@ =~= before + seq![blank_line(), styled_run(value@, StyleKey::CodeBlock), blank_line()]);
            Ok(())
        },
        _ => Err(RenderError::UnsupportedConstruct(n.kind())),
    }
}

/// Renders top-level blocks into `doc`, in order. On failure `doc` may hold
/// the entries of the blocks before the failing one.
pub fn render_blocks(doc: &mut Document, nodes: &Vec<MdNode>) -> (r: Result<(), RenderError>)
    ensures
        emitted(blocks(nodes@), r, old(doc)@, final(doc)@),
{
    let ghost start = doc@;
    let ghost mut produced = Seq::<EntryView>::empty();
    let mut i: usize = 0;
    assert(nodes@.take(0) =~= Seq::<MdNode>::empty());
    while i < nodes.len()
        invariant
            i <= nodes@.len(),
            blocks(nodes@.take(i as int)) == Ok::<Seq<EntryView>, RenderError>(produced),
            doc@ == start + produced,
        decreases nodes@.len() - i,
    {
        assert(nodes@.take(i + 1).drop_last() =~= nodes@.take(i as int));
        assert(nodes@.take(i + 1).last() == nodes@[i as int]);
        let ghost before = doc@;
        match md_block(doc, &nodes[i]) {
            Ok(()) => {
                proof {
                    let es = block_node(nodes@[i as int]).unwrap();
                    assert(doc@.skip(before.len() as int) =~= es);
                    produced = produced + es;
                    assert(doc@ =~= start + produced);
                }
            },
            Err(e) => {
                proof {
                    lemma_blocks_err(nodes@, i + 1);
                }
                return Err(e);
            },
        }
        i = i + 1;
    }
    assert(nodes@.take(i as int) =~= nodes@);
    Ok(())
}

} // verus!
