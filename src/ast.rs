use vstd::prelude::*;

verus! {

/// The kinds of node of a parsed Markdown tree.
#[derive(Clone, Copy, Debug, PartialEq, Eq, Structural)]
pub enum NodeKind {
    Root,
    Paragraph,
    Heading,
    Text,
    Strong,
    Emphasis,
    InlineCode,
    Link,
    LinkReference,
    Image,
    ImageReference,
    List,
    ListItem,
    BlockQuote,
    Code,
    Table,
    TableRow,
    TableCell,
    Html,
    Other,
}

/// A node of a parsed Markdown tree.
///
/// Container nodes hold their children in document order. Node kinds that
/// the renderer does not distinguish are kept as `OtherParent` (a node with
/// children) or `OtherLeaf` (a node that carries a literal value, possibly
/// empty), so that the text of every subtree is still known.
#[derive(Debug)]
pub enum MdNode {
    Root(Vec<MdNode>),
    Paragraph(Vec<MdNode>),
    Heading { depth: u8, children: Vec<MdNode> },
    Text(String),
    Strong(Vec<MdNode>),
    Emphasis(Vec<MdNode>),
    InlineCode(String),
    Link { url: String, children: Vec<MdNode> },
    LinkReference(Vec<MdNode>),
    Image,
    ImageReference,
    List { ordered: bool, children: Vec<MdNode> },
    ListItem(Vec<MdNode>),
    BlockQuote(Vec<MdNode>),
    Code { value: String, lang: Option<String> },
    Table(Vec<MdNode>),
    TableRow(Vec<MdNode>),
    TableCell(Vec<MdNode>),
    Html(String),
    OtherParent(Vec<MdNode>),
    OtherLeaf(String),
}

/// The kind of a node.
pub open spec fn kind_of(n: MdNode) -> NodeKind {
    match n {
        MdNode::Root(_) => NodeKind::Root,
        MdNode::Paragraph(_) => NodeKind::Paragraph,
        MdNode::Heading { .. } => NodeKind::Heading,
        MdNode::Text(_) => NodeKind::Text,
        MdNode::Strong(_) => NodeKind::Strong,
        MdNode::Emphasis(_) => NodeKind::Emphasis,
        MdNode::InlineCode(_) => NodeKind::InlineCode,
        MdNode::Link { .. } => NodeKind::Link,
        MdNode::LinkReference(_) => NodeKind::LinkReference,
        MdNode::Image => NodeKind::Image,
        MdNode::ImageReference => NodeKind::ImageReference,
        MdNode::List { .. } => NodeKind::List,
        MdNode::ListItem(_) => NodeKind::ListItem,
        MdNode::BlockQuote(_) => NodeKind::BlockQuote,
        MdNode::Code { .. } => NodeKind::Code,
        MdNode::Table(_) => NodeKind::Table,
        MdNode::TableRow(_) => NodeKind::TableRow,
        MdNode::TableCell(_) => NodeKind::TableCell,
        MdNode::Html(_) => NodeKind::Html,
        MdNode::OtherParent(_) => NodeKind::Other,
        MdNode::OtherLeaf(_) => NodeKind::Other,
    }
}

/// The children of a container node; `None` for a node without children.
pub open spec fn children_of(n: MdNode) -> Option<Seq<MdNode>> {
    match n {
        MdNode::Root(c) => Some(c@),
        MdNode::Paragraph(c) => Some(c@),
        MdNode::Heading { children, .. } => Some(children@),
        MdNode::Strong(c) => Some(c@),
        MdNode::Emphasis(c) => Some(c@),
        MdNode::Link { children, .. } => Some(children@),
        MdNode::LinkReference(c) => Some(c@),
        MdNode::List { children, .. } => Some(children@),
        MdNode::ListItem(c) => Some(c@),
        MdNode::BlockQuote(c) => Some(c@),
        MdNode::Table(c) => Some(c@),
        MdNode::TableRow(c) => Some(c@),
        MdNode::TableCell(c) => Some(c@),
        MdNode::OtherParent(c) => Some(c@),
        _ => None,
    }
}

/// The literal value of a leaf node (empty for a void node such as an image).
pub open spec fn literal_of(n: MdNode) -> Seq<char> {
    match n {
        MdNode::Text(v) => v@,
        MdNode::InlineCode(v) => v@,
        MdNode::Code { value, .. } => value@,
        MdNode::Html(v) => v@,
        MdNode::OtherLeaf(v) => v@,
        _ => Seq::empty(),
    }
}

/// The text of a subtree with all markup dropped: the literal value of a
/// leaf, or the concatenated texts of a container's children.
pub open spec fn text_of(n: MdNode) -> Seq<char>
    decreases n,
{
    match n {
        MdNode::Root(c) => texts_of(c@),
        MdNode::Paragraph(c) => texts_of(c@),
        MdNode::Heading { children, .. } => texts_of(children@),
        MdNode::Strong(c) => texts_of(c@),
        MdNode::Emphasis(c) => texts_of(c@),
        MdNode::Link { children, .. } => texts_of(children@),
        MdNode::LinkReference(c) => texts_of(c@),
        MdNode::List { children, .. } => texts_of(children@),
        MdNode::ListItem(c) => texts_of(c@),
        MdNode::BlockQuote(c) => texts_of(c@),
        MdNode::Table(c) => texts_of(c@),
        MdNode::TableRow(c) => texts_of(c@),
        MdNode::TableCell(c) => texts_of(c@),
        MdNode::OtherParent(c) => texts_of(c@),
        _ => literal_of(n),
    }
}

/// The concatenated texts of a sequence of subtrees.
pub open spec fn texts_of(s: Seq<MdNode>) -> Seq<char>
    decreases s,
{
    if s.len() == 0 {
        Seq::empty()
    } else {
        texts_of(s.drop_last()) + text_of(s.last())
    }
}


/// The children of `s` before index `i` have texts whose concatenation is
/// extended by the text of child `i`.
pub proof fn lemma_texts_of_push(s: Seq<MdNode>, i: int)
    requires
        0 <= i < s.len(),
    ensures
        texts_of(s.take(i + 1)) == texts_of(s.take(i)) + text_of(s[i]),
{
    assert(s.take(i + 1).drop_last() =~= s.take(i));
}

impl MdNode {
    /// The kind of this node.
    pub fn kind(&self) -> (k: NodeKind)
        ensures
            k == kind_of(*self),
    {
        match self {
            MdNode::Root(_) => NodeKind::Root,
            MdNode::Paragraph(_) => NodeKind::Paragraph,
            MdNode::Heading { .. } => NodeKind::Heading,
            MdNode::Text(_) => NodeKind::Text,
            MdNode::Strong(_) => NodeKind::Strong,
            MdNode::Emphasis(_) => NodeKind::Emphasis,
            MdNode::InlineCode(_) => NodeKind::InlineCode,
            MdNode::Link { .. } => NodeKind::Link,
            MdNode::LinkReference(_) => NodeKind::LinkReference,
            MdNode::Image => NodeKind::Image,
            MdNode::ImageReference => NodeKind::ImageReference,
            MdNode::List { .. } => NodeKind::List,
            MdNode::ListItem(_) => NodeKind::ListItem,
            MdNode::BlockQuote(_) => NodeKind::BlockQuote,
            MdNode::Code { .. } => NodeKind::Code,
            MdNode::Table(_) => NodeKind::Table,
            MdNode::TableRow(_) => NodeKind::TableRow,
            MdNode::TableCell(_) => NodeKind::TableCell,
            MdNode::Html(_) => NodeKind::Html,
            MdNode::OtherParent(_) => NodeKind::Other,
            MdNode::OtherLeaf(_) => NodeKind::Other,
        }
    }

    /// The children of this node, if it is a container.
    pub fn children(&self) -> (r: Option<&Vec<MdNode>>)
        ensures
            match r {
                Some(c) => children_of(*self) == Some(c@),
                None => children_of(*self) is None,
            },
    {
        match self {
            MdNode::Root(c) => Some(c),
            MdNode::Paragraph(c) => Some(c),
            MdNode::Heading { children, .. } => Some(children),
            MdNode::Strong(c) => Some(c),
            MdNode::Emphasis(c) => Some(c),
            MdNode::Link { children, .. } => Some(children),
            MdNode::LinkReference(c) => Some(c),
            MdNode::List { children, .. } => Some(children),
            MdNode::ListItem(c) => Some(c),
            MdNode::BlockQuote(c) => Some(c),
            MdNode::Table(c) => Some(c),
            MdNode::TableRow(c) => Some(c),
            MdNode::TableCell(c) => Some(c),
            MdNode::OtherParent(c) => Some(c),
            _ => None,
        }
    }

    /// The text of this subtree with all markup dropped.
    pub fn to_text(&self) -> (r: String)
        ensures
            r@ == text_of(*self),
    {
        let mut out = String::new();
        push_text(self, &mut out);
        out
    }
}

/// Appends the text of the subtree `n` to `out`.
fn push_text(n: &MdNode, out: &mut String)
    ensures
        final(out)@ == old(out)@ + text_of(*n),
    decreases n, 0int,
{
    match n {
        MdNode::Text(v) => out.append(v.as_str()),
        MdNode::InlineCode(v) => out.append(v.as_str()),
        MdNode::Code { value, .. } => out.append(value.as_str()),
        MdNode::Html(v) => out.append(v.as_str()),
        MdNode::OtherLeaf(v) => out.append(v.as_str()),
        MdNode::Image => {
            assert(old(out)@ + text_of(*n) =~= old(out)@);
        },
        MdNode::ImageReference => {
            assert(old(out)@ + text_of(*n) =~= old(out)@);
        },
        MdNode::Root(c) => push_texts(c, out),
        MdNode::Paragraph(c) => push_texts(c, out),
        MdNode::Heading { children, .. } => push_texts(children, out),
        MdNode::Strong(c) => push_texts(c, out),
        MdNode::Emphasis(c) => push_texts(c, out),
        MdNode::Link { children, .. } => push_texts(children, out),
        MdNode::LinkReference(c) => push_texts(c, out),
        MdNode::List { children, .. } => push_texts(children, out),
        MdNode::ListItem(c) => push_texts(c, out),
        MdNode::BlockQuote(c) => push_texts(c, out),
        MdNode::Table(c) => push_texts(c, out),
        MdNode::TableRow(c) => push_texts(c, out),
        MdNode::TableCell(c) => push_texts(c, out),
        MdNode::OtherParent(c) => push_texts(c, out),
    }
}

/// Appends the concatenated texts of the subtrees in `s` to `out`.
fn push_texts(s: &Vec<MdNode>, out: &mut String)
    ensures
        final(out)@ == old(out)@ + texts_of(s@),
    decreases s, 1int,
{
    let ghost start = out@;
    let mut i: usize = 0;
    while i < s.len()
        invariant
            i <= s.len(),
            out@ == start + texts_of(s@.take(i as int)),
        decreases s.len() - i,
    {
        proof {
            lemma_texts_of_push(s@, i as int);
        }
        push_text(&s[i], out);
        i = i + 1;
    }
    assert(s@.take(i as int) =~= s@);
}

} // verus!
