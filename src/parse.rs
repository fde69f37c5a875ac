use vstd::prelude::*;

use markdown::mdast::Node;
use markdown::message::Message;
use markdown::ParseOptions;

use crate::ast::MdNode;
use crate::error::RenderError;

verus! {

#[verifier::external_type_specification]
#[verifier::external_body]
pub struct ExNode(Node);

#[verifier::external_type_specification]
#[verifier::external_body]
pub struct ExMessage(Message);

#[verifier::external_type_specification]
#[verifier::external_body]
pub struct ExParseOptions(ParseOptions);

/// Relies on markdown::to_mdast: parses `value` into a syntax tree rooted
/// at a `Root` node, or says why it cannot.
pub assume_specification[ markdown::to_mdast ](value: &str, options: &ParseOptions) -> Result<
    Node,
    Message,
>;

/// Relies on markdown::ParseOptions::gfm: the options of GitHub flavored
/// Markdown (tables among them).
pub assume_specification[ ParseOptions::gfm ]() -> ParseOptions;

/// Relies on markdown::mdast::Node::children: the children of a container
/// node, `None` for any other node.
pub assume_specification[ Node::children ](n: &Node) -> Option<&Vec<Node>>;

/// The deepest syntax tree that is taken in.
pub const MAX_NESTING: usize = 256;

/// The block-level kinds of node, with what the renderer reads of them.
enum BlockShape {
    Root,
    BlockQuote,
    List(bool),
    ListItem,
    Heading(u8),
    Table,
    TableRow,
    TableCell,
    Code(Option<String>),
    Paragraph,
}

/// The inline kinds of node, with what the renderer reads of them.
enum InlineShape {
    Text,
    InlineCode,
    Strong,
    Emphasis,
    Link(String),
    LinkReference,
    Image,
    ImageReference,
    Html,
}

/// Relies on markdown::mdast::Node's variants: tells the block-level ones
/// apart and copies out whether a list is ordered, a heading's depth and a
/// code block's language.
#[verifier::external_body]
fn block_shape(n: &Node) -> Option<BlockShape> {
    match n {
        Node::Root(_) => Some(BlockShape::Root),
        Node::Blockquote(_) => Some(BlockShape::BlockQuote),
        Node::List(l) => Some(BlockShape::List(l.ordered)),
        Node::ListItem(_) => Some(BlockShape::ListItem),
        Node::Heading(h) => Some(BlockShape::Heading(h.depth)),
        Node::Table(_) => Some(BlockShape::Table),
        Node::TableRow(_) => Some(BlockShape::TableRow),
        Node::TableCell(_) => Some(BlockShape::TableCell),
        Node::Code(c) => Some(BlockShape::Code(c.lang.clone())),
        Node::Paragraph(_) => Some(BlockShape::Paragraph),
        _ => None,
    }
}

/// Relies on markdown::mdast::Node's variants: tells the inline ones apart
/// and copies out a link's address.
#[verifier::external_body]
fn inline_shape(n: &Node) -> Option<InlineShape> {
    match n {
        Node::Text(_) => Some(InlineShape::Text),
        Node::InlineCode(_) => Some(InlineShape::InlineCode),
        Node::Strong(_) => Some(InlineShape::Strong),
        Node::Emphasis(_) => Some(InlineShape::Emphasis),
        Node::Link(l) => Some(InlineShape::Link(l.url.clone())),
        Node::LinkReference(_) => Some(InlineShape::LinkReference),
        Node::Image(_) => Some(InlineShape::Image),
        Node::ImageReference(_) => Some(InlineShape::ImageReference),
        Node::Html(_) => Some(InlineShape::Html),
        _ => None,
    }
}

/// Relies on markdown's `ToString` for mdast::Node: the literal value of a
/// leaf node, the concatenated texts of a container's children.
#[verifier::external_body]
fn node_text(n: &Node) -> String {
    n.to_string()
}

/// Relies on markdown's `Display` for message::Message: why parsing failed.
#[verifier::external_body]
fn message_text(m: &Message) -> String {
    m.to_string()
}

/// Converts the children of `n` (none if it is not a container).
fn convert_children(n: &Node, fuel: usize) -> (r: Result<Vec<MdNode>, RenderError>)
    ensures
        r matches Err(e) ==> e == RenderError::RecursionLimitExceeded,
    decreases fuel, 1int,
{
    let mut out: Vec<MdNode> = Vec::new();
    match n.children() {
        Some(c) => {
            let mut i: usize = 0;
            while i < c.len()
                decreases c.len() - i,
            {
                match convert_node(&c[i], fuel) {
                    Ok(m) => out.push(m),
                    Err(e) => {
                        return Err(e);
                    },
                }
                i = i + 1;
            }
        },
        None => {},
    }
    Ok(out)
}

/// Converts the subtree `n`, which may be at most `fuel` levels deep.
fn convert_node(n: &Node, fuel: usize) -> (r: Result<MdNode, RenderError>)
    ensures
        r matches Err(e) ==> e == RenderError::RecursionLimitExceeded,
    decreases fuel, 0int,
{
    if fuel == 0 {
        return Err(RenderError::RecursionLimitExceeded);
    }
    if let Some(shape) = block_shape(n) {
        let c = match convert_children(n, fuel - 1) {
            Ok(c) => c,
            Err(e) => {
                return Err(e);
            },
        };
        return Ok(
            match shape {
                BlockShape::Root => MdNode::Root(c),
                BlockShape::BlockQuote => MdNode::BlockQuote(c),
                BlockShape::List(ordered) => MdNode::List { ordered, children: c },
                BlockShape::ListItem => MdNode::ListItem(c),
                BlockShape::Heading(depth) => MdNode::Heading { depth, children: c },
                BlockShape::Table => MdNode::Table(c),
                BlockShape::TableRow => MdNode::TableRow(c),
                BlockShape::TableCell => MdNode::TableCell(c),
                BlockShape::Code(lang) => MdNode::Code { value: node_text(n), lang },
                BlockShape::Paragraph => MdNode::Paragraph(c),
            },
        );
    }
    match inline_shape(n) {
        Some(InlineShape::Text) => Ok(MdNode::Text(node_text(n))),
        Some(InlineShape::InlineCode) => Ok(MdNode::InlineCode(node_text(n))),
        Some(InlineShape::Html) => Ok(MdNode::Html(node_text(n))),
        Some(InlineShape::Image) => Ok(MdNode::Image),
        Some(InlineShape::ImageReference) => Ok(MdNode::ImageReference),
        Some(shape) => {
            let c = match convert_children(n, fuel - 1) {
                Ok(c) => c,
                Err(e) => {
                    return Err(e);
                },
            };
            Ok(
                match shape {
                    InlineShape::Strong => MdNode::Strong(c),
                    InlineShape::Emphasis => MdNode::Emphasis(c),
                    InlineShape::Link(url) => MdNode::Link { url, children: c },
                    _ => MdNode::LinkReference(c),
                },
            )
        },
        None => match n.children() {
            Some(_) => match convert_children(n, fuel - 1) {
                Ok(c) => Ok(MdNode::OtherParent(c)),
                Err(e) => Err(e),
            },
            None => Ok(MdNode::OtherLeaf(node_text(n))),
        },
    }
}

/// Parses `text` as GitHub flavored Markdown (with `gfm`) or as plain
/// CommonMark, and converts the tree.
pub fn parse_markdown(text: &str, gfm: bool) -> (r: Result<MdNode, RenderError>)
    ensures
        r matches Err(e) ==> (e is ParseFailure || e == RenderError::RecursionLimitExceeded),
{
    let options = if gfm {
        ParseOptions::gfm()
    } else {
        default_options()
    };
    match markdown::to_mdast(text, &options) {
        Ok(tree) => convert_node(&tree, MAX_NESTING),
        Err(m) => Err(RenderError::ParseFailure(message_text(&m))),
    }
}

/// Relies on markdown::ParseOptions's `Default`: the options of CommonMark.
#[verifier::external_body]
fn default_options() -> ParseOptions {
    ParseOptions::default()
}

} // verus!
