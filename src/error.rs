use vstd::prelude::*;

use crate::ast::NodeKind;

verus! {

/// Why a render failed. A failed render leaves no partial output behind.
#[derive(Debug, PartialEq, Eq)]
pub enum RenderError {
    /// The tree holds a node of this kind where the renderer cannot show it
    /// (raw HTML, images, link references, a heading deeper than six, or a
    /// kind of node that has no place there).
    UnsupportedConstruct(NodeKind),
    /// The parser rejected the input, for this reason.
    ParseFailure(String),
    /// Lists, or the tree itself, are nested deeper than the renderer allows.
    RecursionLimitExceeded,
}

} // verus!
