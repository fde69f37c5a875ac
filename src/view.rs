use vstd::prelude::*;

use crate::ast::{children_of, kind_of, MdNode};
use crate::document::{entries_view, Document, Entry, EntryView};
use crate::error::RenderError;
use crate::parse::parse_markdown;
use crate::render::{blocks, render_blocks};
use crate::style::{fixed_keys, resolve_color_scheme, scheme_of, StyleKey, StyleRegistry};

verus! {

/// The styles that an entry carries (none for an embedded object).
pub open spec fn run_styles(e: EntryView) -> Seq<StyleKey> {
    match e {
        EntryView::Run { styles, .. } => styles,
        _ => Seq::empty(),
    }
}

/// Some run of `es` carries the style `key`.
pub open spec fn uses_key(es: Seq<EntryView>, key: StyleKey) -> bool {
    exists|i: int| 0 <= i < es.len() && (#[trigger] run_styles(es[i])).contains(key)
}

/// A key used by a concatenation is used by one of its parts.
proof fn lemma_uses_key_concat(a: Seq<EntryView>, b: Seq<EntryView>, key: StyleKey)
    ensures
        uses_key(a + b, key) <==> (uses_key(a, key) || uses_key(b, key)),
{
    if uses_key(a + b, key) {
        let i = choose|i: int| 0 <= i < (a + b).len() && (#[trigger] run_styles((a + b)[i])).contains(key);
        if i < a.len() {
            assert(run_styles(a[i]).contains(key));
        } else {
            assert(run_styles(b[i - a.len()]).contains(key));
        }
    }
    if uses_key(a, key) {
        let i = choose|i: int| 0 <= i < a.len() && (#[trigger] run_styles(a[i])).contains(key);
        assert(run_styles((a + b)[i]).contains(key));
    }
    if uses_key(b, key) {
        let i = choose|i: int| 0 <= i < b.len() && (#[trigger] run_styles(b[i])).contains(key);
        assert(run_styles((a + b)[i + a.len()]).contains(key));
    }
}

/// A rendered Markdown text: a document and the styles that its runs use.
pub struct MarkdownView {
    doc: Document,
    tag_table: StyleRegistry,
}

impl MarkdownView {
    /// The entries rendered so far.
    pub closed spec fn doc_view(&self) -> Seq<EntryView> {
        self.doc@
    }

    /// The style registry of this view.
    pub closed spec fn styles_view(&self) -> StyleRegistry {
        self.tag_table
    }

    /// The registry is well formed and holds every style that a run uses.
    pub open spec fn wf(&self) -> bool {
        &&& self.styles_view().wf()
        &&& forall|k: StyleKey| uses_key(self.doc_view(), k) ==> #[trigger] self.styles_view().has(k)
    }

    /// An empty view whose fixed styles follow the light or dark theme.
    pub fn new(is_dark: bool) -> (r: MarkdownView)
        ensures
            r.wf(),
            r.doc_view() == Seq::<EntryView>::empty(),
            r.styles_view().keys() == fixed_keys(),
            r.styles_view().scheme_spec() == scheme_of(is_dark),
    {
        let tag_table = Self::load_text_tags(is_dark);
        MarkdownView { doc: Document::new(), tag_table }
    }

    /// Builds the fixed styles for the light or dark theme.
    fn load_text_tags(is_dark: bool) -> (r: StyleRegistry)
        ensures
            r.wf(),
            r.keys() == fixed_keys(),
            r.scheme_spec() == scheme_of(is_dark),
    {
        let scheme = resolve_color_scheme(is_dark);
        StyleRegistry::build_styles(scheme)
    }

    /// Creates the styles that the runs of `entries` use.
    fn register_styles(&mut self, entries: &Vec<Entry>)
        requires
            old(self).tag_table.wf(),
        ensures
            final(self).tag_table.wf(),
            final(self).doc == old(self).doc,
            final(self).tag_table.scheme_spec() == old(self).tag_table.scheme_spec(),
            forall|k: StyleKey| #[trigger]
                final(self).tag_table.has(k) <==> (old(self).tag_table.has(k) || uses_key(
                    entries_view(entries@),
                    k,
                )),
    {
        let ghost es = entries_view(entries@);
        let ghost reg0 = self.tag_table;
        let mut i: usize = 0;
        while i < entries.len()
            invariant
                i <= entries@.len(),
                es == entries_view(entries@),
                self.tag_table.wf(),
                self.doc == old(self).doc,
                self.tag_table.scheme_spec() == reg0.scheme_spec(),
                forall|k: StyleKey| #[trigger]
                    self.tag_table.has(k) <==> (reg0.has(k) || uses_key(es.take(i as int), k)),
            decreases entries@.len() - i,
        {
            assert(es[i as int] == entries@[i as int]@);
            match &entries[i] {
                Entry::Run { styles, .. } => {
                    let ghost reg1 = self.tag_table;
                    let mut j: usize = 0;
                    while j < styles.len()
                        invariant
                            j <= styles@.len(),
                            self.tag_table.wf(),
                            self.doc == old(self).doc,
                            self.tag_table.scheme_spec() == reg0.scheme_spec(),
                            forall|k: StyleKey| #[trigger]
                                self.tag_table.has(k) <==> (reg1.has(k) || styles@.take(j as int).contains(k)),
                        decreases styles@.len() - j,
                    {
                        self.tag_table.ensure_style(styles[j]);
                        assert forall|k: StyleKey| #[trigger]
                            self.tag_table.has(k) <==> (reg1.has(k) || styles@.take(j + 1).contains(k)) by {
                            assert(styles@.take(j + 1) =~= styles@.take(j as int).push(styles@[j as int]));
                            if styles@.take(j + 1).contains(k) && k != styles@[j as int] {
                                let t = styles@.take(j + 1).index_of(k);
                                assert(styles@.take(j as int)[t] == k);
                            }
                            if styles@.take(j as int).contains(k) {
                                let t = styles@.take(j as int).index_of(k);
                                assert(styles@.take(j + 1)[t] == k);
                            }
                            if k == styles@[j as int] {
                                assert(styles@.take(j + 1)[j as int] == k);
                            }
                        }
                        j = j + 1;
                    }
                    assert(styles@.take(j as int) =~= styles@);
                    assert(run_styles(es[i as int]) == styles@);
                },
                _ => {
                    assert(run_styles(es[i as int]) =~= Seq::<StyleKey>::empty());
                },
            }
            assert forall|k: StyleKey| #[trigger]
                self.tag_table.has(k) <==> (reg0.has(k) || uses_key(es.take(i + 1), k)) by {
                assert(es.take(i + 1) =~= es.take(i as int) + seq![es[i as int]]);
                lemma_uses_key_concat(es.take(i as int), seq![es[i as int]], k);
                if run_styles(es[i as int]).contains(k) {
                    assert(uses_key(seq![es[i as int]], k)) by {
                        assert(run_styles(seq![es[i as int]][0]).contains(k));
                    }
                }
                if uses_key(seq![es[i as int]], k) {
                    let t = choose|t: int| 0 <= t < 1 && (#[trigger] run_styles(seq![es[i as int]][t])).contains(k);
                    assert(t == 0);
                }
            }
            i = i + 1;
        }
        assert(es.take(i as int) =~= es);
    }

    /// Renders top-level blocks at the end of the document. On failure
    /// nothing changes.
    pub fn append_nodes(&mut self, nodes: &Vec<MdNode>) -> (r: Result<(), RenderError>)
        requires
            old(self).wf(),
        ensures
            final(self).wf(),
            final(self).styles_view().scheme_spec() == old(self).styles_view().scheme_spec(),
            match blocks(nodes@) {
                Ok(es) => {
                    &&& r is Ok
                    &&& final(self).doc_view() == old(self).doc_view() + es
                    &&& forall|k: StyleKey| #[trigger]
                        final(self).styles_view().has(k) <==> (old(self).styles_view().has(k)
                            || uses_key(es, k))
                },
                Err(e) => {
                    &&& r == Err::<(), RenderError>(e)
                    &&& final(self).doc_view() == old(self).doc_view()
                    &&& final(self).styles_view() == old(self).styles_view()
                },
            },
    {
        let mut scratch = Document::new();
        match render_blocks(&mut scratch, nodes) {
            Ok(()) => {},
            Err(e) => {
                return Err(e);
            },
        }
        let ghost es = scratch@;
        let ghost d0 = self.doc@;
        self.register_styles(scratch.entries());
        self.doc.append(scratch);
        assert(self.doc@ == d0 + es);
        assert forall|k: StyleKey| uses_key(self.doc_view(), k) implies #[trigger] self.styles_view().has(k) by {
            lemma_uses_key_concat(d0, es, k);
        }
        Ok(())
    }

    /// Parses `markdown_text` as GitHub flavored Markdown and renders it at
    /// the end of the document. Either the parser's tree was taken in and
    /// rendered exactly as `append_tree` renders it, or parsing failed (the
    /// parser refused the text, or its tree is nested deeper than the
    /// converter takes) and nothing changed.
    pub fn append_text(&mut self, markdown_text: &str) -> (r: Result<(), RenderError>)
        requires
            old(self).wf(),
        ensures
            final(self).wf(),
            final(self).styles_view().scheme_spec() == old(self).styles_view().scheme_spec(),
            parse_refused(r, *old(self), *final(self)) || exists|tree: MdNode|
                #[trigger] tree_rendered(*old(self), *final(self), tree, r),
            r is Err ==> final(self).doc_view() == old(self).doc_view() && final(self).styles_view()
                == old(self).styles_view(),
    {
        let tree = match parse_markdown(markdown_text, true) {
            Ok(t) => t,
            Err(e) => {
                return Err(e);
            },
        };
        self.append_tree(&tree)
    }

    /// Renders the children of the root `tree` at the end of the document.
    /// On failure nothing changes.
    pub fn append_tree(&mut self, tree: &MdNode) -> (r: Result<(), RenderError>)
        requires
            old(self).wf(),
        ensures
            final(self).wf(),
            final(self).styles_view().scheme_spec() == old(self).styles_view().scheme_spec(),
            tree_rendered(*old(self), *final(self), *tree, r),
    {
        match tree.children() {
            Some(c) => self.append_nodes(c),
            None => Err(RenderError::UnsupportedConstruct(tree.kind())),
        }
    }

    /// The document rendered so far.
    pub fn document(&self) -> (r: &Document)
        ensures
            r@ == self.doc_view(),
    {
        &self.doc
    }

    /// The styles that the document's runs refer to.
    pub fn styles(&self) -> (r: &StyleRegistry)
        ensures
            *r == self.styles_view(),
    {
        &self.tag_table
    }
}

/// Parses `markdown_text` as CommonMark (without the table extension) and
/// renders it into a new view for the light or dark theme: either parsing
/// failed, or the result is what `append_tree` gives on a new view for the
/// parser's tree.
pub fn md2gtk(markdown_text: &str, is_dark: bool) -> (r: Result<MarkdownView, RenderError>)
    ensures
        r matches Ok(v) ==> v.wf() && v.styles_view().scheme_spec() == scheme_of(is_dark),
        (r matches Err(e) && (e is ParseFailure || e == RenderError::RecursionLimitExceeded))
            || exists|tree: MdNode| #[trigger] fresh_tree_rendered(tree, is_dark, r),
{
    let tree = match parse_markdown(markdown_text, false) {
        Ok(t) => t,
        Err(e) => {
            return Err(e);
        },
    };
    let mut view = MarkdownView::new(is_dark);
    let ghost v0 = view;
    match view.append_tree(&tree) {
        Ok(()) => {
            proof {
                let es = blocks(children_of(tree).unwrap()).unwrap();
                assert(view.doc_view() =~= es);
                assert(fresh_tree_rendered(tree, is_dark, Ok::<MarkdownView, RenderError>(view)));
            }
            Ok(view)
        },
        Err(e) => {
            assert(fresh_tree_rendered(tree, is_dark, Err::<MarkdownView, RenderError>(e)));
            Err(e)
        },
    }
}

/// What rendering the root `tree` into a new view gives: the entries that
/// its blocks render to, with exactly the fixed styles and those the runs
/// use, or the first failure.
pub open spec fn fresh_tree_rendered(tree: MdNode, is_dark: bool, r: Result<MarkdownView, RenderError>) -> bool {
    match children_of(tree) {
        Some(c) => match blocks(c) {
            Ok(es) => match r {
                Ok(v) => {
                    &&& v.doc_view() == es
                    &&& forall|k: StyleKey| #[trigger]
                        v.styles_view().has(k) <==> (fixed_keys().contains(k) || uses_key(es, k))
                },
                Err(_) => false,
            },
            Err(e) => r == Err::<MarkdownView, RenderError>(e),
        },
        None => r == Err::<MarkdownView, RenderError>(RenderError::UnsupportedConstruct(kind_of(tree))),
    }
}

/// Rendering the root `tree` took `before` to `after` with outcome `r`: on
/// success the document grew by exactly the entries that the tree's blocks
/// render to, and the registry gained exactly the styles their runs use; on
/// failure `r` is the first failure and nothing changed.
pub open spec fn tree_rendered(
    before: MarkdownView,
    after: MarkdownView,
    tree: MdNode,
    r: Result<(), RenderError>,
) -> bool {
    match children_of(tree) {
        Some(c) => match blocks(c) {
            Ok(es) => {
                &&& r is Ok
                &&& after.doc_view() == before.doc_view() + es
                &&& forall|k: StyleKey| #[trigger]
                    after.styles_view().has(k) <==> (before.styles_view().has(k) || uses_key(es, k))
            },
            Err(e) => {
                &&& r == Err::<(), RenderError>(e)
                &&& after.doc_view() == before.doc_view()
                &&& after.styles_view() == before.styles_view()
            },
        },
        None => {
            &&& r == Err::<(), RenderError>(RenderError::UnsupportedConstruct(kind_of(tree)))
            &&& after.doc_view() == before.doc_view()
            &&& after.styles_view() == before.styles_view()
        },
    }
}

/// Parsing failed before anything was rendered: the parser refused the
/// text, or its tree is nested deeper than the converter takes.
pub open spec fn parse_refused(r: Result<(), RenderError>, before: MarkdownView, after: MarkdownView) -> bool {
    &&& r matches Err(e) && (e is ParseFailure || e == RenderError::RecursionLimitExceeded)
    &&& after.doc_view() == before.doc_view()
    &&& after.styles_view() == before.styles_view()
}

} // verus!
