use vstd::prelude::*;

use crate::style::StyleKey;

verus! {

/// One cell of a projected table: its text, absent for a padding cell, and
/// whether it belongs to the header row.
#[derive(Debug, PartialEq, Eq)]
pub struct CellObject {
    pub string: Option<String>,
    pub is_header: bool,
}

/// What a cell holds.
pub ghost struct CellView {
    pub text: Option<Seq<char>>,
    pub is_header: bool,
}

/// The text of an optional string.
pub open spec fn opt_text(s: Option<String>) -> Option<Seq<char>> {
    match s {
        Some(t) => Some(t@),
        None => None,
    }
}

impl View for CellObject {
    type V = CellView;

    open spec fn view(&self) -> CellView {
        CellView { text: opt_text(self.string), is_header: self.is_header }
    }
}

impl CellObject {
    /// A cell with the given text (none for padding).
    pub fn new(string: Option<&str>, is_header: bool) -> (r: CellObject)
        ensures
            r@.text == (match string {
                Some(s) => Some(s@),
                None => None::<Seq<char>>,
            }),
            r@.is_header == is_header,
    {
        let string = match string {
            Some(s) => Some(s.to_string()),
            None => None,
        };
        CellObject { string, is_header }
    }
}

/// A table projected to a grid of cells, stored row by row.
#[derive(Debug, PartialEq, Eq)]
pub struct CellGrid {
    pub columns: usize,
    pub cells: Vec<CellObject>,
}

/// What a grid holds.
pub ghost struct GridView {
    pub columns: nat,
    pub cells: Seq<CellView>,
}

/// The views of a sequence of cells.
pub open spec fn cells_view(s: Seq<CellObject>) -> Seq<CellView> {
    s.map_values(|c: CellObject| c@)
}

impl View for CellGrid {
    type V = GridView;

    open spec fn view(&self) -> GridView {
        GridView { columns: self.columns as nat, cells: cells_view(self.cells@) }
    }
}

/// One entry of a document.
#[derive(Debug, PartialEq, Eq)]
pub enum Entry {
    /// A run of text carrying zero or more styles.
    Run { text: String, styles: Vec<StyleKey> },
    /// An inline icon whose tooltip is a link's address.
    Icon { tooltip: String },
    /// An embedded table.
    Grid(CellGrid),
}

/// What an entry holds.
pub ghost enum EntryView {
    Run { text: Seq<char>, styles: Seq<StyleKey> },
    Icon { tooltip: Seq<char> },
    Grid(GridView),
}

impl View for Entry {
    type V = EntryView;

    open spec fn view(&self) -> EntryView {
        match self {
            Entry::Run { text, styles } => EntryView::Run { text: text@, styles: styles@ },
            Entry::Icon { tooltip } => EntryView::Icon { tooltip: tooltip@ },
            Entry::Grid(g) => EntryView::Grid(g@),
        }
    }
}

/// The views of a sequence of entries.
pub open spec fn entries_view(s: Seq<Entry>) -> Seq<EntryView> {
    s.map_values(|e: Entry| e@)
}

/// A run of unstyled text.
pub open spec fn plain_run(text: Seq<char>) -> EntryView {
    EntryView::Run { text, styles: Seq::empty() }
}

/// A run of text in one style.
pub open spec fn styled_run(text: Seq<char>, key: StyleKey) -> EntryView {
    EntryView::Run { text, styles: seq![key] }
}

/// An append-only sequence of text runs and embedded objects.
#[derive(Debug)]
pub struct Document {
    entries: Vec<Entry>,
}

impl View for Document {
    type V = Seq<EntryView>;

    closed spec fn view(&self) -> Seq<EntryView> {
        entries_view(self.entries@)
    }
}

impl Document {
    /// An empty document.
    pub fn new() -> (r: Document)
        ensures
            r@ == Seq::<EntryView>::empty(),
    {
        let r = Document { entries: Vec::new() };
        assert(r@ =~= Seq::<EntryView>::empty());
        r
    }

    /// Appends `e` at the end.
    pub fn push_entry(&mut self, e: Entry)
        ensures
            final(self)@ == old(self)@.push(e@),
    {
        self.entries.push(e);
        assert(self@ =~= old(self)@.push(e@));
    }

    /// Appends a run of unstyled text.
    pub fn insert_text(&mut self, s: &str)
        ensures
            final(self)@ == old(self)@.push(plain_run(s@)),
    {
        let styles: Vec<StyleKey> = Vec::new();
        assert(styles@ =~= Seq::<StyleKey>::empty());
        self.insert_styled(s, styles);
    }

    /// Appends a run of text carrying `styles`.
    pub fn insert_styled(&mut self, s: &str, styles: Vec<StyleKey>)
        ensures
            final(self)@ == old(self)@.push(EntryView::Run { text: s@, styles: styles@ }),
    {
        self.push_entry(Entry::Run { text: s.to_string(), styles });
    }

    /// Appends a run of text in the one style `key`.
    pub fn insert_with_style(&mut self, s: &str, key: StyleKey)
        ensures
            final(self)@ == old(self)@.push(styled_run(s@, key)),
    {
        let styles = vec![key];
        assert(styles@ =~= seq![key]);
        self.insert_styled(s, styles);
    }

    /// Appends a link icon whose tooltip is `url`.
    pub fn insert_icon(&mut self, url: &str)
        ensures
            final(self)@ == old(self)@.push(EntryView::Icon { tooltip: url@ }),
    {
        self.push_entry(Entry::Icon { tooltip: url.to_string() });
    }

    /// Appends an embedded table.
    pub fn insert_grid(&mut self, grid: CellGrid)
        ensures
            final(self)@ == old(self)@.push(EntryView::Grid(grid@)),
    {
        self.push_entry(Entry::Grid(grid));
    }

    /// Appends all entries of `other`, in order.
    pub fn append(&mut self, other: Document)
        ensures
            final(self)@ == old(self)@ + other@,
    {
        let mut other = other;
        let ghost ov = other@;
        self.entries.append(&mut other.entries);
        assert(self@ =~= old(self)@ + ov);
    }

    /// The number of entries.
    pub fn len(&self) -> (r: usize)
        ensures
            r == self@.len(),
    {
        self.entries.len()
    }

    /// The entries, in order.
    pub fn entries(&self) -> (r: &Vec<Entry>)
        ensures
            entries_view(r@) == self@,
    {
        &self.entries
    }
}

} // verus!
