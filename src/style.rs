use vstd::prelude::*;

verus! {

/// A color given by its red, green and blue components.
#[derive(Clone, Copy, Debug, PartialEq, Eq, Structural)]
pub struct Rgb {
    pub red: u8,
    pub green: u8,
    pub blue: u8,
}

/// The theme-dependent colors of the code and quote styles.
#[derive(Clone, Copy, Debug, PartialEq, Eq, Structural)]
pub struct ColorScheme {
    pub code_background: Rgb,
    pub quote_background: Rgb,
    pub quote_foreground: Rgb,
}

/// The slant of a font.
#[derive(Clone, Copy, Debug, PartialEq, Eq, Structural)]
pub enum Slant {
    Normal,
    Italic,
    Oblique,
}

/// The visual properties of one named style. Scale is in percent of the
/// normal font size; lengths are in pixels.
#[derive(Clone, Copy, Debug, PartialEq, Eq, Structural)]
pub struct TextStyle {
    pub size_points: Option<u32>,
    pub weight: Option<u32>,
    pub underline: bool,
    pub monospace: bool,
    pub slant: Slant,
    pub scale_percent: Option<u32>,
    pub foreground: Option<Rgb>,
    pub background: Option<Rgb>,
    pub paragraph_background: Option<Rgb>,
    pub background_full_height: bool,
    pub left_margin: Option<u32>,
    pub indent: Option<u64>,
    pub pixels_above_lines: Option<u32>,
    pub pixels_below_lines: Option<u32>,
}

/// The level of a heading, from 1 (the largest) to 6.
#[derive(Clone, Copy, Debug, PartialEq, Eq, Structural)]
pub enum HeadingLevel {
    H1,
    H2,
    H3,
    H4,
    H5,
    H6,
}

/// The level of a heading of the given depth, if the depth is 1 to 6.
pub open spec fn level_of(depth: u8) -> Option<HeadingLevel> {
    if depth == 1 {
        Some(HeadingLevel::H1)
    } else if depth == 2 {
        Some(HeadingLevel::H2)
    } else if depth == 3 {
        Some(HeadingLevel::H3)
    } else if depth == 4 {
        Some(HeadingLevel::H4)
    } else if depth == 5 {
        Some(HeadingLevel::H5)
    } else if depth == 6 {
        Some(HeadingLevel::H6)
    } else {
        None
    }
}

/// The depth of a heading level.
pub open spec fn level_depth(level: HeadingLevel) -> u8 {
    match level {
        HeadingLevel::H1 => 1,
        HeadingLevel::H2 => 2,
        HeadingLevel::H3 => 3,
        HeadingLevel::H4 => 4,
        HeadingLevel::H5 => 5,
        HeadingLevel::H6 => 6,
    }
}

impl HeadingLevel {
    /// The level of a heading of depth `depth`, if it is 1 to 6.
    pub fn from_depth(depth: u8) -> (r: Option<HeadingLevel>)
        ensures
            r == level_of(depth),
    {
        match depth {
            1 => Some(HeadingLevel::H1),
            2 => Some(HeadingLevel::H2),
            3 => Some(HeadingLevel::H3),
            4 => Some(HeadingLevel::H4),
            5 => Some(HeadingLevel::H5),
            6 => Some(HeadingLevel::H6),
            _ => None,
        }
    }

    /// The depth of this level.
    pub fn depth(&self) -> (r: u8)
        ensures
            r == level_depth(*self),
    {
        match self {
            HeadingLevel::H1 => 1,
            HeadingLevel::H2 => 2,
            HeadingLevel::H3 => 3,
            HeadingLevel::H4 => 4,
            HeadingLevel::H5 => 5,
            HeadingLevel::H6 => 6,
        }
    }
}

/// A handle that names one style of the registry.
#[derive(Clone, Copy, Debug, PartialEq, Eq, Structural)]
pub enum StyleKey {
    /// The size of a heading of the given level.
    Heading(HeadingLevel),
    Bold,
    Emphasis,
    InlineCode,
    CodeBlock,
    BlockQuote,
    /// The marker style of a list item nested at the given depth.
    ListItem(u32),
    Link,
}

/// The width, in pixels, by which each level of list nesting indents.
pub const LIST_INDENT_STEP: u64 = 20;

/// The color of link text.
pub open spec fn link_color() -> Rgb {
    Rgb { red: 0x90, green: 0xc2, blue: 0xff }
}

/// The colors of the light or the dark theme.
pub open spec fn scheme_of(is_dark: bool) -> ColorScheme {
    if is_dark {
        ColorScheme {
            code_background: Rgb { red: 0x05, green: 0x05, blue: 0x05 },
            quote_background: Rgb { red: 0x05, green: 0x05, blue: 0x05 },
            quote_foreground: Rgb { red: 0x69, green: 0x69, blue: 0x69 },
        }
    } else {
        ColorScheme {
            code_background: Rgb { red: 0xb0, green: 0xb0, blue: 0xb0 },
            quote_background: Rgb { red: 0x50, green: 0x50, blue: 0x50 },
            quote_foreground: Rgb { red: 0xff, green: 0xff, blue: 0xff },
        }
    }
}

/// A style with no property set.
pub open spec fn plain_style() -> TextStyle {
    TextStyle {
        size_points: None,
        weight: None,
        underline: false,
        monospace: false,
        slant: Slant::Normal,
        scale_percent: None,
        foreground: None,
        background: None,
        paragraph_background: None,
        background_full_height: false,
        left_margin: None,
        indent: None,
        pixels_above_lines: None,
        pixels_below_lines: None,
    }
}

/// The font size, in points, of a heading: 30 for the first level, two
/// less for each deeper one.
pub open spec fn heading_points(level: HeadingLevel) -> u32 {
    (32 - 2 * level_depth(level)) as u32
}

/// What the style that `key` names looks like under `scheme`.
pub open spec fn style_def(key: StyleKey, scheme: ColorScheme) -> TextStyle {
    match key {
        StyleKey::Heading(d) => TextStyle { size_points: Some(heading_points(d)), ..plain_style() },
        StyleKey::Bold => TextStyle { weight: Some(700), ..plain_style() },
        StyleKey::Emphasis => TextStyle { underline: true, ..plain_style() },
        StyleKey::InlineCode => TextStyle {
            monospace: true,
            background: Some(scheme.code_background),
            ..plain_style()
        },
        StyleKey::CodeBlock => TextStyle {
            monospace: true,
            background: Some(scheme.code_background),
            paragraph_background: Some(scheme.code_background),
            background_full_height: true,
            indent: Some(10),
            pixels_above_lines: Some(10),
            pixels_below_lines: Some(10),
            ..plain_style()
        },
        StyleKey::BlockQuote => TextStyle {
            background: Some(scheme.quote_background),
            paragraph_background: Some(scheme.quote_background),
            foreground: Some(scheme.quote_foreground),
            left_margin: Some(20),
            indent: Some(10),
            pixels_above_lines: Some(10),
            pixels_below_lines: Some(10),
            slant: Slant::Oblique,
            ..plain_style()
        },
        StyleKey::ListItem(d) => TextStyle {
            indent: Some((LIST_INDENT_STEP * d) as u64),
            slant: Slant::Italic,
            scale_percent: Some(130),
            ..plain_style()
        },
        StyleKey::Link => TextStyle {
            foreground: Some(link_color()),
            underline: true,
            ..plain_style()
        },
    }
}

/// The styles that a registry creates when it is built, in this order.
pub open spec fn fixed_keys() -> Seq<StyleKey> {
    seq![
        StyleKey::Heading(HeadingLevel::H1),
        StyleKey::Heading(HeadingLevel::H2),
        StyleKey::Heading(HeadingLevel::H3),
        StyleKey::Heading(HeadingLevel::H4),
        StyleKey::Heading(HeadingLevel::H5),
        StyleKey::Heading(HeadingLevel::H6),
        StyleKey::Bold,
        StyleKey::Emphasis,
        StyleKey::BlockQuote,
        StyleKey::InlineCode,
        StyleKey::CodeBlock,
    ]
}

/// Returns the colors of the light theme, or of the dark one.
pub fn resolve_color_scheme(is_dark: bool) -> (r: ColorScheme)
    ensures
        r == scheme_of(is_dark),
{
    if is_dark {
        ColorScheme {
            code_background: Rgb { red: 0x05, green: 0x05, blue: 0x05 },
            quote_background: Rgb { red: 0x05, green: 0x05, blue: 0x05 },
            quote_foreground: Rgb { red: 0x69, green: 0x69, blue: 0x69 },
        }
    } else {
        ColorScheme {
            code_background: Rgb { red: 0xb0, green: 0xb0, blue: 0xb0 },
            quote_background: Rgb { red: 0x50, green: 0x50, blue: 0x50 },
            quote_foreground: Rgb { red: 0xff, green: 0xff, blue: 0xff },
        }
    }
}

fn plain() -> (r: TextStyle)
    ensures
        r == plain_style(),
{
    TextStyle {
        size_points: None,
        weight: None,
        underline: false,
        monospace: false,
        slant: Slant::Normal,
        scale_percent: None,
        foreground: None,
        background: None,
        paragraph_background: None,
        background_full_height: false,
        left_margin: None,
        indent: None,
        pixels_above_lines: None,
        pixels_below_lines: None,
    }
}

/// Returns what the style that `key` names looks like under `scheme`.
pub fn define_style(key: StyleKey, scheme: ColorScheme) -> (r: TextStyle)
    ensures
        r == style_def(key, scheme),
{
    match key {
        StyleKey::Heading(l) => TextStyle { size_points: Some(32 - 2 * (l.depth() as u32)), ..plain() },
        StyleKey::Bold => TextStyle { weight: Some(700), ..plain() },
        StyleKey::Emphasis => TextStyle { underline: true, ..plain() },
        StyleKey::InlineCode => TextStyle {
            monospace: true,
            background: Some(scheme.code_background),
            ..plain()
        },
        StyleKey::CodeBlock => TextStyle {
            monospace: true,
            background: Some(scheme.code_background),
            paragraph_background: Some(scheme.code_background),
            background_full_height: true,
            indent: Some(10),
            pixels_above_lines: Some(10),
            pixels_below_lines: Some(10),
            ..plain()
        },
        StyleKey::BlockQuote => TextStyle {
            background: Some(scheme.quote_background),
            paragraph_background: Some(scheme.quote_background),
            foreground: Some(scheme.quote_foreground),
            left_margin: Some(20),
            indent: Some(10),
            pixels_above_lines: Some(10),
            pixels_below_lines: Some(10),
            slant: Slant::Oblique,
            ..plain()
        },
        StyleKey::ListItem(d) => TextStyle {
            indent: Some(LIST_INDENT_STEP * (d as u64)),
            slant: Slant::Italic,
            scale_percent: Some(130),
            ..plain()
        },
        StyleKey::Link => TextStyle {
            foreground: Some(Rgb { red: 0x90, green: 0xc2, blue: 0xff }),
            underline: true,
            ..plain()
        },
    }
}


/// The table of styles of one document, built for one color scheme.
///
/// The fixed styles are created when the registry is built; list and link
/// styles are created on first use and then reused.
pub struct StyleRegistry {
    scheme: ColorScheme,
    entries: Vec<(StyleKey, TextStyle)>,
}

impl StyleRegistry {
    /// The color scheme that the styles were made for.
    pub closed spec fn scheme_spec(&self) -> ColorScheme {
        self.scheme
    }

    /// The handles of the registered styles, in the order of creation.
    pub closed spec fn keys(&self) -> Seq<StyleKey> {
        self.entries@.map_values(|e: (StyleKey, TextStyle)| e.0)
    }

    /// A well-formed registry holds each handle once; in particular it holds
    /// at most one list style for each depth.
    pub proof fn lemma_keys_distinct(&self)
        requires
            self.wf(),
        ensures
            self.keys().no_duplicates(),
    {
        assert forall|i: int, j: int|
            0 <= i < self.keys().len() && 0 <= j < self.keys().len() && i != j implies self.keys()[i]
            != self.keys()[j] by {
            if i < j {
                assert(self.entries@[i].0 != self.entries@[j].0);
            } else {
                assert(self.entries@[j].0 != self.entries@[i].0);
            }
        }
    }

    /// Whether the style that `key` names has been created.
    pub open spec fn has(&self, key: StyleKey) -> bool {
        self.keys().contains(key)
    }

    /// Each handle is registered once, and each style is the definition of
    /// its handle under the registry's color scheme.
    pub closed spec fn wf(&self) -> bool {
        &&& forall|i: int, j: int|
            0 <= i < j < self.entries@.len() ==> self.entries@[i].0 != self.entries@[j].0
        &&& forall|i: int|
            0 <= i < self.entries@.len() ==> #[trigger] self.entries@[i].1 == style_def(
                self.entries@[i].0,
                self.scheme,
            )
    }

    /// Creates the fixed styles for `scheme`.
    pub fn build_styles(scheme: ColorScheme) -> (r: StyleRegistry)
        ensures
            r.wf(),
            r.scheme_spec() == scheme,
            r.keys() == fixed_keys(),
    {
        let mut r = StyleRegistry { scheme, entries: Vec::new() };
        let keys: [StyleKey; 11] = [
            StyleKey::Heading(HeadingLevel::H1),
            StyleKey::Heading(HeadingLevel::H2),
            StyleKey::Heading(HeadingLevel::H3),
            StyleKey::Heading(HeadingLevel::H4),
            StyleKey::Heading(HeadingLevel::H5),
            StyleKey::Heading(HeadingLevel::H6),
            StyleKey::Bold,
            StyleKey::Emphasis,
            StyleKey::BlockQuote,
            StyleKey::InlineCode,
            StyleKey::CodeBlock,
        ];
        assert(keys@ == fixed_keys());
        let mut i: usize = 0;
        while i < 11
            invariant
                i <= 11,
                keys@ == fixed_keys(),
                r.scheme == scheme,
                r.wf(),
                r.keys() == fixed_keys().take(i as int),
            decreases 11 - i,
        {
            let k = keys[i];
            assert(!r.keys().contains(k)) by {
                if r.keys().contains(k) {
                    let j = r.keys().index_of(k);
                    assert(fixed_keys()[j] == fixed_keys()[i as int]);
                }
            }
            r.register(k);
            assert(fixed_keys().take(i + 1) =~= fixed_keys().take(i as int).push(k));
            i = i + 1;
        }
        assert(fixed_keys().take(11) =~= fixed_keys());
        r
    }

    /// Adds the style that `key` names, which is not registered yet.
    fn register(&mut self, key: StyleKey)
        requires
            old(self).wf(),
            !old(self).has(key),
        ensures
            final(self).wf(),
            final(self).scheme == old(self).scheme,
            final(self).keys() == old(self).keys().push(key),
            forall|k: StyleKey| #[trigger] final(self).has(k) <==> (old(self).has(k) || k == key),
    {
        let style = define_style(key, self.scheme);
        let ghost k0 = self.keys();
        self.entries.push((key, style));
        assert(self.keys() =~= k0.push(key));
        assert forall|k: StyleKey| #[trigger] self.has(k) <==> (old(self).has(k) || k == key) by {
            if self.has(k) && k != key {
                let t = self.keys().index_of(k);
                assert(k0[t] == k);
            }
            if old(self).has(k) {
                let t = k0.index_of(k);
                assert(self.keys()[t] == k);
            }
            if k == key {
                assert(self.keys()[k0.len() as int] == k);
            }
        }
        assert forall|i: int, j: int|
            0 <= i < j < self.entries@.len() implies self.entries@[i].0 != self.entries@[j].0 by {
            if j == self.entries@.len() - 1 {
                assert(k0[i] == self.entries@[i].0);
            }
        }
    }

    /// Returns the position of `key` among the registered styles.
    fn find(&self, key: StyleKey) -> (r: Option<usize>)
        ensures
            match r {
                Some(i) => i < self.keys().len() && self.keys()[i as int] == key,
                None => !self.has(key),
            },
    {
        let mut i: usize = 0;
        while i < self.entries.len()
            invariant
                i <= self.entries@.len(),
                forall|j: int| 0 <= j < i ==> self.keys()[j] != key,
            decreases self.entries@.len() - i,
        {
            if self.entries[i].0 == key {
                return Some(i);
            }
            i = i + 1;
        }
        None
    }

    /// Returns the handle `key`, creating its style unless it exists.
    pub fn ensure_style(&mut self, key: StyleKey) -> (r: StyleKey)
        requires
            old(self).wf(),
        ensures
            r == key,
            final(self).wf(),
            final(self).scheme_spec() == old(self).scheme_spec(),
            final(self).has(key),
            old(self).has(key) ==> final(self).keys() == old(self).keys(),
            !old(self).has(key) ==> final(self).keys() == old(self).keys().push(key),
            forall|k: StyleKey| #[trigger] final(self).has(k) <==> (old(self).has(k) || k == key),
    {
        match self.find(key) {
            Some(_) => {},
            None => {
                self.register(key);
                assert(self.keys().last() == key);
            },
        }
        key
    }

    /// Returns the handle of the marker style of list items nested at
    /// `depth`, creating the style on first use.
    pub fn list_style(&mut self, depth: u32) -> (r: StyleKey)
        requires
            old(self).wf(),
        ensures
            r == StyleKey::ListItem(depth),
            final(self).wf(),
            final(self).scheme_spec() == old(self).scheme_spec(),
            final(self).has(r),
            old(self).has(r) ==> final(self).keys() == old(self).keys(),
            !old(self).has(r) ==> final(self).keys() == old(self).keys().push(r),
            forall|k: StyleKey| #[trigger] final(self).has(k) <==> (old(self).has(k) || k == r),
    {
        self.ensure_style(StyleKey::ListItem(depth))
    }

    /// Returns the handle of the link style, creating it on first use.
    pub fn link_style(&mut self) -> (r: StyleKey)
        requires
            old(self).wf(),
        ensures
            r == StyleKey::Link,
            final(self).wf(),
            final(self).scheme_spec() == old(self).scheme_spec(),
            final(self).has(r),
            old(self).has(r) ==> final(self).keys() == old(self).keys(),
            !old(self).has(r) ==> final(self).keys() == old(self).keys().push(r),
            forall|k: StyleKey| #[trigger] final(self).has(k) <==> (old(self).has(k) || k == r),
    {
        self.ensure_style(StyleKey::Link)
    }

    /// Returns the style that `key` names, if it has been created.
    pub fn lookup(&self, key: StyleKey) -> (r: Option<TextStyle>)
        requires
            self.wf(),
        ensures
            r == (if self.has(key) {
                Some(style_def(key, self.scheme_spec()))
            } else {
                None
            }),
    {
        match self.find(key) {
            Some(i) => Some(self.entries[i].1),
            None => None,
        }
    }

    /// The color scheme that the styles were made for.
    pub fn scheme(&self) -> (r: ColorScheme)
        ensures
            r == self.scheme_spec(),
    {
        self.scheme
    }

    /// The number of registered styles.
    pub fn len(&self) -> (r: usize)
        ensures
            r == self.keys().len(),
    {
        self.entries.len()
    }
}

} // verus!
