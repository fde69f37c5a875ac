use stackbloatless::ast::{MdNode, NodeKind};
use stackbloatless::document::{CellGrid, CellObject, Document, Entry};
use stackbloatless::error::RenderError;
use stackbloatless::parse::parse_markdown;
use stackbloatless::locale::get_system_time_locale;
use stackbloatless::render::{list_marker, md_list2buf};
use stackbloatless::style::{resolve_color_scheme, HeadingLevel, Rgb, Slant, StyleKey, StyleRegistry};
use stackbloatless::table::project_table;
use stackbloatless::view::{md2gtk, MarkdownView};

fn run(text: &str, styles: Vec<StyleKey>) -> Entry {
    Entry::Run { text: text.to_string(), styles }
}

fn render(text: &str) -> Result<Vec<Entry>, RenderError> {
    let mut view = MarkdownView::new(false);
    view.append_text(text)?;
    let mut out = Vec::new();
    for e in view.document().entries() {
        out.push(match e {
            Entry::Run { text, styles } => Entry::Run { text: text.clone(), styles: styles.clone() },
            Entry::Icon { tooltip } => Entry::Icon { tooltip: tooltip.clone() },
            Entry::Grid(g) => Entry::Grid(CellGrid {
                columns: g.columns,
                cells: g
                    .cells
                    .iter()
                    .map(|c| CellObject { string: c.string.clone(), is_header: c.is_header })
                    .collect(),
            }),
        });
    }
    Ok(out)
}

fn text(s: &str) -> MdNode {
    MdNode::Text(s.to_string())
}

fn cell(s: &str) -> MdNode {
    MdNode::TableCell(vec![text(s)])
}

#[test]
fn plain_paragraph_is_one_unstyled_run() {
    assert_eq!(render("hello world").unwrap(), vec![run("hello world", vec![])]);
}

#[test]
fn plain_paragraph_tree_is_one_unstyled_run() {
    let mut view = MarkdownView::new(true);
    let root = MdNode::Root(vec![MdNode::Paragraph(vec![text("just words")])]);
    view.append_tree(&root).unwrap();
    assert_eq!(view.document().entries(), &vec![run("just words", vec![])]);
}

#[test]
fn list_style_is_memoized() {
    let scheme = resolve_color_scheme(false);
    let mut reg = StyleRegistry::build_styles(scheme);
    let before = reg.len();
    let first = reg.list_style(3);
    let after_first = reg.len();
    let second = reg.list_style(3);
    assert_eq!(first, second);
    assert_eq!(first, StyleKey::ListItem(3));
    assert_eq!(after_first, before + 1);
    assert_eq!(reg.len(), after_first);
    let style = reg.lookup(StyleKey::ListItem(3)).unwrap();
    assert_eq!(style.indent, Some(60));
    assert_eq!(style.scale_percent, Some(130));
}

#[test]
fn table_rows_are_padded() {
    let rows = vec![
        MdNode::TableRow(vec![cell("a"), cell("b"), cell("c")]),
        MdNode::TableRow(vec![cell("d")]),
        MdNode::TableRow(vec![cell("e"), cell("f")]),
    ];
    let grid = project_table(&rows).unwrap();
    assert_eq!(grid.columns, 3);
    let some = |s: &str, h: bool| CellObject { string: Some(s.to_string()), is_header: h };
    let pad = || CellObject { string: None, is_header: false };
    assert_eq!(
        grid.cells,
        vec![
            some("a", true),
            some("b", true),
            some("c", true),
            some("d", false),
            pad(),
            pad(),
            some("e", false),
            some("f", false),
            pad(),
        ]
    );
}

#[test]
fn table_with_a_non_row_fails() {
    let rows = vec![MdNode::TableRow(vec![cell("a")]), text("stray")];
    assert_eq!(
        project_table(&rows).unwrap_err(),
        RenderError::UnsupportedConstruct(NodeKind::TableRow)
    );
}

#[test]
fn gfm_table_is_one_grid_between_newlines() {
    let out = render("| a | b |\n|---|---|\n| c | d |").unwrap();
    assert_eq!(out.len(), 3);
    assert_eq!(out[0], run("\n", vec![]));
    assert_eq!(out[2], run("\n", vec![]));
    match &out[1] {
        Entry::Grid(g) => {
            assert_eq!(g.columns, 2);
            let texts: Vec<Option<String>> = g.cells.iter().map(|c| c.string.clone()).collect();
            assert_eq!(
                texts,
                vec![Some("a".to_string()), Some("b".to_string()), Some("c".to_string()), Some("d".to_string())]
            );
            let headers: Vec<bool> = g.cells.iter().map(|c| c.is_header).collect();
            assert_eq!(headers, vec![true, true, false, false]);
        }
        other => panic!("expected a grid, got {:?}", other),
    }
}

fn marker_runs(out: &[Entry]) -> Vec<(String, Vec<StyleKey>)> {
    out.iter()
        .filter_map(|e| match e {
            Entry::Run { text, styles } if styles.iter().any(|s| matches!(s, StyleKey::ListItem(_))) => {
                Some((text.clone(), styles.clone()))
            }
            _ => None,
        })
        .collect()
}

#[test]
fn ordered_list_markers_count_from_one() {
    let out = render("1. a\n2. b\n3. c").unwrap();
    let markers: Vec<String> = marker_runs(&out).into_iter().map(|m| m.0).collect();
    assert_eq!(markers, vec!["1. ", "2. ", "3. "]);
    assert_eq!(out[0], run("\n\n", vec![]));
    assert_eq!(out[1], run("1. ", vec![StyleKey::ListItem(1)]));
    assert_eq!(out[2], run("a", vec![]));
    assert_eq!(out[3], run("\n", vec![]));
    assert_eq!(out.last().unwrap(), &run("\n", vec![]));
    assert_eq!(out.len(), 11);
}

#[test]
fn ordered_list_ignores_custom_start() {
    let out = render("7. a\n8. b").unwrap();
    let markers: Vec<String> = marker_runs(&out).into_iter().map(|m| m.0).collect();
    assert_eq!(markers, vec!["1. ", "2. "]);
}

#[test]
fn unordered_list_uses_bullets() {
    let out = render("- a\n- b").unwrap();
    let markers: Vec<String> = marker_runs(&out).into_iter().map(|m| m.0).collect();
    assert_eq!(markers, vec!["\u{2022} ", "\u{2022} "]);
}

#[test]
fn tenth_marker_has_two_digits() {
    assert_eq!(list_marker(9, true), "10. ");
    assert_eq!(list_marker(0, true), "1. ");
    assert_eq!(list_marker(122, true), "123. ");
    assert_eq!(list_marker(4, false), "\u{2022} ");
}

#[test]
fn nested_lists_indent_one_level_each() {
    let out = render("- a\n  - b\n    - c").unwrap();
    let depths: Vec<Vec<StyleKey>> = marker_runs(&out).into_iter().map(|m| m.1).collect();
    assert_eq!(
        depths,
        vec![vec![StyleKey::ListItem(1)], vec![StyleKey::ListItem(2)], vec![StyleKey::ListItem(3)]]
    );
}

#[test]
fn lists_nested_too_deep_are_refused() {
    let mut node = MdNode::ListItem(vec![text("x")]);
    for _ in 0..70 {
        node = MdNode::List { ordered: false, children: vec![node] };
    }
    let mut view = MarkdownView::new(false);
    let root = MdNode::Root(vec![node]);
    assert_eq!(view.append_tree(&root), Err(RenderError::RecursionLimitExceeded));
    assert!(view.document().entries().is_empty());
}

#[test]
fn image_is_unsupported() {
    assert_eq!(render("![alt](url)").unwrap_err(), RenderError::UnsupportedConstruct(NodeKind::Image));
}

#[test]
fn failed_render_leaves_document_unchanged() {
    let mut view = MarkdownView::new(false);
    view.append_text("first").unwrap();
    assert_eq!(
        view.append_text("before ![alt](url)"),
        Err(RenderError::UnsupportedConstruct(NodeKind::Image))
    );
    assert_eq!(view.document().entries(), &vec![run("first", vec![])]);
}

#[test]
fn html_block_is_unsupported() {
    assert_eq!(render("<div>\nhi\n</div>").unwrap_err(), RenderError::UnsupportedConstruct(NodeKind::Html));
}

#[test]
fn link_reference_is_unsupported() {
    assert_eq!(
        render("[a][b]\n\n[b]: http://x.org").unwrap_err(),
        RenderError::UnsupportedConstruct(NodeKind::LinkReference)
    );
}

#[test]
fn thematic_break_is_unsupported() {
    assert_eq!(render("a\n\n***\n\nb").unwrap_err(), RenderError::UnsupportedConstruct(NodeKind::Other));
}

#[test]
fn headings_are_bold_and_sized() {
    assert_eq!(
        render("# Title").unwrap(),
        vec![
            run("\n", vec![]),
            run("Title", vec![StyleKey::Bold, StyleKey::Heading(HeadingLevel::H1)]),
            run("\n", vec![])
        ]
    );
    assert_eq!(
        render("###### Title").unwrap(),
        vec![
            run("\n", vec![]),
            run("Title", vec![StyleKey::Bold, StyleKey::Heading(HeadingLevel::H6)]),
            run("\n", vec![])
        ]
    );
}

#[test]
fn heading_text_is_flattened() {
    assert_eq!(
        render("## a *b* `c`").unwrap()[1],
        run("a b c", vec![StyleKey::Bold, StyleKey::Heading(HeadingLevel::H2)])
    );
}

#[test]
fn heading_deeper_than_six_is_unsupported() {
    let mut view = MarkdownView::new(false);
    let root = MdNode::Root(vec![MdNode::Heading { depth: 7, children: vec![text("x")] }]);
    assert_eq!(view.append_tree(&root), Err(RenderError::UnsupportedConstruct(NodeKind::Heading)));
}

#[test]
fn link_is_icon_then_styled_text() {
    assert_eq!(
        render("[text](http://example.com)").unwrap(),
        vec![
            Entry::Icon { tooltip: "http://example.com".to_string() },
            run("text", vec![StyleKey::Link])
        ]
    );
}

#[test]
fn link_style_is_registered_after_render() {
    let mut view = MarkdownView::new(false);
    assert!(view.styles().lookup(StyleKey::Link).is_none());
    view.append_text("[x](http://a.b)").unwrap();
    let style = view.styles().lookup(StyleKey::Link).unwrap();
    assert!(style.underline);
    assert_eq!(style.foreground, Some(Rgb { red: 0x90, green: 0xc2, blue: 0xff }));
}

#[test]
fn strong_bolds_only_its_text_children() {
    assert_eq!(
        render("**a *b* `c`**").unwrap(),
        vec![
            run("a ", vec![StyleKey::Bold]),
            run("b", vec![StyleKey::Emphasis]),
            run(" ", vec![StyleKey::Bold]),
            run("c", vec![StyleKey::InlineCode])
        ]
    );
}

#[test]
fn emphasis_underlines_text() {
    assert_eq!(render("*x*").unwrap(), vec![run("x", vec![StyleKey::Emphasis])]);
}

#[test]
fn inline_code_is_styled() {
    assert_eq!(
        render("use `f()` here").unwrap(),
        vec![run("use ", vec![]), run("f()", vec![StyleKey::InlineCode]), run(" here", vec![])]
    );
}

#[test]
fn code_block_between_blank_lines() {
    assert_eq!(
        render("```rust\nlet x = 1;\n```").unwrap(),
        vec![
            run("\n\n", vec![]),
            run("let x = 1;", vec![StyleKey::CodeBlock]),
            run("\n\n", vec![])
        ]
    );
}

#[test]
fn block_quote_is_one_flattened_run() {
    assert_eq!(
        render("> a *b*").unwrap(),
        vec![run("\n", vec![]), run("a b", vec![StyleKey::BlockQuote]), run("\n", vec![])]
    );
}

#[test]
fn empty_input_renders_nothing() {
    assert_eq!(render("").unwrap(), vec![]);
}

#[test]
fn color_schemes_differ_by_theme() {
    let dark = resolve_color_scheme(true);
    let light = resolve_color_scheme(false);
    assert_eq!(dark.code_background, Rgb { red: 5, green: 5, blue: 5 });
    assert_eq!(dark.quote_foreground, Rgb { red: 0x69, green: 0x69, blue: 0x69 });
    assert_eq!(light.code_background, Rgb { red: 0xb0, green: 0xb0, blue: 0xb0 });
    assert_eq!(light.quote_background, Rgb { red: 0x50, green: 0x50, blue: 0x50 });
    assert_eq!(light.quote_foreground, Rgb { red: 0xff, green: 0xff, blue: 0xff });
}

#[test]
fn fixed_styles_follow_the_scheme() {
    let reg = StyleRegistry::build_styles(resolve_color_scheme(true));
    assert_eq!(reg.len(), 11);
    assert_eq!(reg.lookup(StyleKey::Heading(HeadingLevel::H1)).unwrap().size_points, Some(30));
    assert_eq!(reg.lookup(StyleKey::Heading(HeadingLevel::H6)).unwrap().size_points, Some(20));
    assert_eq!(reg.lookup(StyleKey::Bold).unwrap().weight, Some(700));
    let quote = reg.lookup(StyleKey::BlockQuote).unwrap();
    assert_eq!(quote.slant, Slant::Oblique);
    assert_eq!(quote.background, Some(Rgb { red: 5, green: 5, blue: 5 }));
    assert!(reg.lookup(StyleKey::ListItem(1)).is_none());
}

#[test]
fn parse_builds_the_tree() {
    let tree = parse_markdown("a *b* [c](http://d.e)\n\n```py\nx\n```", true).unwrap();
    let MdNode::Root(blocks) = &tree else { panic!("no root") };
    assert_eq!(blocks.len(), 2);
    let MdNode::Paragraph(inline) = &blocks[0] else { panic!("no paragraph") };
    assert!(matches!(&inline[0], MdNode::Text(t) if t == "a "));
    assert!(matches!(&inline[1], MdNode::Emphasis(c) if matches!(&c[0], MdNode::Text(t) if t == "b")));
    assert!(matches!(&inline[3], MdNode::Link { url, .. } if url == "http://d.e"));
    assert!(matches!(&blocks[1], MdNode::Code { value, lang } if value == "x" && lang.as_deref() == Some("py")));
    assert_eq!(tree.to_text(), "a b cx");
}

#[test]
fn commonmark_has_no_tables() {
    let view = md2gtk("| a |\n|---|", false).unwrap();
    let entries = view.document().entries();
    assert!(entries.iter().all(|e| !matches!(e, Entry::Grid(_))));
}

#[test]
fn md2gtk_renders_headings() {
    let view = md2gtk("# Hi", true).unwrap();
    assert_eq!(
        view.document().entries()[1],
        run("Hi", vec![StyleKey::Bold, StyleKey::Heading(HeadingLevel::H1)])
    );
}

#[test]
fn cell_object_new_keeps_text() {
    let c = CellObject::new(Some("x"), true);
    assert_eq!(c.string.as_deref(), Some("x"));
    assert!(c.is_header);
    assert_eq!(CellObject::new(None, false), CellObject { string: None, is_header: false });
}

#[test]
fn trees_nested_too_deep_are_refused() {
    let text = format!("{} x", ">".repeat(300));
    assert_eq!(parse_markdown(&text, true).unwrap_err(), RenderError::RecursionLimitExceeded);
    let shallow = format!("{} x", ">".repeat(20));
    assert!(parse_markdown(&shallow, true).is_ok());
}

#[test]
fn writer_appends_at_the_end() {
    let mut doc = Document::new();
    doc.insert_text("a");
    doc.insert_with_style("b", StyleKey::Bold);
    doc.insert_icon("http://x");
    doc.insert_styled("c", vec![StyleKey::Bold, StyleKey::Emphasis]);
    assert_eq!(doc.len(), 4);
    assert_eq!(
        doc.entries(),
        &vec![
            run("a", vec![]),
            run("b", vec![StyleKey::Bold]),
            Entry::Icon { tooltip: "http://x".to_string() },
            run("c", vec![StyleKey::Bold, StyleKey::Emphasis])
        ]
    );
}

#[test]
fn locale_prefers_lc_all_and_drops_charset() {
    assert_eq!(get_system_time_locale(Some("de_DE.UTF-8"), Some("fr_FR"), Some("ar")), "de_DE");
    assert_eq!(get_system_time_locale(None, Some("fr_FR.UTF-8"), Some("ar")), "fr_FR");
    assert_eq!(get_system_time_locale(None, None, Some("ar_SA")), "ar_SA");
    assert_eq!(get_system_time_locale(None, None, None), "en");
    assert_eq!(get_system_time_locale(Some(""), Some("fr"), None), "");
    assert_eq!(get_system_time_locale(Some(".x"), None, None), "");
}

#[test]
fn styles_stay_registered_across_appends() {
    let mut view = MarkdownView::new(false);
    view.append_text("- a").unwrap();
    assert!(view.styles().lookup(StyleKey::ListItem(1)).is_some());
    let before = view.styles().len();
    view.append_text("[x](http://y.z)").unwrap();
    assert!(view.styles().lookup(StyleKey::ListItem(1)).is_some());
    assert!(view.styles().lookup(StyleKey::Link).is_some());
    assert_eq!(view.styles().len(), before + 1);
    assert!(view.append_text("![i](j)").is_err());
    assert_eq!(view.styles().len(), before + 1);
}

#[test]
fn list_emitter_numbers_items_at_its_depth() {
    let items = vec![
        MdNode::ListItem(vec![text("a")]),
        MdNode::ListItem(vec![text("b")]),
        MdNode::ListItem(vec![text("c"), MdNode::List { ordered: true, children: vec![MdNode::ListItem(vec![text("d")])] }]),
    ];
    let mut doc = Document::new();
    md_list2buf(&mut doc, &items, true, 2).unwrap();
    let markers = marker_runs(doc.entries());
    assert_eq!(
        markers,
        vec![
            ("1. ".to_string(), vec![StyleKey::ListItem(2)]),
            ("2. ".to_string(), vec![StyleKey::ListItem(2)]),
            ("3. ".to_string(), vec![StyleKey::ListItem(2)]),
            ("1. ".to_string(), vec![StyleKey::ListItem(3)]),
        ]
    );
}

#[test]
fn image_inside_bold_is_unsupported() {
    assert_eq!(render("**a ![i](j)**").unwrap_err(), RenderError::UnsupportedConstruct(NodeKind::Image));
}
