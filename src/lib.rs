//! A Markdown renderer for Stack Exchange posts.
//!
//! A post body is parsed into a tree (`ast`, `parse`), then projected block
//! by block onto an append-only document of styled text runs, link icons
//! and table grids (`render`, `table`, `document`). The runs refer to named
//! styles that a per-view registry creates for the light or dark theme
//! (`style`); `view` ties a document to its registry. `laws` states general
//! facts about rendering, `api` holds the records that posts come in, and
//! `locale` picks the time locale that dates are shown in.

pub mod api;
pub mod ast;
pub mod document;
pub mod error;
pub mod laws;
pub mod locale;
pub mod parse;
pub mod render;
pub mod style;
pub mod table;
pub mod view;
