//! Normalises documents of ten formats into extracted text plus metadata.
//!
//! A file name or extension selects a [`DocumentFormat`]; [`parse_document`]
//! hands the bytes to that format's strategy, which returns a [`ParsedDocument`]
//! or a [`ParseError`] of one of three kinds.
pub mod containers;
pub mod dispatch;
pub mod format;
pub mod markup;
pub mod model;
pub mod plain;
pub mod structured;
pub mod text;
pub mod workbook;
pub mod xml_events;

pub use containers::{parse_docx, parse_pptx};
pub use dispatch::parse_document;
pub use format::DocumentFormat;
pub use markup::{parse_html, parse_xml};
pub use model::{MetaEntry, MetaValue, Metadata, ParseError, ParsedDocument};
pub use plain::{parse_markdown, parse_text};
pub use structured::{parse_csv, parse_json, parse_pdf};
pub use workbook::parse_xlsx;
pub use xml_events::extract_ooxml_text;
