//! Verified core of a small-language-model toolkit: chat-template formatters,
//! answer and generation-control types, prompt sequencing, constraint grammars,
//! and an EPUB text extractor.
pub mod errors;
pub mod text;
pub mod formatter;
pub mod models;
pub mod epubscan;
pub mod answer;
pub mod action;
pub mod oracle;
pub mod chat;
pub mod context;
pub mod vocab;
pub mod hf_model;
pub mod lark;
pub mod generation;
pub mod laws;
pub mod markup_laws;
pub mod epub_laws;
pub mod format_laws;
