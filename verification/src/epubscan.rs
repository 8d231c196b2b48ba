//! Reading EPUB e-books into plain-text sections.
//!
//! The archive is located through `META-INF/container.xml`, the OPF package
//! document gives the manifest, the spine and the language, the NCX gives chapter
//! titles, and each XHTML content document is rendered as Markdown-like text.
pub mod xml;
pub mod xhtml;
pub mod paths;
pub mod archive;
pub mod package;
pub mod book;
