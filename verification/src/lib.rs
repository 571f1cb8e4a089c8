//! A PDF writing library.
//!
//! It holds the PDF object model (booleans, names, null, strings, references,
//! dictionaries and arrays) with its encodings and its serialisation into a file, each
//! indirect object recorded in the cross-reference table at the offset of its header;
//! the file header, cross-reference section and trailer; stream content with zlib
//! compression; text string encodings (literal, UTF-16BE and UTF-8 with byte order marks);
//! ASCII85; PDF dates; the page tree with its pages and content streams; the Resources
//! dictionary of pages; the version and feature tables;
//! and the standard security handler (password padding, RC4, the O and U values and the
//! encryption key).

pub mod annotation_support;
pub mod body;
pub mod color;
pub mod date;
pub mod decimal;
pub mod encoding;
pub mod encryption_ops;
pub mod error;
pub mod features;
pub mod file_identifier;
pub mod fonts;
pub mod form;
pub mod function;
pub mod header;
pub mod hexfmt;
pub mod keyed;
pub mod metadata_ops;
pub mod object;
pub mod object_number;
pub mod object_ops;
pub mod objects;
pub mod page;
pub mod page_ops;
pub mod pdf_version;
pub mod resource_category;
pub mod resources;
pub mod shading;
pub mod strbuf;
pub mod string;
pub mod string_functions;
pub mod trailer;
pub mod unicode;
pub mod util;
pub mod version;
pub mod writer;
pub mod xref;
