//! Resolution of written scripture references against a fixed canon, and
//! ranked free-text search over verse text.
//!
//! - [`canon`]: the registry of books and the lookup of books by name;
//!   [`standard`]: the table of books that is compiled in.
//! - [`parser`]: the grammar of written references; [`resolver`]: from a
//!   reference to a range of verses that the canon has; [`writing`]: from a
//!   verse back to its reference, and the laws that tie the three together.
//! - [`words`]: from text to terms; [`ranking`]: what the answer to a query
//!   is; [`search`]: the inverted index and search against it.
//! - [`locator`]: addresses of verses and ranges between them.
//! - [`source`]: a canon and a corpus behind one handle.
//! - [`text`]: character classes, numerals and strings.
pub mod text;
pub mod canon;
pub mod locator;
pub mod parser;
pub mod resolver;
pub mod writing;
pub mod words;
pub mod ranking;
pub mod search;
pub mod standard;
pub mod source;
