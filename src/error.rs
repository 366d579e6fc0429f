use vstd::prelude::*;

verus! {

/// What can go wrong when reading a document or walking its outlines.
#[derive(Debug, Clone, PartialEq)]
pub enum OpmlError {
    /// An outline of type `rss` lacks a field that a feed needs; the text
    /// names the field.
    BadRss(String),
    /// The text could not be read or written as a document; the text is the
    /// decoder's own message.
    XmlError(String),
}

} // verus!
