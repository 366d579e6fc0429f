//! The OPML document model and the extraction of feed addresses from its
//! outline tree.
pub mod error;
pub mod feeds;
pub mod model;

pub use error::OpmlError;
pub use model::{Body, Head, Opml, Outline};
