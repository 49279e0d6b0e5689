//! A text document backed by a rope, with the editing operations of a
//! terminal text widget.

pub mod text;
pub mod rope_ops;
pub mod widget_types;
pub mod error;
pub mod range;
pub mod document;
pub mod search;
pub mod laws;

pub use crate::document::Document;
pub use crate::error::{RopeError, RopeyResult};
pub use crate::range::{CharBound, CharRange};
pub use crate::search::{SearchError, SearchIter, SearchResult};
