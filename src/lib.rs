//! Grouping of the term matches found in a document by the index of the
//! query term that each of them answers, with a cursor over the groups.

pub mod order;
pub mod set_buf;
pub mod grouping;
pub mod groups;
pub mod document;

pub use order::{DocumentId, Match};
pub use groups::{Matches, QueryIndexGroups};
pub use document::Document;
