//! Outgoing search bookkeeping, search-term syntax and the index used to
//! answer searches from other users.
//!
//! Every search has a `u32` token. Responses are compressed, and their token
//! is checked against the tokens we allow before they are unpacked.

pub mod sanitize;
pub mod search;
pub mod word_index;

pub use sanitize::SanitizedSearch;
pub use search::{SearchMode, SearchState};
pub use word_index::WordIndex;
