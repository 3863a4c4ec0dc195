//! Schema-driven transliteration: a named rule set ("schema") maps text from
//! one script into another with a 3-character sliding window, word-final
//! ending rules, word-boundary segmentation and source-case propagation.

pub mod casing;
pub mod ending;
pub mod letters;
pub mod schema;
pub mod segments;
pub mod words;

pub use casing::propagate_case_from_source;
pub use ending::parse_ending;
pub use ending::Ending;
pub use letters::parse_letter;
pub use schema::Schema;
pub use words::parse_by_schema;
pub use words::parse_word_by_schema;
