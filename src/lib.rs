//! Extraction of human-readable sentences (comments, documentation and prose)
//! from the files of a source repository.

pub mod contents;
pub mod extract;
pub mod points;
pub mod text;
