//! Hierarchical note shelves: lexical path identity for subjects and notes,
//! and the planning and accounting side of batch compilation.

pub mod path;
pub mod pathlaws;
pub mod text;
pub mod error;
pub mod shelf;
pub mod subjects;
pub mod compile;
pub mod profile;
pub mod templates;
