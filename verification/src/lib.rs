//! Decides whether a path is excluded by an ordered list of ignore rules.
//!
//! A rule is classified ([`Pattern::new`]), expanded into a wildcard expression
//! ([`Gitignore::make_full_path`]), and the rules of a list are held against a
//! target in order ([`Gitignore::ignores`]).

pub mod gitignore;
pub mod laws;
pub mod matcher;
pub mod pattern;
pub mod text;

pub use gitignore::{Gitignore, MatchSpec};
pub use matcher::MatchOptions;
pub use pattern::{Anchor, PathKind, Pattern};
