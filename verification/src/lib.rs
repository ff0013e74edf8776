//! Dependency graphs of annotated sentences: building them from tokens,
//! writing them down as DOT and as TikZ, and a cursor over a growing
//! collection of them that tells its subscribers of each change.

pub mod dot;
pub mod error;
pub mod export;
pub mod graph;
pub mod model;
pub mod text;
pub mod tikz;
pub mod token;

pub use crate::dot::Dot;
pub use crate::error::Error;
pub use crate::export::{dot_export, tikz_export, Export};
pub use crate::graph::{DependencyEdge, DependencyGraph, DependencyNode, Tokens};
pub use crate::model::{ModelUpdate, StatefulTreebankModel, TreebankModel};
pub use crate::text::escape_str;
pub use crate::tikz::Tikz;
pub use crate::token::{Layer, Token};
