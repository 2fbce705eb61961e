//! Scene DSL — schema types and the rules that turn parsed scene files into
//! the engine's scene list.

pub mod loader;
pub mod schema;
