pub mod ast;
pub mod message;
pub mod render;
pub mod semantics;
pub mod span;
