pub mod node;
pub mod span;

pub use node::{BaseNode, Node, ONode};
pub use span::{Span, SliceSpan};
