pub mod lex;
pub mod lit;
pub mod case;
pub mod scan;
pub mod token;

pub use token::{FloatLit, NumberKind, Token};
