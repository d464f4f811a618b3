//! Front end of a compiler for the ExpL teaching language: the symbol tables,
//! the typed syntax-tree constructors used by the grammar's actions, and the
//! checks that the parser runs while it builds the tree.

pub mod span;
pub mod decimal;
pub mod type_table;
pub mod symbol;
pub mod utils;
pub mod ast;
pub mod frontend;
