//! An interpreter core for a small Lisp in the tradition of Bel: the object
//! model, list traversal, environments, the reader, the evaluator with its
//! special forms and user functions, the primitive registry, and the loading
//! of source text.
pub mod env;
pub mod error;
pub mod eval;
pub mod functions;
pub mod list;
pub mod loader;
pub mod object;
pub mod parser;
pub mod primatives;
