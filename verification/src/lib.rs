//! A small Scheme interpreter, stated over mathematical models and proved
//! against them.
//!
//! A source text goes through three stages. [`tokenize`] splits it into
//! tokens; [`parse`] builds one expression from them; [`eval`] gives the
//! value of the expression in a [`frame::Frame`], the store that holds every
//! frame of the session. [`interpret`] does the three in a row.
//!
//! Exact integers are computed here, and their arithmetic saturates. An
//! inexact real is carried as its bits; it is compared, negated, made from
//! an integer and cut to one here. What else is computed on reals is asked
//! of a [`reals::RealUnit`], which the embedder supplies; the contracts
//! state every such result over what the unit answers.
//!
//! The modules [`laws`], [`roundtrip`], [`reading`] and [`legible`] hold
//! what is proved of the interpreter as a whole.
pub mod builtin;
pub mod canvas;
pub mod compare;
pub mod data_model;
pub mod error;
pub mod evaluator;
pub mod frame;
pub mod interpreter;
pub mod laws;
pub mod legible;
pub mod lexer;
pub mod literal;
pub mod number;
pub mod parser;
pub mod printer;
pub mod reading;
pub mod reals;
pub mod roundtrip;
pub mod text;
pub mod value;

pub use evaluator::eval;
pub use frame::{create_global_frame, create_graphic_frame};
pub use interpreter::interpret;
pub use lexer::tokenize;
pub use parser::parse;
