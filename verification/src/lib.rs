//! Parser front end for a small ML-like program-synthesis language.
//!
//! The library turns source text into a `SynthProblem`: imports, top-level
//! declarations, a goal type, and a specification clause. Types and
//! expressions are hash-consed through an explicit session interner,
//! so structural equality of the produced nodes coincides with equality of
//! their handles.

pub mod error;
pub mod intern;
pub mod lang;
pub mod lexer;
pub mod model;
pub mod parser;
pub mod token;
