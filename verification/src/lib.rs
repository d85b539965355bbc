//! Bridge between an analyzer's semantic type model and the intermediate
//! representation of a trait solver.
//!
//! The analyzer's types, substitutions and predicates live in [`ty`]; the
//! solver-facing mirror of them lives in [`solver`]. [`lower`] states and
//! performs the conversion from the former to the latter, [`raise`] the
//! conversion back, and [`bridge`] offers both for every entity as one
//! trait. [`roundtrip`] proves that the two undo each other, [`stable`]
//! that a conversion can be repeated.
//!
//! [`shift`] moves solver-side values across binders, [`subst`] rewrites
//! the bound variables of analyzer-side values, [`canonical`] replaces
//! inference variables by bound ones. [`env`] converts the where-clauses of
//! a definition and [`bound`] derives bounds with the self type left out.
//! [`intern`] holds the append-only table that gives composite identities
//! their solver-facing handles.
//!
//! [`generate`] holds the comment-block reader and the plan of the source
//! generator.
pub mod error;
pub mod collect;
pub mod ids;
pub mod primitive;
pub mod intern;
pub mod ty;
pub mod equal;
pub mod subst;
pub mod solver;
pub mod shift;
pub mod rank;
pub mod lower;
pub mod raise;
pub mod roundtrip;
pub mod stable;
pub mod bridge;
pub mod bound;
pub mod env;
pub mod canonical;
pub mod generate;
