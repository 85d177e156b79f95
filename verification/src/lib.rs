//! A beta-reduction engine for the untyped lambda calculus.
//!
//! Terms are owned trees of variables, applications and abstractions.
//! A strategy (call-by-name or normal-order) searches a term for the next
//! redex and reports it as a reduction path; the path applier rewrites the
//! term at that spot with capture-avoiding substitution. Drivers iterate
//! this step until the strategy reports the term irreducible.

pub mod drive;
pub mod exp;
pub mod path;
pub mod strategy;
pub mod subst;

pub use drive::{reduce_full, reduce_iter, reduce_step, ReducIter};
pub use exp::{free_in, Exp};
pub use path::{reduce_with, Reduc};
pub use strategy::{strat_byname, strat_norm, Strategy};
pub use subst::sub;
