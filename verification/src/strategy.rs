//! The two search strategies: call-by-name and normal-order. Both are pure
//! functions from a term to the reduction path of the leftmost-outermost
//! redex within their search scope; they differ only in whether they search
//! inside abstraction bodies.

use vstd::prelude::*;
use crate::exp::ExpV;
use crate::exp::Exp;
use crate::path::{fits, Reduc};

verus! {

/// Which strategy a driver runs.
#[derive(Clone, Copy, Debug, PartialEq, Eq)]
pub enum Strategy {
    /// Leftmost-outermost, never entering an abstraction body.
    ByName,
    /// Leftmost-outermost, also searching inside abstraction bodies.
    NormalOrder,
}

/// The path call-by-name chooses: the leftmost-outermost redex reachable
/// without entering any abstraction body, or `Irred` when there is none.
/// Function position is searched before argument position, and an inner
/// `Irred` is never wrapped in a descend step.
pub open spec fn byname(t: ExpV) -> Reduc
    decreases t,
{
    match t {
        ExpV::Call(a, b) => if *a is Lamb {
            Reduc::Beta
        } else {
            let ra = byname(*a);
            if ra is Irred {
                let rb = byname(*b);
                if rb is Irred {
                    Reduc::Irred
                } else {
                    Reduc::Right(Box::new(rb))
                }
            } else {
                Reduc::Left(Box::new(ra))
            }
        },
        _ => Reduc::Irred,
    }
}

/// The path normal-order chooses: as call-by-name on applications, and
/// additionally searching inside abstraction bodies.
pub open spec fn norm(t: ExpV) -> Reduc
    decreases t,
{
    match t {
        ExpV::Call(a, b) => if *a is Lamb {
            Reduc::Beta
        } else {
            let ra = norm(*a);
            if ra is Irred {
                let rb = norm(*b);
                if rb is Irred {
                    Reduc::Irred
                } else {
                    Reduc::Right(Box::new(rb))
                }
            } else {
                Reduc::Left(Box::new(ra))
            }
        },
        ExpV::Lamb(_, r) => {
            let rr = norm(*r);
            if rr is Irred {
                Reduc::Irred
            } else {
                Reduc::Body(Box::new(rr))
            }
        },
        _ => Reduc::Irred,
    }
}

/// The path the given strategy chooses on a term.
pub open spec fn chosen(strat: Strategy, t: ExpV) -> Reduc {
    match strat {
        Strategy::ByName => byname(t),
        Strategy::NormalOrder => norm(t),
    }
}

/// A term holds a redex reachable without entering any abstraction body.
pub open spec fn has_weak_redex(t: ExpV) -> bool
    decreases t,
{
    match t {
        ExpV::Call(a, b) => *a is Lamb || has_weak_redex(*a) || has_weak_redex(*b),
        _ => false,
    }
}

/// A term holds a redex anywhere, abstraction bodies included.
pub open spec fn has_redex(t: ExpV) -> bool
    decreases t,
{
    match t {
        ExpV::Call(a, b) => *a is Lamb || has_redex(*a) || has_redex(*b),
        ExpV::Lamb(_, r) => has_redex(*r),
        _ => false,
    }
}

/// A path holds a descend-into-body step somewhere.
pub open spec fn has_body_step(red: Reduc) -> bool
    decreases red,
{
    match red {
        Reduc::Body(_) => true,
        Reduc::Left(p) => has_body_step(*p),
        Reduc::Right(p) => has_body_step(*p),
        _ => false,
    }
}

/// A call-by-name path always fits the term it was computed from.
pub proof fn lemma_byname_fits(t: ExpV)
    ensures
        fits(byname(t), t),
    decreases t,
{
    match t {
        ExpV::Call(a, b) => {
            lemma_byname_fits(*a);
            lemma_byname_fits(*b);
        }
        _ => {}
    }
}

/// A normal-order path always fits the term it was computed from.
pub proof fn lemma_norm_fits(t: ExpV)
    ensures
        fits(norm(t), t),
    decreases t,
{
    match t {
        ExpV::Call(a, b) => {
            lemma_norm_fits(*a);
            lemma_norm_fits(*b);
        }
        ExpV::Lamb(_, r) => {
            lemma_norm_fits(*r);
        }
        _ => {}
    }
}

/// A chosen path always fits the term it was computed from.
pub proof fn lemma_chosen_fits(strat: Strategy, t: ExpV)
    ensures
        fits(chosen(strat, t), t),
{
    match strat {
        Strategy::ByName => lemma_byname_fits(t),
        Strategy::NormalOrder => lemma_norm_fits(t),
    }
}

/// Strategy scope: call-by-name never descends into an abstraction body,
/// on any input, anywhere in the path it returns.
pub proof fn lemma_byname_never_enters_body(t: ExpV)
    ensures
        !has_body_step(byname(t)),
    decreases t,
{
    match t {
        ExpV::Call(a, b) => {
            lemma_byname_never_enters_body(*a);
            lemma_byname_never_enters_body(*b);
        }
        _ => {}
    }
}

/// Call-by-name reports `Irred` exactly on terms with no redex outside
/// abstraction bodies: its normal forms may still hold redexes inside them.
pub proof fn lemma_byname_irreducible(t: ExpV)
    ensures
        (byname(t) == Reduc::Irred) <==> !has_weak_redex(t),
    decreases t,
{
    match t {
        ExpV::Call(a, b) => {
            lemma_byname_irreducible(*a);
            lemma_byname_irreducible(*b);
        }
        _ => {}
    }
}

/// Normal-order completeness: normal-order reports `Irred` exactly on terms
/// with no redex anywhere, abstraction bodies included.
pub proof fn lemma_norm_irreducible(t: ExpV)
    ensures
        (norm(t) == Reduc::Irred) <==> !has_redex(t),
    decreases t,
{
    match t {
        ExpV::Call(a, b) => {
            lemma_norm_irreducible(*a);
            lemma_norm_irreducible(*b);
        }
        ExpV::Lamb(_, r) => {
            lemma_norm_irreducible(*r);
        }
        _ => {}
    }
}

/// Searches `ex` for the leftmost-outermost redex without entering any
/// abstraction body. The returned path never holds a descend-into-body step.
pub fn strat_byname(ex: &Exp) -> (red: Reduc)
    ensures
        red == byname(ex@),
        !has_body_step(red),
    decreases ex,
{
    proof {
        lemma_byname_never_enters_body(ex@);
    }
    match ex {
        Exp::Call(a, b) => if a.is_lamb() {
            Reduc::Beta
        } else {
            let ra = strat_byname(a);
            if matches!(ra, Reduc::Irred) {
                let rb = strat_byname(b);
                if matches!(rb, Reduc::Irred) {
                    Reduc::Irred
                } else {
                    Reduc::Right(Box::new(rb))
                }
            } else {
                Reduc::Left(Box::new(ra))
            }
        },
        _ => Reduc::Irred,
    }
}

/// Searches `ex` for the leftmost-outermost redex, abstraction bodies
/// included.
pub fn strat_norm(ex: &Exp) -> (red: Reduc)
    ensures
        red == norm(ex@),
    decreases ex,
{
    match ex {
        Exp::Call(a, b) => if a.is_lamb() {
            Reduc::Beta
        } else {
            let ra = strat_norm(a);
            if matches!(ra, Reduc::Irred) {
                let rb = strat_norm(b);
                if matches!(rb, Reduc::Irred) {
                    Reduc::Irred
                } else {
                    Reduc::Right(Box::new(rb))
                }
            } else {
                Reduc::Left(Box::new(ra))
            }
        },
        Exp::Lamb(_, r) => {
            let rr = strat_norm(r);
            if matches!(rr, Reduc::Irred) {
                Reduc::Irred
            } else {
                Reduc::Body(Box::new(rr))
            }
        },
        _ => Reduc::Irred,
    }
}

} // verus!
