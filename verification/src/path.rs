//! Reduction paths: where in a term the chosen redex sits, and how to
//! rewrite the term there.

use vstd::prelude::*;
use vstd::pervasive::unreached;
use vstd::string::StringExecFns;
use crate::exp::{view_of, Exp, ExpV};
use crate::subst::subst;

verus! {

/// A path from the root of a term down to one chosen redex, ending in the
/// redex's action. A path is meaningful only against the term it was
/// computed from; `Irred` alone fits every term and leaves it unchanged.
#[derive(Debug, PartialEq, Eq)]
pub enum Reduc {
    /// Continue in the function position of an application.
    Left(Box<Reduc>),
    /// Continue in the argument position of an application.
    Right(Box<Reduc>),
    /// Continue in the body of an abstraction.
    Body(Box<Reduc>),
    /// The current node is the redex: an application whose function position
    /// is an abstraction.
    Beta,
    /// No redex was found at or beneath the current node.
    Irred,
}

/// Whether a path is structurally compatible with a term: every descend
/// step meets the node shape it expects, and `Beta` lands on an application
/// whose function position is an abstraction.
pub open spec fn fits(red: Reduc, t: ExpV) -> bool
    decreases red,
{
    match red {
        Reduc::Irred => true,
        Reduc::Beta => match t {
            ExpV::Call(a, _) => *a is Lamb,
            _ => false,
        },
        Reduc::Left(p) => match t {
            ExpV::Call(a, _) => fits(*p, *a),
            _ => false,
        },
        Reduc::Right(p) => match t {
            ExpV::Call(_, b) => fits(*p, *b),
            _ => false,
        },
        Reduc::Body(p) => match t {
            ExpV::Lamb(_, r) => fits(*p, *r),
            _ => false,
        },
    }
}

/// The term obtained by rewriting `t` at the redex that `red` points to.
/// On a path that does not fit the term the rewrite is the identity; the
/// executable applier refuses such a pair outright.
pub open spec fn apply(t: ExpV, red: Reduc) -> ExpV
    decreases red,
{
    match red {
        Reduc::Irred => t,
        Reduc::Beta => match t {
            ExpV::Call(a, b) => match *a {
                ExpV::Lamb(x, r) => subst(*r, x, *b),
                _ => t,
            },
            _ => t,
        },
        Reduc::Left(p) => match t {
            ExpV::Call(a, b) => ExpV::Call(Box::new(apply(*a, *p)), b),
            _ => t,
        },
        Reduc::Right(p) => match t {
            ExpV::Call(a, b) => ExpV::Call(a, Box::new(apply(*b, *p))),
            _ => t,
        },
        Reduc::Body(p) => match t {
            ExpV::Lamb(x, r) => ExpV::Lamb(x, Box::new(apply(*r, *p))),
            _ => t,
        },
    }
}

/// Identity law: applying `Irred` changes no term.
pub proof fn lemma_apply_irreducible(t: ExpV)
    ensures
        apply(t, Reduc::Irred) == t,
{
}

/// Beta law: applying `Beta` to an application of an abstraction is exactly
/// capture-avoiding substitution of the argument for the parameter in the
/// body.
pub proof fn lemma_apply_beta(x: Seq<char>, r: ExpV, a: ExpV)
    ensures
        apply(
            ExpV::Call(Box::new(ExpV::Lamb(x, Box::new(r))), Box::new(a)),
            Reduc::Beta,
        ) == subst(r, x, a),
{
}

/// Rewrites `ex` at the redex that `red` points to, producing a brand-new
/// tree. The path must have been computed from this very term: a path that
/// does not fit the term's shape is a caller error, not a runtime case.
pub fn reduce_with(ex: Exp, red: &Reduc) -> (res: Exp)
    requires
        fits(*red, ex@),
    ensures
        res@ == apply(ex@, *red),
    decreases red,
{
    match red {
        Reduc::Irred => ex,
        Reduc::Beta => match ex {
            Exp::Call(a, b) => match *a {
                Exp::Lamb(x, r) => crate::subst::sub(*r, x.as_str(), &*b),
                other => {
                    proof {
                        assert(!(view_of(other) is Lamb));
                    }
                    unreached()
                }
            },
            _ => unreached(),
        },
        Reduc::Left(p) => match ex {
            Exp::Call(a, b) => Exp::Call(Box::new(reduce_with(*a, p)), b),
            _ => unreached(),
        },
        Reduc::Right(p) => match ex {
            Exp::Call(a, b) => Exp::Call(a, Box::new(reduce_with(*b, p))),
            _ => unreached(),
        },
        Reduc::Body(p) => match ex {
            Exp::Lamb(x, r) => Exp::Lamb(x, Box::new(reduce_with(*r, p))),
            _ => unreached(),
        },
    }
}

/// The textual rendering of a path: descend steps show as `(P _)`, `(_ P)`
/// and `(\. P)`, the beta action as the beta letter, and `Irred` as a dash.
pub open spec fn render(red: Reduc) -> Seq<char>
    decreases red,
{
    match red {
        Reduc::Left(p) => "("@ + render(*p) + " _)"@,
        Reduc::Right(p) => "(_ "@ + render(*p) + ")"@,
        Reduc::Body(p) => "(\\. "@ + render(*p) + ")"@,
        Reduc::Beta => "\u{03b2}"@,
        Reduc::Irred => "-"@,
    }
}

impl Reduc {
    /// Renders the path as text, for diagnostics and for asserting exact
    /// reduction traces.
    pub fn to_text(&self) -> (res: String)
        ensures
            res@ == render(*self),
        decreases self,
    {
        match self {
            Reduc::Left(p) => {
                let mut s = String::from_str("(");
                let inner = p.to_text();
                s.append(inner.as_str());
                s.append(" _)");
                s
            }
            Reduc::Right(p) => {
                let mut s = String::from_str("(_ ");
                let inner = p.to_text();
                s.append(inner.as_str());
                s.append(")");
                s
            }
            Reduc::Body(p) => {
                let mut s = String::from_str("(\\. ");
                let inner = p.to_text();
                s.append(inner.as_str());
                s.append(")");
                s
            }
            Reduc::Beta => String::from_str("\u{03b2}"),
            Reduc::Irred => String::from_str("-"),
        }
    }
}

} // verus!
