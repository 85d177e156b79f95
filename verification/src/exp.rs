//! The term tree of the untyped lambda calculus, its mathematical model,
//! and the free-variable check.

use vstd::prelude::*;

verus! {

/// Mathematical model of a term: variable names are character sequences.
#[verifier::ext_equal]
pub enum ExpV {
    /// A variable occurrence.
    Var(Seq<char>),
    /// An application of the first term to the second.
    Call(Box<ExpV>, Box<ExpV>),
    /// An abstraction binding a parameter name over a body.
    Lamb(Seq<char>, Box<ExpV>),
}

/// An executable lambda term: a strictly owned tree, never shared and never
/// mutated in place. Equality is structural, down to exact variable names.
#[derive(Debug, PartialEq, Eq)]
pub enum Exp {
    /// A variable occurrence.
    Var(String),
    /// An application of the first term to the second.
    Call(Box<Exp>, Box<Exp>),
    /// An abstraction binding a parameter name over a body.
    Lamb(String, Box<Exp>),
}

/// The model of an executable term.
pub open spec fn view_of(e: Exp) -> ExpV
    decreases e,
{
    match e {
        Exp::Var(n) => ExpV::Var(n@),
        Exp::Call(a, b) => ExpV::Call(Box::new(view_of(*a)), Box::new(view_of(*b))),
        Exp::Lamb(x, r) => ExpV::Lamb(x@, Box::new(view_of(*r))),
    }
}

impl View for Exp {
    type V = ExpV;

    open spec fn view(&self) -> ExpV {
        view_of(*self)
    }
}

impl Exp {
    /// Whether the term is an abstraction.
    pub fn is_lamb(&self) -> (r: bool)
        ensures
            r == (self@ is Lamb),
    {
        match self {
            Exp::Lamb(_, _) => true,
            Exp::Var(_) => false,
            Exp::Call(_, _) => false,
        }
    }

    /// Rebuilds an identical, independently owned copy of the term.
    pub fn duplicate(&self) -> (r: Exp)
        ensures
            r@ == self@,
        decreases self,
    {
        match self {
            Exp::Var(n) => Exp::Var(n.clone()),
            Exp::Call(a, b) => Exp::Call(Box::new(a.duplicate()), Box::new(b.duplicate())),
            Exp::Lamb(x, r) => Exp::Lamb(x.clone(), Box::new(r.duplicate())),
        }
    }
}

/// The number of nodes in a term.
pub open spec fn size(t: ExpV) -> nat
    decreases t,
{
    match t {
        ExpV::Var(_) => 1,
        ExpV::Call(a, b) => 1 + size(*a) + size(*b),
        ExpV::Lamb(_, r) => 1 + size(*r),
    }
}

/// A name occurs free in a term when some occurrence of it is not bound by
/// an enclosing abstraction over the same name.
pub open spec fn is_free(name: Seq<char>, t: ExpV) -> bool
    decreases t,
{
    match t {
        ExpV::Var(n) => n == name,
        ExpV::Call(a, b) => is_free(name, *a) || is_free(name, *b),
        ExpV::Lamb(x, r) => x != name && is_free(name, *r),
    }
}

/// An upper bound on the length of every name occurring in a term, bound or free.
pub open spec fn name_len_bound(t: ExpV) -> nat
    decreases t,
{
    match t {
        ExpV::Var(n) => n.len(),
        ExpV::Call(a, b) => if name_len_bound(*a) >= name_len_bound(*b) {
            name_len_bound(*a)
        } else {
            name_len_bound(*b)
        },
        ExpV::Lamb(x, r) => if x.len() >= name_len_bound(*r) {
            x.len()
        } else {
            name_len_bound(*r)
        },
    }
}

/// A free name of a term is no longer than the term's longest name.
pub proof fn lemma_free_name_len(name: Seq<char>, t: ExpV)
    requires
        is_free(name, t),
    ensures
        name.len() <= name_len_bound(t),
    decreases t,
{
    match t {
        ExpV::Var(_) => {}
        ExpV::Call(a, b) => {
            if is_free(name, *a) {
                lemma_free_name_len(name, *a);
            } else {
                lemma_free_name_len(name, *b);
            }
        }
        ExpV::Lamb(_, r) => {
            lemma_free_name_len(name, *r);
        }
    }
}

/// An abstraction's own parameter is never free in it: the binder shadows
/// every occurrence of the same name in the body.
pub proof fn lemma_parameter_shadowed(x: Seq<char>, r: ExpV)
    ensures
        !is_free(x, ExpV::Lamb(x, Box::new(r))),
{
}

/// Relies on str's `PartialEq`: two string slices compare equal exactly when
/// their character sequences are equal.
#[verifier::external_body]
pub(crate) fn str_eq(a: &str, b: &str) -> (r: bool)
    ensures
        r == (a@ == b@),
{
    a == b
}

/// Decides whether `var` occurs free in `ex`.
pub fn free_in(var: &str, ex: &Exp) -> (r: bool)
    ensures
        r == is_free(var@, ex@),
    decreases ex,
{
    match ex {
        Exp::Var(n) => str_eq(var, n.as_str()),
        Exp::Call(a, b) => free_in(var, a) || free_in(var, b),
        Exp::Lamb(x, r) => !str_eq(var, x.as_str()) && free_in(var, r),
    }
}

} // verus!
