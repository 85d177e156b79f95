//! Capture-avoiding substitution and alpha-renaming: the machinery behind
//! the beta rule.
//!
//! The mathematical substitution `subst` is defined through a fuel-bounded
//! recursion `subst_fuel`, because the renaming step re-runs substitution on
//! a term of the same size with a longer parameter name, which no structural
//! measure covers directly. Totality (`lemma_subst_total`) shows that some
//! fuel always suffices, monotonicity (`lemma_subst_fuel_mono`) that the
//! result does not depend on which sufficient fuel is used, and the
//! `lemma_subst_var`/`lemma_subst_call`/`lemma_subst_lamb` lemmas recover the
//! usual defining equations.

use vstd::prelude::*;
use vstd::string::StringExecFns;
use vstd::pervasive::unreached;
use crate::exp::{
    free_in, is_free, lemma_free_name_len, name_len_bound, size, str_eq, view_of, Exp, ExpV,
};

verus! {

/// The fresh name derived from `x`: `x` with one marker character appended.
pub open spec fn prime(x: Seq<char>) -> Seq<char> {
    x.push('\'')
}

/// `x` with `k` marker characters appended.
pub open spec fn primes(x: Seq<char>, k: nat) -> Seq<char>
    decreases k,
{
    if k == 0 {
        x
    } else {
        prime(primes(x, (k - 1) as nat))
    }
}

/// Fuel-bounded substitution `t[name := new]`. Returns `None` when the fuel
/// runs out before the recursion bottoms out.
///
/// The abstraction case follows the engine's rules exactly: a binder equal to
/// `name` shadows the substitution; a binder free in `new` is renamed to its
/// primed form (rewriting its bound occurrences in the body) and the
/// substitution is retried on the renamed abstraction; otherwise the
/// substitution descends into the body.
pub open spec fn subst_fuel(t: ExpV, name: Seq<char>, new: ExpV, fuel: nat) -> Option<ExpV>
    decreases fuel,
{
    if fuel == 0 {
        None
    } else {
        let f = (fuel - 1) as nat;
        match t {
            ExpV::Var(n) => Some(if n == name {
                new
            } else {
                ExpV::Var(n)
            }),
            ExpV::Call(a, b) => match (subst_fuel(*a, name, new, f), subst_fuel(*b, name, new, f)) {
                (Some(ra), Some(rb)) => Some(ExpV::Call(Box::new(ra), Box::new(rb))),
                _ => None,
            },
            ExpV::Lamb(x, r) => if x == name {
                Some(ExpV::Lamb(x, r))
            } else if is_free(x, new) {
                match subst_fuel(*r, x, ExpV::Var(prime(x)), f) {
                    Some(r2) => subst_fuel(ExpV::Lamb(prime(x), Box::new(r2)), name, new, f),
                    None => None,
                }
            } else {
                match subst_fuel(*r, name, new, f) {
                    Some(r2) => Some(ExpV::Lamb(x, Box::new(r2))),
                    None => None,
                }
            },
        }
    }
}

/// How many more renaming retries an abstraction can need before its
/// parameter outgrows every free name of `new`.
pub open spec fn rename_budget(t: ExpV, new: ExpV) -> nat {
    match t {
        ExpV::Lamb(x, _) => if x.len() <= name_len_bound(new) {
            (name_len_bound(new) + 1 - x.len()) as nat
        } else {
            0
        },
        _ => 0,
    }
}

/// Any fuel at least as large as a sufficient one yields the same result.
proof fn lemma_subst_fuel_mono(t: ExpV, name: Seq<char>, new: ExpV, f1: nat, f2: nat)
    requires
        subst_fuel(t, name, new, f1) is Some,
        f1 <= f2,
    ensures
        subst_fuel(t, name, new, f2) == subst_fuel(t, name, new, f1),
    decreases f1,
{
    let fa = (f1 - 1) as nat;
    let fb = (f2 - 1) as nat;
    match t {
        ExpV::Var(_) => {}
        ExpV::Call(a, b) => {
            lemma_subst_fuel_mono(*a, name, new, fa, fb);
            lemma_subst_fuel_mono(*b, name, new, fa, fb);
        }
        ExpV::Lamb(x, r) => {
            if x == name {
            } else if is_free(x, new) {
                lemma_subst_fuel_mono(*r, x, ExpV::Var(prime(x)), fa, fb);
                let r2 = subst_fuel(*r, x, ExpV::Var(prime(x)), fa).unwrap();
                lemma_subst_fuel_mono(ExpV::Lamb(prime(x), Box::new(r2)), name, new, fa, fb);
            } else {
                lemma_subst_fuel_mono(*r, name, new, fa, fb);
            }
        }
    }
}

/// Substituting a bare variable never changes a term's size.
proof fn lemma_subst_fuel_var_size(t: ExpV, name: Seq<char>, v: Seq<char>, fuel: nat)
    requires
        subst_fuel(t, name, ExpV::Var(v), fuel) is Some,
    ensures
        size(subst_fuel(t, name, ExpV::Var(v), fuel).unwrap()) == size(t),
    decreases fuel,
{
    let f = (fuel - 1) as nat;
    match t {
        ExpV::Var(_) => {}
        ExpV::Call(a, b) => {
            lemma_subst_fuel_var_size(*a, name, v, f);
            lemma_subst_fuel_var_size(*b, name, v, f);
        }
        ExpV::Lamb(x, r) => {
            if x == name {
            } else if is_free(x, ExpV::Var(v)) {
                lemma_subst_fuel_var_size(*r, x, prime(x), f);
                let r2 = subst_fuel(*r, x, ExpV::Var(prime(x)), f).unwrap();
                lemma_subst_fuel_var_size(ExpV::Lamb(prime(x), Box::new(r2)), name, v, f);
            } else {
                lemma_subst_fuel_var_size(*r, name, v, f);
            }
        }
    }
}

/// Some fuel always suffices: the renaming retries terminate because each
/// one lengthens the parameter, and a parameter longer than every name of
/// `new` can no longer be free in it.
proof fn lemma_subst_total(t: ExpV, name: Seq<char>, new: ExpV)
    ensures
        exists|f: nat| subst_fuel(t, name, new, f) is Some,
    decreases size(t), rename_budget(t, new),
{
    match t {
        ExpV::Var(_) => {
            assert(subst_fuel(t, name, new, 1) is Some);
        }
        ExpV::Call(a, b) => {
            lemma_subst_total(*a, name, new);
            lemma_subst_total(*b, name, new);
            let fa = choose|f: nat| subst_fuel(*a, name, new, f) is Some;
            let fb = choose|f: nat| subst_fuel(*b, name, new, f) is Some;
            let fm = if fa >= fb {
                fa
            } else {
                fb
            };
            lemma_subst_fuel_mono(*a, name, new, fa, fm);
            lemma_subst_fuel_mono(*b, name, new, fb, fm);
            assert(subst_fuel(t, name, new, fm + 1) is Some);
        }
        ExpV::Lamb(x, r) => {
            if x == name {
                assert(subst_fuel(t, name, new, 1) is Some);
            } else if is_free(x, new) {
                lemma_subst_total(*r, x, ExpV::Var(prime(x)));
                let f1 = choose|f: nat| subst_fuel(*r, x, ExpV::Var(prime(x)), f) is Some;
                let r2 = subst_fuel(*r, x, ExpV::Var(prime(x)), f1).unwrap();
                lemma_subst_fuel_var_size(*r, x, prime(x), f1);
                lemma_free_name_len(x, new);
                let t2 = ExpV::Lamb(prime(x), Box::new(r2));
                assert(size(t2) == size(t));
                assert(rename_budget(t2, new) < rename_budget(t, new));
                lemma_subst_total(t2, name, new);
                let f2 = choose|f: nat| subst_fuel(t2, name, new, f) is Some;
                let fm = if f1 >= f2 {
                    f1
                } else {
                    f2
                };
                lemma_subst_fuel_mono(*r, x, ExpV::Var(prime(x)), f1, fm);
                lemma_subst_fuel_mono(t2, name, new, f2, fm);
                assert(subst_fuel(t, name, new, fm + 1) is Some);
            } else {
                lemma_subst_total(*r, name, new);
                let f1 = choose|f: nat| subst_fuel(*r, name, new, f) is Some;
                assert(subst_fuel(t, name, new, f1 + 1) is Some);
            }
        }
    }
}

/// Capture-avoiding substitution `t[name := new]`: replaces the free
/// occurrences of `name` in `t` by `new`, renaming any binder of `t` that
/// would capture a free variable of `new`.
pub open spec fn subst(t: ExpV, name: Seq<char>, new: ExpV) -> ExpV {
    subst_fuel(t, name, new, choose|f: nat| subst_fuel(t, name, new, f) is Some).unwrap()
}

/// `subst` agrees with `subst_fuel` at every sufficient fuel.
proof fn lemma_subst_is(t: ExpV, name: Seq<char>, new: ExpV, fuel: nat)
    requires
        subst_fuel(t, name, new, fuel) is Some,
    ensures
        Some(subst(t, name, new)) == subst_fuel(t, name, new, fuel),
{
    let fc = choose|f: nat| subst_fuel(t, name, new, f) is Some;
    assert(subst_fuel(t, name, new, fc) is Some);
    if fc <= fuel {
        lemma_subst_fuel_mono(t, name, new, fc, fuel);
    } else {
        lemma_subst_fuel_mono(t, name, new, fuel, fc);
    }
}

/// Defining equation: substitution into a variable.
pub proof fn lemma_subst_var(n: Seq<char>, name: Seq<char>, new: ExpV)
    ensures
        subst(ExpV::Var(n), name, new) == (if n == name {
            new
        } else {
            ExpV::Var(n)
        }),
{
    assert(subst_fuel(ExpV::Var(n), name, new, 1) is Some);
    lemma_subst_is(ExpV::Var(n), name, new, 1);
}

/// Defining equation: substitution distributes over application.
pub proof fn lemma_subst_call(a: ExpV, b: ExpV, name: Seq<char>, new: ExpV)
    ensures
        subst(ExpV::Call(Box::new(a), Box::new(b)), name, new) == ExpV::Call(
            Box::new(subst(a, name, new)),
            Box::new(subst(b, name, new)),
        ),
{
    lemma_subst_total(a, name, new);
    lemma_subst_total(b, name, new);
    let fa = choose|f: nat| subst_fuel(a, name, new, f) is Some;
    let fb = choose|f: nat| subst_fuel(b, name, new, f) is Some;
    let fm = if fa >= fb {
        fa
    } else {
        fb
    };
    lemma_subst_fuel_mono(a, name, new, fa, fm);
    lemma_subst_fuel_mono(b, name, new, fb, fm);
    lemma_subst_is(a, name, new, fm);
    lemma_subst_is(b, name, new, fm);
    let t = ExpV::Call(Box::new(a), Box::new(b));
    assert(subst_fuel(t, name, new, fm + 1) is Some);
    lemma_subst_is(t, name, new, fm + 1);
}

/// Defining equation: substitution under a binder, with shadowing and with
/// the renaming retry on capture.
pub proof fn lemma_subst_lamb(x: Seq<char>, r: ExpV, name: Seq<char>, new: ExpV)
    ensures
        subst(ExpV::Lamb(x, Box::new(r)), name, new) == (if x == name {
            ExpV::Lamb(x, Box::new(r))
        } else if is_free(x, new) {
            subst(
                ExpV::Lamb(prime(x), Box::new(subst(r, x, ExpV::Var(prime(x))))),
                name,
                new,
            )
        } else {
            ExpV::Lamb(x, Box::new(subst(r, name, new)))
        }),
{
    let t = ExpV::Lamb(x, Box::new(r));
    if x == name {
        assert(subst_fuel(t, name, new, 1) is Some);
        lemma_subst_is(t, name, new, 1);
    } else if is_free(x, new) {
        lemma_subst_total(r, x, ExpV::Var(prime(x)));
        let f1 = choose|f: nat| subst_fuel(r, x, ExpV::Var(prime(x)), f) is Some;
        lemma_subst_is(r, x, ExpV::Var(prime(x)), f1);
        let r2 = subst(r, x, ExpV::Var(prime(x)));
        let t2 = ExpV::Lamb(prime(x), Box::new(r2));
        lemma_subst_total(t2, name, new);
        let f2 = choose|f: nat| subst_fuel(t2, name, new, f) is Some;
        lemma_subst_is(t2, name, new, f2);
        let fm = if f1 >= f2 {
            f1
        } else {
            f2
        };
        lemma_subst_fuel_mono(r, x, ExpV::Var(prime(x)), f1, fm);
        lemma_subst_fuel_mono(t2, name, new, f2, fm);
        assert(subst_fuel(t, name, new, fm + 1) == subst_fuel(t2, name, new, fm));
        lemma_subst_is(t, name, new, fm + 1);
    } else {
        lemma_subst_total(r, name, new);
        let f1 = choose|f: nat| subst_fuel(r, name, new, f) is Some;
        lemma_subst_is(r, name, new, f1);
        assert(subst_fuel(t, name, new, f1 + 1) is Some);
        lemma_subst_is(t, name, new, f1 + 1);
    }
}

/// Substituting a bare variable never changes a term's size.
pub proof fn lemma_subst_var_size(t: ExpV, name: Seq<char>, v: Seq<char>)
    ensures
        size(subst(t, name, ExpV::Var(v))) == size(t),
{
    lemma_subst_total(t, name, ExpV::Var(v));
    let f = choose|fl: nat| subst_fuel(t, name, ExpV::Var(v), fl) is Some;
    lemma_subst_fuel_var_size(t, name, v, f);
    lemma_subst_is(t, name, ExpV::Var(v), f);
}

/// The parameter of an abstraction, and the empty name on the other shapes.
pub open spec fn lamb_param(t: ExpV) -> Seq<char> {
    match t {
        ExpV::Lamb(x, _) => x,
        _ => Seq::empty(),
    }
}

/// Appending one marker and then `k` more is appending `k + 1` markers.
proof fn lemma_primes_shift(x: Seq<char>, k: nat)
    ensures
        primes(prime(x), k) == primes(x, k + 1),
    decreases k,
{
    if k == 0 {
        assert(primes(x, 0) == x);
        assert(primes(x, 1) == prime(primes(x, 0)));
    } else {
        lemma_primes_shift(x, (k - 1) as nat);
        assert(primes(prime(x), k) == prime(primes(prime(x), (k - 1) as nat)));
        assert(primes(x, k + 1) == prime(primes(x, k)));
    }
}

/// Capture avoidance: substituting under a binder whose parameter occurs
/// free in the replacement always renames that parameter. The result is an
/// abstraction whose parameter is the old one with at least one marker
/// appended, and the renaming only stops at a name that either shadows the
/// substitution or is no longer free in the replacement.
pub proof fn lemma_capture_forces_rename(x: Seq<char>, r: ExpV, name: Seq<char>, new: ExpV)
    requires
        x != name,
        is_free(x, new),
    ensures
        subst(ExpV::Lamb(x, Box::new(r)), name, new) is Lamb,
        exists|k: nat|
            1 <= k && lamb_param(subst(ExpV::Lamb(x, Box::new(r)), name, new)) == #[trigger] primes(
                x,
                k,
            ) && (primes(x, k) == name || !is_free(primes(x, k), new)),
    decreases rename_budget(ExpV::Lamb(x, Box::new(r)), new),
{
    lemma_subst_lamb(x, r, name, new);
    lemma_free_name_len(x, new);
    let x1 = prime(x);
    let r1 = subst(r, x, ExpV::Var(x1));
    let res = subst(ExpV::Lamb(x, Box::new(r)), name, new);
    assert(primes(x, 0) == x);
    assert(primes(x, 1) == x1);
    if x1 == name {
        lemma_subst_lamb(x1, r1, name, new);
        assert(lamb_param(res) == primes(x, 1) && (primes(x, 1) == name || !is_free(
            primes(x, 1),
            new,
        )));
    } else if is_free(x1, new) {
        lemma_free_name_len(x1, new);
        lemma_capture_forces_rename(x1, r1, name, new);
        let k1 = choose|k: nat|
            1 <= k && lamb_param(subst(ExpV::Lamb(x1, Box::new(r1)), name, new)) == #[trigger] primes(
                x1,
                k,
            ) && (primes(x1, k) == name || !is_free(primes(x1, k), new));
        lemma_primes_shift(x, k1);
        assert(lamb_param(res) == primes(x, k1 + 1) && (primes(x, k1 + 1) == name || !is_free(
            primes(x, k1 + 1),
            new,
        )));
    } else {
        lemma_subst_lamb(x1, r1, name, new);
        assert(lamb_param(res) == primes(x, 1) && (primes(x, 1) == name || !is_free(
            primes(x, 1),
            new,
        )));
    }
}

/// Substitutes `new` for the free occurrences of `name` in `ex`, renaming
/// bound parameters as needed so that no free variable of `new` is captured.
/// The input tree is consumed; the result is a brand-new tree.
pub fn sub(ex: Exp, name: &str, new: &Exp) -> (res: Exp)
    ensures
        res@ == subst(ex@, name@, new@),
    decreases size(ex@), rename_budget(ex@, view_of(*new)), 2nat,
{
    match ex {
        Exp::Var(n) => {
            proof {
                lemma_subst_var(n@, name@, view_of(*new));
            }
            let eq = str_eq(name, n.as_str());
            if eq {
                new.duplicate()
            } else {
                Exp::Var(n)
            }
        }
        Exp::Call(a, b) => {
            proof {
                lemma_subst_call(view_of(*a), view_of(*b), name@, view_of(*new));
            }
            Exp::Call(
                Box::new(crate::subst::sub(*a, name, new)),
                Box::new(crate::subst::sub(*b, name, new)),
            )
        }
        Exp::Lamb(x, r) => {
            let ghost xv = x@;
            let ghost rv = view_of(*r);
            let ghost nv = view_of(*new);
            proof {
                lemma_subst_lamb(xv, rv, name@, nv);
            }
            if str_eq(name, x.as_str()) {
                Exp::Lamb(x, r)
            } else if free_in(x.as_str(), new) {
                let mut x_new = x.clone();
                x_new.append("'");
                proof {
                    reveal_strlit("'");
                    assert(x_new@ =~= prime(xv));
                    lemma_free_name_len(xv, nv);
                    lemma_subst_var_size(rv, xv, prime(xv));
                }
                let renamed = alpha(Exp::Lamb(x, r), x_new);
                crate::subst::sub(renamed, name, new)
            } else {
                Exp::Lamb(x, Box::new(crate::subst::sub(*r, name, new)))
            }
        }
    }
}

/// Renames the bound parameter of the abstraction `ex` to `new_name`,
/// rewriting the bound occurrences in the body accordingly. Must only be
/// called on an abstraction.
fn alpha(ex: Exp, new_name: String) -> (res: Exp)
    requires
        ex@ is Lamb,
    ensures
        (match ex@ {
            ExpV::Lamb(x, r) => res@ == ExpV::Lamb(
                new_name@,
                Box::new(subst(*r, x, ExpV::Var(new_name@))),
            ),
            _ => false,
        }),
    decreases size(ex@), 0nat, 1nat,
{
    match ex {
        Exp::Lamb(x, r) => {
            let replacement = Exp::Var(new_name.clone());
            let body = crate::subst::sub(*r, x.as_str(), &replacement);
            Exp::Lamb(new_name, Box::new(body))
        }
        _ => unreached(),
    }
}

} // verus!
