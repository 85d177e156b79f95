//! The drivers: one reduction step, full reduction to normal form, and a
//! lazy step sequence.

use vstd::prelude::*;
use crate::exp::{Exp, ExpV};
use crate::path::{apply, reduce_with, Reduc};
use crate::strategy::{
    chosen, has_redex, has_weak_redex, lemma_byname_irreducible, lemma_chosen_fits,
    lemma_norm_irreducible, strat_byname, strat_norm, Strategy,
};

verus! {

/// The term after one step: the chosen path applied to the term. When the
/// strategy reports `Irred` the step is the identity.
pub open spec fn step_term(strat: Strategy, t: ExpV) -> ExpV {
    apply(t, chosen(strat, t))
}

/// The term after `n` steps under the given strategy.
pub open spec fn run(strat: Strategy, t: ExpV, n: nat) -> ExpV
    decreases n,
{
    if n == 0 {
        t
    } else {
        run(strat, step_term(strat, t), (n - 1) as nat)
    }
}

/// A term is in the strategy's normal form when the strategy finds no redex
/// in it.
pub open spec fn in_normal_form(strat: Strategy, t: ExpV) -> bool {
    chosen(strat, t) == Reduc::Irred
}

/// The strategy reaches a normal form from `t` in finitely many steps. A
/// divergent term never does; full reduction is owed only where this holds.
pub open spec fn normalizes(strat: Strategy, t: ExpV) -> bool {
    exists|n: nat| in_normal_form(strat, run(strat, t, n))
}

/// The number of steps to the first normal form reached from `t`.
pub open spec fn steps_to_normal(strat: Strategy, t: ExpV) -> nat {
    choose|n: nat|
        in_normal_form(strat, run(strat, t, n)) && (forall|m: nat|
            m < n ==> !in_normal_form(strat, #[trigger] run(strat, t, m)))
}

/// Running one more step is one step on the result of the run so far.
proof fn lemma_run_unfold_back(strat: Strategy, t: ExpV, n: nat)
    ensures
        run(strat, t, n + 1) == step_term(strat, run(strat, t, n)),
    decreases n,
{
    if n == 0 {
        assert(run(strat, t, 1) == run(strat, step_term(strat, t), 0));
        assert(run(strat, step_term(strat, t), 0) == step_term(strat, t));
        assert(run(strat, t, 0) == t);
    } else {
        lemma_run_unfold_back(strat, step_term(strat, t), (n - 1) as nat);
        assert(run(strat, t, n + 1) == run(strat, step_term(strat, t), n));
        assert(run(strat, t, n) == run(strat, step_term(strat, t), (n - 1) as nat));
    }
}

/// Whenever some number of steps reaches a normal form, `steps_to_normal`
/// is the least such number.
proof fn lemma_steps_to_normal(strat: Strategy, t: ExpV, n: nat)
    requires
        in_normal_form(strat, run(strat, t, n)),
    ensures
        in_normal_form(strat, run(strat, t, steps_to_normal(strat, t))),
        forall|m: nat|
            m < steps_to_normal(strat, t) ==> !in_normal_form(strat, #[trigger] run(strat, t, m)),
    decreases n,
{
    if exists|m: nat| m < n && in_normal_form(strat, #[trigger] run(strat, t, m)) {
        let m = choose|m: nat| m < n && in_normal_form(strat, #[trigger] run(strat, t, m));
        lemma_steps_to_normal(strat, t, m);
    } else {
        assert(in_normal_form(strat, run(strat, t, n)) && (forall|m: nat|
            m < n ==> !in_normal_form(strat, #[trigger] run(strat, t, m))));
    }
}

/// A step taken on a normalizing term that is not yet normal brings the
/// first normal form one step closer.
proof fn lemma_steps_decrease(strat: Strategy, t: ExpV)
    requires
        normalizes(strat, t),
        !in_normal_form(strat, t),
    ensures
        normalizes(strat, step_term(strat, t)),
        steps_to_normal(strat, step_term(strat, t)) < steps_to_normal(strat, t),
{
    let n = choose|n: nat| in_normal_form(strat, run(strat, t, n));
    lemma_steps_to_normal(strat, t, n);
    let s = steps_to_normal(strat, t);
    assert(run(strat, t, 0) == t);
    assert(s >= 1);
    assert(run(strat, t, s) == run(strat, step_term(strat, t), (s - 1) as nat));
    lemma_steps_to_normal(strat, step_term(strat, t), (s - 1) as nat);
}

/// Computes the strategy's path for `ex` and applies it: one reduction
/// step. A returned `Irred` path signals that `ex` already was in the
/// strategy's normal form, and the term comes back unchanged.
pub fn reduce_step(strat: Strategy, ex: Exp) -> (res: (Reduc, Exp))
    ensures
        res.0 == chosen(strat, ex@),
        res.1@ == step_term(strat, ex@),
{
    let red = match strat {
        Strategy::ByName => strat_byname(&ex),
        Strategy::NormalOrder => strat_norm(&ex),
    };
    proof {
        lemma_chosen_fits(strat, ex@);
    }
    let ex2 = reduce_with(ex, &red);
    (red, ex2)
}

/// Repeats single steps until the strategy reports `Irred`, and returns the
/// final term: the first normal form on the strategy's reduction sequence.
/// A term that never reaches one would loop forever, so full reduction is
/// only owed on normalizing terms.
///
/// Under normal order the result holds no redex anywhere, abstraction
/// bodies included; under call-by-name it holds none outside abstraction
/// bodies, though redexes strictly inside them may remain.
pub fn reduce_full(strat: Strategy, ex: Exp) -> (res: Exp)
    requires
        normalizes(strat, ex@),
    ensures
        in_normal_form(strat, res@),
        res@ == run(strat, ex@, steps_to_normal(strat, ex@)),
        strat == Strategy::NormalOrder ==> !has_redex(res@),
        strat == Strategy::ByName ==> !has_weak_redex(res@),
{
    let mut cur = ex;
    let ghost mut i: nat = 0;
    proof {
        let n = choose|n: nat| in_normal_form(strat, run(strat, ex@, n));
        lemma_steps_to_normal(strat, ex@, n);
    }
    loop
        invariant
            normalizes(strat, cur@),
            cur@ == run(strat, ex@, i),
            i <= steps_to_normal(strat, ex@),
            forall|m: nat| m < i ==> !in_normal_form(strat, #[trigger] run(strat, ex@, m)),
            in_normal_form(strat, run(strat, ex@, steps_to_normal(strat, ex@))),
            forall|m: nat|
                m < steps_to_normal(strat, ex@) ==> !in_normal_form(
                    strat,
                    #[trigger] run(strat, ex@, m),
                ),
        decreases steps_to_normal(strat, ex@) - i,
    {
        let ghost prev = cur@;
        let t = reduce_step(strat, cur);
        if matches!(t.0, Reduc::Irred) {
            proof {
                assert(in_normal_form(strat, prev));
                assert(t.1@ == prev);
                match strat {
                    Strategy::NormalOrder => lemma_norm_irreducible(prev),
                    Strategy::ByName => lemma_byname_irreducible(prev),
                }
                assert(i == steps_to_normal(strat, ex@)) by {
                    if i < steps_to_normal(strat, ex@) {
                        assert(!in_normal_form(strat, run(strat, ex@, i)));
                    }
                }
            }
            return t.1;
        }
        cur = t.1;
        proof {
            lemma_run_unfold_back(strat, ex@, i);
            lemma_steps_decrease(strat, prev);
            i = i + 1;
            assert(i <= steps_to_normal(strat, ex@)) by {
                if i > steps_to_normal(strat, ex@) {
                    assert(in_normal_form(strat, run(strat, ex@, steps_to_normal(strat, ex@))));
                }
            }
        }
    }
}

/// A lazy sequence of reduction steps: a single-pass cursor that hands out
/// one `(path, term)` pair per applied step and stops at the strategy's
/// normal form. Re-running from the original term requires a fresh cursor.
pub struct ReducIter {
    strat: Strategy,
    ex: Exp,
}

impl ReducIter {
    /// The strategy this cursor steps with.
    pub closed spec fn strategy_of(self) -> Strategy {
        self.strat
    }

    /// The term the cursor currently holds.
    pub closed spec fn term_of(self) -> ExpV {
        self.ex@
    }

    /// Takes one step. Returns the applied path and the new term, or `None`
    /// once the held term is in the strategy's normal form.
    pub fn next(&mut self) -> (r: Option<(Reduc, Exp)>)
        ensures
            final(self).strategy_of() == old(self).strategy_of(),
            final(self).term_of() == step_term(old(self).strategy_of(), old(self).term_of()),
            (if in_normal_form(old(self).strategy_of(), old(self).term_of()) {
                r is None
            } else {
                r matches Some(p) && p.0 == chosen(old(self).strategy_of(), old(self).term_of())
                    && p.1@ == final(self).term_of()
            }),
    {
        let red = match self.strat {
            Strategy::ByName => strat_byname(&self.ex),
            Strategy::NormalOrder => strat_norm(&self.ex),
        };
        proof {
            lemma_chosen_fits(self.strat, self.ex@);
        }
        let dup = self.ex.duplicate();
        self.ex = reduce_with(dup, &red);
        match red {
            Reduc::Irred => None,
            red => Some((red, self.ex.duplicate())),
        }
    }
}

/// Builds the lazy step sequence for `ex` under the given strategy.
pub fn reduce_iter(strat: Strategy, ex: Exp) -> (it: ReducIter)
    ensures
        it.strategy_of() == strat,
        it.term_of() == ex@,
{
    ReducIter { strat, ex }
}

} // verus!
