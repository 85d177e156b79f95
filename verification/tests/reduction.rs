//! Tests for the beta-reduction engine.
//!
//! The engine itself neither parses nor prints terms; this file carries a
//! small parser for the usual surface syntax (juxtaposition for application,
//! a backslash or a lambda glyph for binders, multi-parameter binders
//! desugaring to nested ones) so the cases can be written as source text.

use lambda_reduce::{
    free_in, reduce_full, reduce_iter, reduce_step, reduce_with, strat_byname, strat_norm, Exp,
    Reduc, Strategy,
};

fn skip_ws(cs: &[char], pos: &mut usize) {
    while *pos < cs.len() && cs[*pos].is_whitespace() {
        *pos += 1;
    }
}

fn is_name_char(c: char) -> bool {
    (c.is_alphanumeric() && c != '\u{03bb}') || c == '\'' || c == '_'
}

fn parse_name(cs: &[char], pos: &mut usize) -> Option<String> {
    skip_ws(cs, pos);
    let mut name = String::new();
    while *pos < cs.len() && is_name_char(cs[*pos]) {
        name.push(cs[*pos]);
        *pos += 1;
    }
    if name.is_empty() {
        None
    } else {
        Some(name)
    }
}

fn parse_term(cs: &[char], pos: &mut usize) -> Option<Exp> {
    skip_ws(cs, pos);
    if *pos >= cs.len() {
        return None;
    }
    let c = cs[*pos];
    if c == ')' {
        return None;
    }
    if c == '(' {
        *pos += 1;
        let e = parse_exp(cs, pos).expect("empty parenthesized term");
        skip_ws(cs, pos);
        assert!(*pos < cs.len() && cs[*pos] == ')', "missing closing parenthesis");
        *pos += 1;
        return Some(e);
    }
    if c == '\\' || c == '\u{03bb}' {
        *pos += 1;
        let mut names: Vec<String> = Vec::new();
        loop {
            skip_ws(cs, pos);
            if *pos < cs.len() && cs[*pos] == '.' {
                *pos += 1;
                break;
            }
            let n = parse_name(cs, pos).expect("binder parameter name");
            names.push(n);
        }
        assert!(!names.is_empty(), "binder without parameters");
        let mut e = parse_exp(cs, pos).expect("binder without body");
        while let Some(n) = names.pop() {
            e = Exp::Lamb(n, Box::new(e));
        }
        return Some(e);
    }
    let n = parse_name(cs, pos)?;
    Some(Exp::Var(n))
}

fn parse_exp(cs: &[char], pos: &mut usize) -> Option<Exp> {
    let mut e = parse_term(cs, pos)?;
    while let Some(t) = parse_term(cs, pos) {
        e = Exp::Call(Box::new(e), Box::new(t));
    }
    Some(e)
}

fn parse(s: &str) -> Exp {
    let cs: Vec<char> = s.chars().collect();
    let mut pos: usize = 0;
    let e = parse_exp(&cs, &mut pos).expect("empty term");
    skip_ws(&cs, &mut pos);
    assert!(pos == cs.len(), "trailing input after term");
    e
}

fn collect_steps(strat: Strategy, ex: Exp) -> Vec<(Reduc, Exp)> {
    let mut it = reduce_iter(strat, ex);
    let mut steps: Vec<(Reduc, Exp)> = Vec::new();
    while let Some(p) = it.next() {
        steps.push(p);
    }
    steps
}

#[test]
fn reductions() {
    assert_eq!(reduce_with(parse("x"), &Reduc::Irred), parse("x"));
    assert_eq!(reduce_with(parse("(\\x. y x) z"), &Reduc::Irred), parse("(\\x. y x) z"));
    assert_eq!(reduce_with(parse("(\\x. y x) z"), &Reduc::Beta), parse("y z"));
    assert_eq!(reduce_with(parse("((\\x z. y x z) z)"), &Reduc::Beta), parse("\\z'. y z z'"));
    assert_eq!(
        reduce_with(parse("(\\a. a) b ((\\x. x) y)"), &Reduc::Left(Box::new(Reduc::Beta))),
        parse("b ((\\x. x) y)")
    );
    assert_eq!(
        reduce_with(parse("(\\a. a) b ((\\x. x) y)"), &Reduc::Right(Box::new(Reduc::Beta))),
        parse("(\\a. a) b y")
    );
}

#[test]
fn step_byname() {
    assert_eq!(reduce_step(Strategy::ByName, parse("x")), (Reduc::Irred, parse("x")));
    assert_eq!(
        reduce_step(Strategy::ByName, parse("(\\a. a) b ((\\x. x) y)")),
        (Reduc::Left(Box::new(Reduc::Beta)), parse("b ((\\x. x) y)"))
    );
}

#[test]
fn skk_step_byname() {
    assert_eq!(
        reduce_step(Strategy::ByName, parse("(\\S K. S K K) (\\x y z. x z (y z)) (\\x y. x)")),
        (Reduc::Left(Box::new(Reduc::Beta)), parse("(\\K. (\\x y z. x z (y z)) K K) (\\x y. x)"))
    );

    assert_eq!(
        reduce_step(Strategy::ByName, parse("(\\K. (\\x y z. x z (y z)) K K) (\\x y. x)")),
        (Reduc::Beta, parse("(\\x y z. x z (y z)) (\\x y. x) (\\x y. x)"))
    );

    assert_eq!(
        reduce_step(Strategy::ByName, parse("(\\x y z. x z (y z)) (\\x y. x) (\\x y. x)")),
        (Reduc::Left(Box::new(Reduc::Beta)), parse("(\\y z. (\\x y. x) z (y z)) (\\x y. x)"))
    );

    assert_eq!(
        reduce_step(Strategy::ByName, parse("(\\y z. (\\x y. x) z (y z)) (\\x y. x)")),
        (Reduc::Beta, parse("\\z. (\\x y. x) z ((\\x y. x) z)"))
    );

    assert_eq!(
        reduce_step(Strategy::ByName, parse("\\z. (\\x y. x) z ((\\x y. x) z)")),
        (Reduc::Irred, parse("\\z. (\\x y. x) z ((\\x y. x) z)"))
    );
}

#[test]
fn skk_iter_byname() {
    let steps = collect_steps(
        Strategy::ByName,
        parse("(\\S K. S K K) (\\x y z. x z (y z)) (\\x y. x)"),
    );
    assert_eq!(
        steps,
        vec![
            (Reduc::Left(Box::new(Reduc::Beta)), parse("(\\K. (\\x y z. x z (y z)) K K) (\\x y. x)")),
            (Reduc::Beta, parse("(\\x y z. x z (y z)) (\\x y. x) (\\x y. x)")),
            (Reduc::Left(Box::new(Reduc::Beta)), parse("(\\y z. (\\x y. x) z (y z)) (\\x y. x)")),
            (Reduc::Beta, parse("\\z. (\\x y. x) z ((\\x y. x) z)"))
        ]
    );
}

#[test]
fn skk_full_byname() {
    assert_eq!(
        reduce_full(Strategy::ByName, parse("(\\S K. S K K) (\\x y z. x z (y z)) (\\x y. x)")),
        parse("\\z. (\\x y. x) z ((\\x y. x) z)")
    );
    assert_eq!(
        reduce_full(Strategy::ByName, parse("(\\S K. S K K) (\\x y z. x z (y z)) (\\x y. x) a")),
        parse("a")
    );
}

#[test]
fn skk_steps_byname() {
    assert_eq!(
        reduce_full(Strategy::ByName, parse("(\\S K. S K K) (\\x y z. x z (y z)) (\\x y. x)")),
        parse("\\z. (\\x y. x) z ((\\x y. x) z)")
    );
    assert_eq!(
        reduce_full(Strategy::ByName, parse("(\\S K. S K K) (\\x y z. x z (y z)) (\\x y. x) a")),
        parse("a")
    );
}

#[test]
fn irstrat_byname() {
    assert_eq!(strat_byname(&parse("x")), Reduc::Irred);
    assert_eq!(strat_byname(&parse("a b")), Reduc::Irred);
    assert_eq!(strat_byname(&parse("\\x.x")), Reduc::Irred);
    assert_eq!(strat_byname(&parse("\\x. (\\y.y) z")), Reduc::Irred);
}

#[test]
fn beta_byname() {
    assert_eq!(strat_byname(&parse("(\\x. x) y")), Reduc::Beta);
    assert_eq!(strat_byname(&parse("(\\x. x) y z")), Reduc::Left(Box::new(Reduc::Beta)));
    assert_eq!(strat_byname(&parse("z ((\\x. x) y)")), Reduc::Right(Box::new(Reduc::Beta)));
}

#[test]
fn order_byname() {
    assert_eq!(
        strat_byname(&parse("(\\a. a) b ((\\x. x) y)")),
        Reduc::Left(Box::new(Reduc::Beta))
    );
    assert_eq!(
        strat_byname(&parse("(\\x. (\\a. a) x) z w")),
        Reduc::Left(Box::new(Reduc::Beta))
    );
}

#[test]
fn normalization_byname() {
    assert_eq!(
        reduce_full(Strategy::ByName, parse("(\\a b. b) ((\\x. x x) (\\x. x x)) z")),
        parse("z")
    );
    assert_eq!(
        reduce_full(Strategy::ByName, parse("(λf. f ((λx. x x) (λx. x x)) z) (λa b. b)")),
        parse("z")
    );
}

#[test]
fn step_norm() {
    assert_eq!(reduce_step(Strategy::NormalOrder, parse("x")), (Reduc::Irred, parse("x")));
    assert_eq!(
        reduce_step(Strategy::NormalOrder, parse("(\\a. a) b ((\\x. x) y)")),
        (Reduc::Left(Box::new(Reduc::Beta)), parse("b ((\\x. x) y)"))
    );
}

#[test]
fn skk_iter_norm() {
    let steps: Vec<(String, Exp)> = collect_steps(
        Strategy::NormalOrder,
        parse("(\\S K. S K K) (\\x y z. x z (y z)) (\\x y. x)"),
    )
    .into_iter()
    .map(|(red, ex)| (red.to_text(), ex))
    .collect();
    assert_eq!(
        steps,
        vec![
            ("(β _)".to_string(), parse("(\\K. (\\x y z. x z (y z)) K K) (\\x y. x)")),
            ("β".to_string(), parse("(\\x y z. x z (y z)) (\\x y. x) (\\x y. x)")),
            ("(β _)".to_string(), parse("(\\y z. (\\x y. x) z (y z)) (\\x y. x)")),
            ("β".to_string(), parse("(\\z. (\\x y. x) z ((\\x y. x) z))")),
            ("(\\. (β _))".to_string(), parse("(\\z. (\\y. z) ((\\x y. x) z))")),
            ("(\\. β)".to_string(), parse("(\\z. z)")),
        ]
    );
}

#[test]
fn skk_full_norm() {
    assert_eq!(
        reduce_full(Strategy::NormalOrder, parse("(\\S K. S K K) (\\x y z. x z (y z)) (\\x y. x)")),
        parse("(\\z. z)")
    );
    assert_eq!(
        reduce_full(
            Strategy::NormalOrder,
            parse("(\\S K. S K K) (\\x y z. x z (y z)) (\\x y. x) a"),
        ),
        parse("a")
    );
}

#[test]
fn normalization_norm() {
    assert_eq!(
        reduce_full(Strategy::NormalOrder, parse("(\\a b. b) ((\\x. x x) (\\x. x x)) z")),
        parse("z")
    );
    assert_eq!(
        reduce_full(Strategy::NormalOrder, parse("(λf. f ((λx. x x) (λx. x x)) z) (λa b. b)")),
        parse("z")
    );
}

#[test]
fn irstrat_norm() {
    assert_eq!(strat_norm(&parse("x")), Reduc::Irred);
    assert_eq!(strat_norm(&parse("a b")), Reduc::Irred);
    assert_eq!(strat_norm(&parse("\\x.x")), Reduc::Irred);
    assert_ne!(strat_norm(&parse("\\x. (\\y.y) z")), Reduc::Irred);
}

#[test]
fn beta_norm() {
    assert_eq!(strat_norm(&parse("(\\x. x) y")), Reduc::Beta);
    assert_eq!(strat_norm(&parse("(\\x. x) y z")), Reduc::Left(Box::new(Reduc::Beta)));
    assert_eq!(strat_norm(&parse("z ((\\x. x) y)")), Reduc::Right(Box::new(Reduc::Beta)));
    assert_eq!(strat_norm(&parse("\\x. (\\y.y) z")), Reduc::Body(Box::new(Reduc::Beta)));
}

#[test]
fn order_norm() {
    assert_eq!(
        strat_norm(&parse("(\\a. a) b ((\\x. x) y)")),
        Reduc::Left(Box::new(Reduc::Beta))
    );
    assert_eq!(strat_norm(&parse("(\\x. (\\a. a) x y) z")), Reduc::Beta);
}

#[test]
fn free() {
    assert!(free_in("x", &parse("x")));
    assert!(free_in("y", &parse("x y z")));
    assert!(free_in("y", &parse("(\\x. x) y")));
    assert!(!free_in("x", &parse("(\\x. x) y")));
    assert!(!free_in("y", &parse("(\\x y. x)")));
    assert!(free_in("y", &parse("(\\x y. x) y")));
}

#[test]
fn substitution() {
    assert_eq!(lambda_reduce::sub(parse("x"), "x", &parse("y")), parse("y"));
    assert_eq!(lambda_reduce::sub(parse("x y"), "x", &parse("z")), parse("z y"));
    assert_eq!(lambda_reduce::sub(parse("\\x. x z"), "z", &parse("w")), parse("\\x. x w"));
    assert_eq!(lambda_reduce::sub(parse("\\x. x"), "x", &parse("z")), parse("\\x. x"));
    assert_eq!(lambda_reduce::sub(parse("\\x. x z"), "z", &parse("x")), parse("\\x'. x' x"));
}

#[test]
fn beta_is_substitution() {
    let via_beta = reduce_with(parse("(\\x. y x) z"), &Reduc::Beta);
    let via_sub = lambda_reduce::sub(parse("y x"), "x", &parse("z"));
    assert_eq!(via_beta, via_sub);
    assert_eq!(via_beta, parse("y z"));
}

#[test]
fn shadowing() {
    assert!(!free_in("x", &parse("\\x. x")));
    assert!(!free_in("x", &parse("\\x. x x")));
    assert!(!free_in("x", &parse("\\x. y (\\z. x)")));
    assert!(free_in("y", &parse("\\x. y (\\z. x)")));
}

#[test]
fn capture_double_rename() {
    assert_eq!(
        lambda_reduce::sub(parse("\\x. x z"), "z", &parse("x x'")),
        parse("\\x''. x'' (x x')")
    );
}

#[test]
fn capture_rename_collision() {
    assert_eq!(
        lambda_reduce::sub(parse("\\x. x' x z"), "z", &parse("x")),
        parse("\\x'. x' x' x")
    );
}

#[test]
fn strategy_scope() {
    let t = parse("a (\\x. (\\y. y) z)");
    assert_eq!(strat_byname(&t), Reduc::Irred);
    assert_eq!(
        strat_norm(&t),
        Reduc::Right(Box::new(Reduc::Body(Box::new(Reduc::Beta))))
    );
}

#[test]
fn byname_weak_normal_form() {
    let r = reduce_full(
        Strategy::ByName,
        parse("(\\S K. S K K) (\\x y z. x z (y z)) (\\x y. x)"),
    );
    assert_eq!(strat_byname(&r), Reduc::Irred);
    assert_ne!(strat_norm(&r), Reduc::Irred);
}

#[test]
fn render_paths() {
    assert_eq!(Reduc::Irred.to_text(), "-");
    assert_eq!(Reduc::Beta.to_text(), "β");
    assert_eq!(Reduc::Left(Box::new(Reduc::Beta)).to_text(), "(β _)");
    assert_eq!(Reduc::Right(Box::new(Reduc::Beta)).to_text(), "(_ β)");
    assert_eq!(Reduc::Body(Box::new(Reduc::Irred)).to_text(), "(\\. -)");
    assert_eq!(
        Reduc::Left(Box::new(Reduc::Right(Box::new(Reduc::Beta)))).to_text(),
        "((_ β) _)"
    );
}

#[test]
fn iter_stops_at_normal_form() {
    let mut it = reduce_iter(Strategy::NormalOrder, parse("\\x. x"));
    assert!(it.next().is_none());
    let steps = collect_steps(Strategy::ByName, parse("(\\x. x) y"));
    assert_eq!(steps, vec![(Reduc::Beta, parse("y"))]);
}
