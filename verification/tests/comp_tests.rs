use comp::codegen::OutTok;
use comp::comp;
use comp::parse::Comprehension;
use comp::parse::Expected;
use comp::parse::SyntaxError;
use comp::pipeline::pipeline_take;
use comp::pipeline::run_pipeline;
use comp::token::Tok;
use comp::ExpandError;

// Helper: the tokens of `mapping for pattern in sequence`, with the three
// pieces given as symbol identifiers.
fn simple_comp(mapping: &[u64], pattern: &[u64], sequence: &[u64]) -> Vec<Tok> {
    let mut toks = Vec::new();
    for &id in mapping {
        toks.push(Tok::Sym(id));
    }
    toks.push(Tok::KwFor);
    for &id in pattern {
        toks.push(Tok::Sym(id));
    }
    toks.push(Tok::KwIn);
    for &id in sequence {
        toks.push(Tok::Sym(id));
    }
    toks
}

#[test]
fn it_works() {
    // `x + 1 for x in [1, 2, 3]`: the expansion is accepted ...
    let toks = simple_comp(&[0, 1, 2], &[3], &[4]);
    assert!(comp(&toks).is_ok());
    // ... and the pipeline it denotes maps x to x + 1 over [1, 2, 3].
    let result = run_pipeline(&vec![1, 2, 3], |_x: &i32| true, |x: &i32| x + 1);
    assert_eq!(result, vec![2, 3, 4]);
}

#[test]
fn parse_structure() {
    // `x + 1 for x in [1, 2, 3]` as symbol runs: mapping [0,1,2],
    // pattern [3], sequence [4].
    let toks = simple_comp(&[0, 1, 2], &[3], &[4]);
    let (c, used) = Comprehension::parse(&toks).unwrap();
    assert_eq!(used, toks.len());
    assert_eq!(c.mapping.expr, vec![0, 1, 2]);
    assert_eq!(c.for_if_clause.pattern.pat, vec![3]);
    assert_eq!(c.for_if_clause.sequence, vec![4]);
    assert!(c.for_if_clause.conditions.is_empty());
}

#[test]
fn parse_guards_in_order() {
    // `x for x in s if a > 0 if b < 9`: two guards, kept left to right.
    let mut toks = simple_comp(&[0], &[1], &[2]);
    toks.extend([Tok::KwIf, Tok::Sym(10), Tok::Sym(11), Tok::Sym(12)]);
    toks.extend([Tok::KwIf, Tok::Sym(20), Tok::Sym(21), Tok::Sym(22)]);
    let (c, used) = Comprehension::parse(&toks).unwrap();
    assert_eq!(used, toks.len());
    assert_eq!(c.for_if_clause.conditions.len(), 2);
    assert_eq!(c.for_if_clause.conditions[0].expr, vec![10, 11, 12]);
    assert_eq!(c.for_if_clause.conditions[1].expr, vec![20, 21, 22]);
}

#[test]
fn generated_pipeline_tokens() {
    // `m for p in s`: the exact emitted expression.
    let toks = simple_comp(&[10], &[11], &[12]);
    let out = comp(&toks).unwrap();
    assert_eq!(
        out,
        vec![
            OutTok::IntoIter,
            OutTok::LParen,
            OutTok::Sym(12),
            OutTok::RParen,
            OutTok::FilterMap,
            OutTok::LParen,
            OutTok::KwMove,
            OutTok::Bar,
            OutTok::Sym(11),
            OutTok::Bar,
            OutTok::KwIf,
            OutTok::LitTrue,
            OutTok::LBrace,
            OutTok::WrapVal,
            OutTok::LParen,
            OutTok::Sym(10),
            OutTok::RParen,
            OutTok::RBrace,
            OutTok::KwElse,
            OutTok::LBrace,
            OutTok::EmptyVal,
            OutTok::RBrace,
            OutTok::RParen,
        ]
    );
}

#[test]
fn generated_guard_conjunction() {
    // `m for p in s if g`: the guard is conjoined onto a literal `true`,
    // parenthesized.
    let mut toks = simple_comp(&[10], &[11], &[12]);
    toks.extend([Tok::KwIf, Tok::Sym(13)]);
    let out = comp(&toks).unwrap();
    let true_at = out.iter().position(|t| *t == OutTok::LitTrue).unwrap();
    assert_eq!(
        &out[true_at..true_at + 5],
        &[
            OutTok::LitTrue,
            OutTok::AndAnd,
            OutTok::LParen,
            OutTok::Sym(13),
            OutTok::RParen,
        ]
    );
}

#[test]
fn no_guard_yields_elements_unchanged() {
    // `x for x in s` with no guards: every element, in order, unmapped.
    let result = run_pipeline(&vec![1, 2, 3], |_x: &i32| true, |x: &i32| *x);
    assert_eq!(result, vec![1, 2, 3]);
}

#[test]
fn guards_exclude_and_keep_order() {
    // `x for x in [1, 2, 3, 4] if x > 1 if x < 4` keeps [2, 3].
    let result = run_pipeline(&vec![1, 2, 3, 4], |x: &i32| *x > 1 && *x < 4, |x: &i32| *x);
    assert_eq!(result, vec![2, 3]);
}

#[test]
fn guard_conjunction_short_circuits_left_to_right() {
    // Guards are evaluated left to right and a failing one short-circuits
    // the rest: the second guard runs only for the three elements the
    // first one passed.
    let second_guard_evals = std::cell::Cell::new(0u32);
    let out = run_pipeline(
        &vec![1, 2, 3, 4],
        |x: &i32| {
            *x > 1 && {
                second_guard_evals.set(second_guard_evals.get() + 1);
                *x < 4
            }
        },
        |x: &i32| *x,
    );
    assert_eq!(out, vec![2, 3]);
    assert_eq!(second_guard_evals.get(), 3);
}

#[test]
fn mapping_evaluated_once_per_accepted_element() {
    // The mapping runs only for elements every guard passed: twice here,
    // not four times.
    let evaluations = std::cell::Cell::new(0u32);
    let result = run_pipeline(&vec![1, 2, 3, 4], |x: &i32| *x > 1 && *x < 4, |x: &i32| {
        evaluations.set(evaluations.get() + 1);
        *x * 100
    });
    assert_eq!(result, vec![200, 300]);
    assert_eq!(evaluations.get(), 2);
}

#[test]
fn lazy_over_unbounded_source() {
    // The counting sequence 0, 1, 2, ... never ends; pulling the first
    // three outputs of `x * 10 for x in counting if x > 1` still returns.
    let result = pipeline_take(|i: u64| i, |x: &u64| *x > 1, |x: &u64| *x * 10, 3, 1000);
    assert_eq!(result, vec![20, 30, 40]);
}

#[test]
fn fuel_bounds_a_rejecting_guard() {
    // A guard that never passes: the pull stops at the fuel bound with
    // nothing produced instead of running on.
    let pulls = std::cell::Cell::new(0u32);
    let result = pipeline_take(
        |i: u64| {
            pulls.set(pulls.get() + 1);
            i
        },
        |_x: &u64| false,
        |x: &u64| *x,
        3,
        5,
    );
    assert_eq!(result, Vec::<u64>::new());
    assert_eq!(pulls.get(), 5);
}

#[test]
fn destructuring_pattern_binds() {
    // `a + b for (a, b) in [(1, 2), (3, 4)]`: the pattern is one host
    // token (a parenthesized group), and the pipeline yields [3, 7].
    let toks = simple_comp(&[0, 1, 2], &[3], &[4]);
    let (c, _) = Comprehension::parse(&toks).unwrap();
    assert_eq!(c.for_if_clause.pattern.pat, vec![3]);
    let result = run_pipeline(
        &vec![(1, 2), (3, 4)],
        |_p: &(i32, i32)| true,
        |&(a, b): &(i32, i32)| a + b,
    );
    assert_eq!(result, vec![3, 7]);
}

#[test]
fn empty_input_is_refused() {
    let toks: Vec<Tok> = Vec::new();
    assert_eq!(
        comp(&toks),
        Err(ExpandError::Syntax(SyntaxError { pos: 0, expected: Expected::MappingExpr }))
    );
}

#[test]
fn missing_for_clause_is_refused() {
    // `x + 1` with no clause at all.
    let toks = vec![Tok::Sym(0), Tok::Sym(1), Tok::Sym(2)];
    assert_eq!(
        comp(&toks),
        Err(ExpandError::Syntax(SyntaxError { pos: 3, expected: Expected::ForKeyword }))
    );
}

#[test]
fn missing_in_keyword_is_refused() {
    // `x for x [1, 2, 3]`: without `in`, the pattern run swallows the
    // sequence token and the stream ends where `in` was owed.
    let toks = vec![Tok::Sym(0), Tok::KwFor, Tok::Sym(1), Tok::Sym(2)];
    assert_eq!(
        comp(&toks),
        Err(ExpandError::Syntax(SyntaxError { pos: 4, expected: Expected::InKeyword }))
    );
}

#[test]
fn missing_pattern_is_refused() {
    // `x for in s`.
    let toks = vec![Tok::Sym(0), Tok::KwFor, Tok::KwIn, Tok::Sym(1)];
    assert_eq!(
        comp(&toks),
        Err(ExpandError::Syntax(SyntaxError { pos: 2, expected: Expected::BindingPattern }))
    );
}

#[test]
fn missing_sequence_is_refused() {
    // `x for x in`.
    let toks = vec![Tok::Sym(0), Tok::KwFor, Tok::Sym(1), Tok::KwIn];
    assert_eq!(
        comp(&toks),
        Err(ExpandError::Syntax(SyntaxError { pos: 4, expected: Expected::SequenceExpr }))
    );
}

#[test]
fn second_for_clause_is_trailing() {
    // `x for x in s for y in t`: exactly one clause is recognized; the
    // second `for` is left over and refuses the expansion.
    let mut toks = simple_comp(&[0], &[1], &[2]);
    let at = toks.len();
    toks.extend([Tok::KwFor, Tok::Sym(3), Tok::KwIn, Tok::Sym(4)]);
    assert_eq!(comp(&toks), Err(ExpandError::Trailing(at)));
}

#[test]
fn malformed_final_guard_is_swallowed_then_trailing() {
    // `x for x in s if if g`: the first `if` commits the probe, its missing
    // expression ends the repetition, and what follows is trailing input.
    let mut toks = simple_comp(&[0], &[1], &[2]);
    let at = toks.len() + 1;
    toks.extend([Tok::KwIf, Tok::KwIf, Tok::Sym(3)]);
    assert_eq!(comp(&toks), Err(ExpandError::Trailing(at)));
}

#[test]
fn dangling_final_if_is_swallowed() {
    // `x for x in s if` at the end of input: the committed `if` is
    // consumed, the repetition ends, and nothing is left over, so the
    // expansion succeeds with zero guards.
    let mut toks = simple_comp(&[0], &[1], &[2]);
    toks.push(Tok::KwIf);
    let out = comp(&toks).unwrap();
    assert!(!out.contains(&OutTok::AndAnd));
}
