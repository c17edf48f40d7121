use std::sync::Arc;

use rbph::db::states::{GateIndex, PuzzleRow, RbPuzzleStates, Reading, RoundRow};
use rbph::expr::ast::{
    eval_hint_display_compiled, hint_display_uses_cooldown, GateExpr, HintDisplayExpr,
};
use rbph::expr::parser::{parse_expr, tokenize, ParseError, RawSexpr, Token};
use rbph::expr::{
    compile_gate_expr, compile_gate_expr_uncached, compile_hint_display_expr,
    compile_hint_display_expr_uncached, eval, CompileCache, COMPILE_CACHE_CAPACITY,
};

struct TestState {
    index: GateIndex,
    triggers: Vec<(i32, String)>,
}

impl TestState {
    fn new() -> Self {
        let round = |id: i32, slug: &str| RoundRow { id, slug: Some(slug.to_string()) };
        let puzzle = |id: i32, slug: Option<&str>, round_id: i32| PuzzleRow {
            id,
            slug: slug.map(|s| s.to_string()),
            round_id,
            round_puzzle_id: None,
            unlock_cond: None,
        };
        TestState {
            index: GateIndex::build(
                &vec![round(1, "round-one"), round(2, "round-two")],
                &vec![
                    puzzle(1, Some("intro"), 1),
                    puzzle(2, Some("alpha"), 1),
                    puzzle(3, Some("beta"), 1),
                    puzzle(4, Some("gamma"), 2),
                    puzzle(5, None, 2),
                    puzzle(6, None, 2),
                ],
                Reading { negative_is_zero: false, counts_opener: true },
            ),
            triggers: vec![(2, "extra-content".to_string())],
        }
    }

    fn states(&self) -> RbPuzzleStates<'_> {
        RbPuzzleStates {
            solved: vec![1, 2, 3],
            index: &self.index,
            triggers: &self.triggers,
            game_started: true,
        }
    }
}

fn compiles(expr: &str) -> bool {
    let mut cache: CompileCache<GateExpr> = CompileCache::new();
    compile_gate_expr(&mut cache, expr).is_ok()
}

fn fault_of(expr: &str) -> String {
    match compile_gate_expr_uncached(expr) {
        Ok(_) => String::new(),
        Err(e) => e,
    }
}

#[test]
fn test_eval() {
    let test = TestState::new();
    let state = test.states();

    let expr = "(and (solved 1) (solved 2) (solved 3))";
    assert!(eval(&state, expr));

    let expr = "(or (and (solved 1) (solved 2)) (and (solved 3)))";
    assert!(eval(&state, expr));

    let expr = "(and (ge (solved-count (puzzles 1 2 3 4 5)) 1))";
    assert!(eval(&state, expr));

    let expr = "(or (eq (solved-count (puzzles 1 2 3 4 5)) 3))";
    assert!(eval(&state, expr));

    let expr = "(and (eq (solved-count (puzzle-range 1 3)) 3))";
    assert!(eval(&state, expr));

    let expr = "(or (eq (solved-count (puzzle-range 1 3)) 3))";
    assert!(eval(&state, expr));

    let expr = "(not (eq (solved-count (puzzle-range 4 6)) 3))";
    assert!(eval(&state, expr));

    let expr = "(not (eq (solved-count (puzzles 4 5 6)) 3))";
    assert!(eval(&state, expr));

    let expr = "(game-started)";
    assert!(eval(&state, expr));

    assert!(eval(&state, "(triggered 2 extra-content)"));
    assert!(eval(&state, "(triggered alpha extra-content)"));
    assert!(eval(&state, "(true)"));
    assert!(!eval(&state, "(false)"));
    assert!(!compiles("(true unexpected)"));
    assert!(!compiles("(false unexpected)"));
    assert!(!compiles("default"));
    assert!(!eval(&state, "(triggered 2 missing)"));

    let expr = "
        (or
          (any-solved (puzzle-range 1 3))
          (any-solved (puzzles 4 5 6))
        )
        ";
    assert!(eval(&state, expr));

    let expr = "(ge (solved-count (round 1)) 3)";
    assert!(eval(&state, expr));

    let expr = "(and (solved intro) (all-solved (puzzles intro alpha beta)))";
    assert!(eval(&state, expr));

    let expr = "(ge (solved-count (round round-one)) 3)";
    assert!(eval(&state, expr));
}

#[test]
fn test_eval_complex() {
    let test = TestState::new();
    let state = test.states();
    let expr = "(or (and (solved 1) (solved 2)) (and (solved 3)))";
    assert!(eval(&state, expr));
}

#[test]
fn test_eval_failed() {
    let test = TestState::new();
    let state = test.states();
    let expr = "(ge (solved-count (puzzle-range 4 40)) 1)";
    assert!(!eval(&state, expr));
}

#[test]
fn test_bare_number_failed() {
    assert!(!compiles("1"));
}

#[test]
fn test_bare_set_failed() {
    assert!(!compiles("(puzzles 1 2 3)"));
    assert!(!compiles("(puzzle-range 1 3)"));
    assert!(!compiles("(round 1)"));
}

#[test]
fn test_unknown_slug_failed() {
    let test = TestState::new();
    let state = test.states();
    assert!(!eval(&state, "(solved unknown-puzzle)"));
    assert!(!eval(&state, "(all-solved (puzzles intro unknown-puzzle))"));
    assert!(!eval(&state, "(all-solved (round unknown-round))"));
    assert!(!eval(&state, "(ge (solved-count (round unknown-round)) 1)"));
}

#[test]
fn test_hint_display_expr() {
    let test = TestState::new();
    let state = test.states();
    let mut hints: CompileCache<HintDisplayExpr> = CompileCache::new();
    let mut gates: CompileCache<GateExpr> = CompileCache::new();
    let expr = compile_hint_display_expr(
        &mut hints,
        "(and (hint-enabled) (hint-cooled-down) (solved intro))",
    )
    .unwrap();

    assert!(eval_hint_display_compiled(&state, &expr, true, true));
    assert!(!eval_hint_display_compiled(&state, &expr, false, true));
    assert!(!eval_hint_display_compiled(&state, &expr, true, false));
    assert!(hint_display_uses_cooldown(&expr));
    let independent =
        compile_hint_display_expr(&mut hints, "(and (hint-enabled) (solved intro))").unwrap();
    assert!(!hint_display_uses_cooldown(&independent));
    assert!(compile_gate_expr(&mut gates, "(hint-enabled)").is_err());
    assert!(compile_gate_expr(&mut gates, "(hint-cooled-down)").is_err());
    assert!(compile_hint_display_expr(&mut hints, "(hint-enabled unexpected)").is_err());
}

#[test]
fn compiled_expressions_are_cached_and_simplified() {
    let mut gates: CompileCache<GateExpr> = CompileCache::new();
    let mut hints: CompileCache<HintDisplayExpr> = CompileCache::new();
    let first = compile_gate_expr(&mut gates, "(and (true) (solved intro))").unwrap();
    let second = compile_gate_expr(&mut gates, "(and (true) (solved intro))").unwrap();
    assert!(Arc::ptr_eq(&first, &second));
    assert!(matches!(&*first, GateExpr::Solved(_)));

    let hint =
        compile_hint_display_expr(&mut hints, "(and (true) (or (false) (hint-enabled)))").unwrap();
    assert!(matches!(&*hint, HintDisplayExpr::HintEnabled));

    let first_error = compile_gate_expr(&mut gates, "(unknown)").unwrap_err();
    let second_error = compile_gate_expr(&mut gates, "(unknown)").unwrap_err();
    assert!(Arc::ptr_eq(&first_error, &second_error));

    assert!(compile_gate_expr(&mut gates, "(and (false) (unknown))").is_err());
    assert!(compile_hint_display_expr(&mut hints, "(or (true) (unknown))").is_err());
}

#[test]
fn compiled_expression_cache_is_bounded() {
    let mut cache: CompileCache<usize> = CompileCache::new();
    for index in 0..=COMPILE_CACHE_CAPACITY {
        cache.insert(index.to_string(), Ok(Arc::new(index)));
    }
    assert_eq!(cache.values.len(), COMPILE_CACHE_CAPACITY);
    assert!(cache.get("0").is_none());
    assert!(cache.get(&COMPILE_CACHE_CAPACITY.to_string()).is_some());
}

#[test]
fn a_cached_expression_is_not_replaced() {
    let mut cache: CompileCache<usize> = CompileCache::new();
    let first = cache.insert("a".to_string(), Ok(Arc::new(1))).unwrap();
    let second = cache.insert("a".to_string(), Ok(Arc::new(2))).unwrap();
    assert!(Arc::ptr_eq(&first, &second));
    assert_eq!(*second, 1);
}

#[test]
fn test_sexpr() {
    let expr = "(a (b 1 2 3))".to_string();

    let tokens = tokenize(expr);
    println!("{:?}", tokens);

    let ast = parse_expr(&tokens);
    println!("{:?}", ast);
}

#[test]
fn tokens_are_split_at_parens_and_white_space() {
    let tokens = tokenize(" (ab\tc)d".to_string());
    assert_eq!(tokens.len(), 5);
    assert!(matches!(&tokens[0], Token::LParen));
    assert!(matches!(&tokens[1], Token::Atom(s) if s == "ab"));
    assert!(matches!(&tokens[2], Token::Atom(s) if s == "c"));
    assert!(matches!(&tokens[3], Token::RParen));
    assert!(matches!(&tokens[4], Token::Atom(s) if s == "d"));
}

#[test]
fn expressions_that_do_not_parse_are_told_apart() {
    assert!(matches!(
        parse_expr(&tokenize("".to_string())),
        Err(ParseError::UnexpectedEof)
    ));
    assert!(matches!(
        parse_expr(&tokenize("(a".to_string())),
        Err(ParseError::UnexpectedEof)
    ));
    assert!(matches!(
        parse_expr(&tokenize(")".to_string())),
        Err(ParseError::UnexpectedToken(s)) if s == ")"
    ));
    let (parsed, used) = parse_expr(&tokenize("(a) b".to_string())).unwrap();
    assert_eq!(used, 3);
    assert!(matches!(parsed, RawSexpr::List(items) if items.len() == 1));
}

#[test]
fn faults_name_what_is_wrong() {
    assert_eq!(fault_of("(unknown)"), "Compile Error: UnknownOp(\"unknown\")");
    assert_eq!(fault_of(")"), "Parse Error: UnexpectedToken(\")\")");
    assert_eq!(fault_of("(true) (true)"), "Parse Error: trailing tokens");
    assert_eq!(fault_of("(solved (a))"), "Compile Error: ExpectedAtom");
    assert_eq!(fault_of("(all-solved a)"), "Compile Error: ExpectedSetExpr");
    assert_eq!(fault_of("(a\"b\\)"), "Compile Error: UnknownOp(\"a\\\"b\\\\\")");
}

#[test]
fn comparisons_count_solved_puzzles() {
    let test = TestState::new();
    let state = test.states();
    assert!(eval(&state, "(gt (solved-count (puzzles 1 2)) 1)"));
    assert!(!eval(&state, "(gt (solved-count (puzzles 1 2)) 2)"));
    assert!(eval(&state, "(lt (solved-count (puzzles 1 9)) 2)"));
    assert!(eval(&state, "(le (solved-count (puzzles 1 9)) 1)"));
    assert!(eval(&state, "(ne (solved-count (puzzles 1 9)) 2)"));
    assert!(!eval(&state, "(ne 2 2)"));
}

#[test]
fn hints_without_a_gate_mean_the_gate_itself() {
    let test = TestState::new();
    let state = test.states();
    let expr = compile_hint_display_expr_uncached("(not (solved gamma))").unwrap();
    assert!(eval_hint_display_compiled(&state, &expr, false, false));
    let expr = compile_hint_display_expr_uncached("(or (hint-cooled-down) (solved gamma))").unwrap();
    assert!(!eval_hint_display_compiled(&state, &expr, true, false));
    assert!(eval_hint_display_compiled(&state, &expr, false, true));
}

fn text_of(token: &Token) -> &str {
    match token {
        Token::LParen => "(",
        Token::RParen => ")",
        Token::Atom(atom) => atom,
    }
}

fn tokens_of(expr: &RawSexpr) -> Vec<Token> {
    match expr {
        RawSexpr::Atom(atom) => vec![Token::Atom(atom.clone())],
        RawSexpr::List(items) => {
            let mut tokens = vec![Token::LParen];
            for item in items {
                tokens.extend(tokens_of(item));
            }
            tokens.push(Token::RParen);
            tokens
        }
    }
}

#[test]
fn tokens_hold_the_text_without_its_white_space() {
    let text = " (a\t(b1 2 )3)\u{a0}c ";
    let tokens = tokenize(text.to_string());
    let texts: Vec<&str> = tokens.iter().map(text_of).collect();
    assert_eq!(texts.concat(), "(a(b12)3)c");
    assert_eq!(tokenize(texts.join(" ")), tokens);
    assert_eq!(tokenize("  (a)  ".to_string()), tokenize("(a)".to_string()));
    assert_eq!(tokenize("x \n( \t y".to_string()), tokenize("x(y".to_string()));
}

#[test]
fn what_is_read_has_the_tokens_that_it_takes() {
    let tokens = tokenize("(a (b 1) ()) c".to_string());
    let (expr, taken) = parse_expr(&tokens).unwrap();
    assert_eq!(taken, 9);
    assert_eq!(tokens_of(&expr), tokens[..taken]);
    let (again, taken) = parse_expr(&tokens_of(&expr)).unwrap();
    assert_eq!((tokens_of(&again), taken), (tokens_of(&expr), 9));
}

#[test]
fn solving_more_keeps_gates_open() {
    let test = TestState::new();
    let gates = [
        "(and (solved 1) (or (solved 4) (any-solved (round 1))))",
        "(ge (solved-count (puzzles 1 2 6)) 2)",
        "(gt (solved-count (puzzle-range 1 6)) 2)",
        "(all-solved (puzzles intro alpha))",
    ];
    let more = RbPuzzleStates { solved: vec![1, 2, 3, 6], ..test.states() };
    for gate in gates {
        assert!(eval(&test.states(), gate), "{gate}");
        assert!(eval(&more, gate), "{gate}");
    }
    assert!(eval(&test.states(), "(not (solved 6))"));
    assert!(!eval(&more, "(not (solved 6))"));
}

#[test]
fn conditions_without_words_of_hints_are_gates() {
    let test = TestState::new();
    let texts = [
        "(solved 1)",
        "(solved 4)",
        "(and (solved 1) (not (solved 4)))",
        "(or (false) (and (true) (solved 9)))",
        "(not (not (solved 4)))",
        "(and (solved 1) (nothing))",
        "(not (solved 1) (solved 2))",
        "(solved)",
        "()",
        "solved",
    ];
    for text in texts {
        let gate = compile_gate_expr_uncached(text);
        let hint = compile_hint_display_expr_uncached(text);
        match (gate, hint) {
            (Ok(_), Ok(hint)) => {
                let shown = eval_hint_display_compiled(&test.states(), &hint, false, false);
                assert_eq!(shown, eval(&test.states(), text), "{text}");
            }
            (Err(gate), Err(hint)) => assert_eq!(gate, hint, "{text}"),
            _ => panic!("{text}"),
        }
    }
}
