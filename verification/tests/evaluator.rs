use galaxy_eval::{run, EvalError, RunError, Symbol};

#[test]
fn run_inc_1() {
    let symbol = run(":1096 = ap inc 1").unwrap();
    assert_eq!(symbol, Symbol::Lit(2))
}

#[test]
fn run_inc_var() {
    let symbol = run(
        ":1096 = ap inc 1
         :302 = ap inc :1096",
    )
    .unwrap();
    assert_eq!(symbol, Symbol::Lit(3))
}

#[test]
fn run_start() {
    let symbol = run(
        ":1029 = ap ap cons 7 ap ap cons 123229502148636 nil
:1030 = ap ap cons 2 ap ap cons 7 nil
:1031 = ap ap cons 4 ap ap cons 21855 nil
:1032 = ap ap cons 7 ap ap cons 560803991675135 nil
:1034 = ap ap cons 5 ap ap cons 33554431 nil
:1035 = ap ap cons 5 ap ap cons 30309607 nil
:1036 = ap ap cons 3 ap ap cons 463 nil
:1037 = ap ap cons 4 ap ap cons 48063 nil
:1038 = ap ap cons 7 ap ap cons 10880 nil
:1039 = ap ap cons 5 ap ap cons 15265326 nil
:1040 = ap ap cons 5 ap ap cons 18472561 nil
:1041 = ap ap cons 4 ap ap cons 64959 nil
:1042 = ap ap cons 4 ap ap cons 63935 nil",
    )
    .unwrap();
    assert_eq!(
        symbol,
        Symbol::Pair(
            Symbol::Lit(4).into(),
            Symbol::Pair(Symbol::Lit(63935).into(), Symbol::Nil.into()).into()
        )
    )
}

#[test]
fn true_selector_skips_bad_branch() {
    // The untaken operand would fail if forced: car of a literal is a type
    // error, but the true selector never touches it.
    let symbol = run(":1 = ap ap t 1 ap car 5").unwrap();
    assert_eq!(symbol, Symbol::Lit(1));
}

#[test]
fn false_selector_picks_second() {
    let symbol = run(":1 = ap ap f ap car 5 2").unwrap();
    assert_eq!(symbol, Symbol::Lit(2));
}

#[test]
fn self_reference_diverges() {
    let r = run(":1 = :1");
    assert_eq!(r, Err(RunError::Eval(EvalError::Divergence)));
}

#[test]
fn car_of_list_literal_is_canonicalized() {
    // A raw list literal fed into car goes through the canonicalizer first,
    // so the pair-destructuring builtin only ever sees a cons cell.
    let symbol = run(":1 = ap car ( 1 , 2 )").unwrap();
    assert_eq!(symbol, Symbol::Lit(1));
}

#[test]
fn list_literal_equals_cons_chain() {
    let lit = run(":1 = ( 1 , 2 , 3 )").unwrap();
    let chain = run(":1 = ap ap cons 1 ap ap cons 2 ap ap cons 3 nil").unwrap();
    assert_eq!(lit, chain);
}

#[test]
fn empty_list_is_nil() {
    let symbol = run(":1 = ap isnil ( )").unwrap();
    assert_eq!(symbol, Symbol::T);
}

#[test]
fn curried_if0_selects() {
    assert_eq!(run(":1 = ap ap ap if0 0 42 7").unwrap(), Symbol::Lit(42));
    assert_eq!(run(":1 = ap ap ap if0 1 42 7").unwrap(), Symbol::Lit(7));
}

#[test]
fn s_combinator_law() {
    // S x y z = (x z) (y z): S add inc applied to 1 is add 1 (inc 1) = 3.
    let symbol = run(":1 = ap ap ap s add inc 1").unwrap();
    assert_eq!(symbol, Symbol::Lit(3));
}

#[test]
fn c_combinator_law() {
    // C x y z = x z y: C div 2 10 is div 10 2 = 5.
    let symbol = run(":1 = ap ap ap c div 2 10").unwrap();
    assert_eq!(symbol, Symbol::Lit(5));
}

#[test]
fn b_combinator_law() {
    // B x y z = x (y z): B inc dec 5 is inc (dec 5) = 5.
    let symbol = run(":1 = ap ap ap b inc dec 5").unwrap();
    assert_eq!(symbol, Symbol::Lit(5));
}

#[test]
fn arithmetic_builtins() {
    assert_eq!(run(":1 = ap ap add 2 3").unwrap(), Symbol::Lit(5));
    assert_eq!(run(":1 = ap ap mul 6 7").unwrap(), Symbol::Lit(42));
    assert_eq!(run(":1 = ap dec 9").unwrap(), Symbol::Lit(8));
    assert_eq!(run(":1 = ap neg 5").unwrap(), Symbol::Lit(-5));
}

#[test]
fn division_truncates_toward_zero() {
    assert_eq!(run(":1 = ap ap div 7 2").unwrap(), Symbol::Lit(3));
    assert_eq!(run(":1 = ap ap div -7 2").unwrap(), Symbol::Lit(-3));
    assert_eq!(run(":1 = ap ap div 7 -2").unwrap(), Symbol::Lit(-3));
    assert_eq!(run(":1 = ap ap div -7 -2").unwrap(), Symbol::Lit(3));
}

#[test]
fn division_by_zero_is_reported() {
    assert_eq!(
        run(":1 = ap ap div 1 0"),
        Err(RunError::Eval(EvalError::DivideByZero))
    );
}

#[test]
fn subtraction_via_negate_and_add() {
    let symbol = run(":1 = ap ap add 5 ap neg 3").unwrap();
    assert_eq!(symbol, Symbol::Lit(2));
}

#[test]
fn increment_overflow_is_reported() {
    assert_eq!(
        run(":1 = ap inc 9223372036854775807"),
        Err(RunError::Eval(EvalError::Overflow))
    );
}

#[test]
fn equality_and_comparison() {
    assert_eq!(run(":1 = ap ap eq 3 3").unwrap(), Symbol::T);
    assert_eq!(run(":1 = ap ap eq 3 4").unwrap(), Symbol::F);
    assert_eq!(run(":1 = ap ap lt 1 2").unwrap(), Symbol::T);
    assert_eq!(run(":1 = ap ap lt 2 1").unwrap(), Symbol::F);
}

#[test]
fn modulate_demodulate_round_trip() {
    let symbol = run(":1 = ap dem ap mod 42").unwrap();
    assert_eq!(symbol, Symbol::Lit(42));
}

#[test]
fn identity_returns_operand() {
    assert_eq!(run(":1 = ap i 9").unwrap(), Symbol::Lit(9));
}

#[test]
fn car_of_non_pair_is_type_error() {
    assert_eq!(
        run(":1 = ap car 5"),
        Err(RunError::Eval(EvalError::TypeMismatch))
    );
}

#[test]
fn unbound_variable_is_reported() {
    assert_eq!(
        run(":1 = ap inc :99"),
        Err(RunError::Eval(EvalError::UnboundIdentifier))
    );
}

#[test]
fn malformed_line_is_a_parse_error() {
    match run("garbage") {
        Err(RunError::Parse(e)) => assert_eq!(e.line, 0),
        other => panic!("expected a parse failure, got {:?}", other),
    }
    match run(":1 = ap inc 1\nnot a statement") {
        Err(RunError::Parse(e)) => assert_eq!(e.line, 1),
        other => panic!("expected a parse failure, got {:?}", other),
    }
}

#[test]
fn named_statement_binds() {
    let symbol = run("galaxy = ap inc 41").unwrap();
    assert_eq!(symbol, Symbol::Lit(42));
}

#[test]
fn later_binding_shadows_earlier() {
    let symbol = run(
        ":1 = 10
:1 = 20
:2 = ap inc :1",
    )
    .unwrap();
    assert_eq!(symbol, Symbol::Lit(21));
}

#[test]
fn power_of_two_builtin() {
    let symbol = galaxy_eval::eval_instructions(
        &vec![Symbol::Ap, Symbol::Pwr2, Symbol::Lit(8)],
        1000,
    )
    .unwrap();
    assert_eq!(symbol, Symbol::Lit(256));
}

#[test]
fn checkerboard_builtin() {
    let symbol = galaxy_eval::eval_instructions(
        &vec![
            Symbol::Ap,
            Symbol::Ap,
            Symbol::Checkerboard,
            Symbol::Lit(2),
            Symbol::Lit(2),
        ],
        1000,
    )
    .unwrap();
    let pair = |a: i64, b: i64| Symbol::Pair(Symbol::Lit(a).into(), Symbol::Lit(b).into());
    let expected = Symbol::Pair(
        pair(0, 0).into(),
        Symbol::Pair(
            pair(0, 2).into(),
            Symbol::Pair(
                pair(2, 0).into(),
                Symbol::Pair(pair(2, 2).into(), Symbol::Nil.into()).into(),
            )
            .into(),
        )
        .into(),
    );
    assert_eq!(symbol, expected);
}
