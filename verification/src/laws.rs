//! Laws of the evaluator, stated over the model in [`crate::semantics`] and
//! proved once and for all: arithmetic determinism, selector laziness,
//! canonicalization idempotence, currying, and the S, C and B combinator
//! equations.

use vstd::prelude::*;

use crate::ast::{arity, canon_spec, list_to_pairs, EvalError, StV, SymV};
use crate::semantics::{
    apply_spec, div_trunc, fits_i64, fits_i8, force_spec, push_token_spec, resolve_spec,
};

verus! {

/// The thunk the spine builder constructs for `ap f a`: a partial
/// application of `f` to `a` still owing `arity(f) - 1` arguments.
pub open spec fn ap_thunk(f: SymV, a: SymV) -> SymV {
    SymV::PartFn(Box::new(SymV::Ap), seq![f, a], arity(f) - 1)
}

/// `ap_thunk` is exactly what one `ap` token does to the working stack:
/// it pops the function and the argument and pushes their pending
/// application.
pub proof fn lemma_ap_thunk_is_spine_step(f: SymV, a: SymV, stack: Seq<SymV>)
    requires
        fits_i8(arity(f) - 1),
    ensures
        push_token_spec(SymV::Ap, stack.push(a).push(f)) == Ok::<Seq<SymV>, EvalError>(
            stack.push(ap_thunk(f, a)),
        ),
{
    let st = stack.push(a).push(f);
    assert(st.last() == f);
    assert(st[st.len() - 2] == a);
    assert(st.drop_last().drop_last() =~= stack);
    assert(st.drop_last().drop_last().push(ap_thunk(f, a)) =~= stack.push(ap_thunk(f, a)));
}


/// Forcing a literal resolves to that literal.
proof fn lemma_force_lit(a: int, env: Seq<StV>, fuel: nat)
    requires
        fuel >= 2,
    ensures
        force_spec(SymV::Lit(a), env, fuel) == Ok::<SymV, EvalError>(SymV::Lit(a)),
{
    assert(resolve_spec(SymV::Lit(a), env, (fuel - 1) as nat) == Ok::<SymV, EvalError>(
        SymV::Lit(a),
    ));
}

/// Forcing the operands of a binary literal builtin.
proof fn lemma_force_lit2(a: int, b: int, env: Seq<StV>, fuel: nat)
    requires
        fuel >= 2,
    ensures
        crate::semantics::force_lit2(seq![SymV::Lit(a), SymV::Lit(b)], env, fuel) == Ok::<
            (int, int),
            EvalError,
        >((a, b)),
{
    lemma_force_lit(a, env, fuel);
    lemma_force_lit(b, env, fuel);
    assert(seq![SymV::Lit(a), SymV::Lit(b)].last() == SymV::Lit(b));
}

/// Forcing the operand of a unary literal builtin.
proof fn lemma_force_lit1(a: int, env: Seq<StV>, fuel: nat)
    requires
        fuel >= 2,
    ensures
        crate::semantics::force_lit1(seq![SymV::Lit(a)], env, fuel) == Ok::<int, EvalError>(a),
{
    lemma_force_lit(a, env, fuel);
    assert(seq![SymV::Lit(a)].last() == SymV::Lit(a));
}

/// Arithmetic determinism: adding two literals yields their sum.
pub proof fn lemma_add(a: int, b: int, env: Seq<StV>, fuel: nat)
    requires
        fits_i64(a),
        fits_i64(b),
        fits_i64(a + b),
        fuel >= 3,
    ensures
        apply_spec(SymV::Add, seq![SymV::Lit(a), SymV::Lit(b)], env, fuel) == Ok::<
            SymV,
            EvalError,
        >(SymV::Lit(a + b)),
{
    lemma_force_lit2(a, b, env, (fuel - 1) as nat);
}

/// Arithmetic determinism: multiplying two literals yields their product.
pub proof fn lemma_mul(a: int, b: int, env: Seq<StV>, fuel: nat)
    requires
        fits_i64(a),
        fits_i64(b),
        fits_i64(a * b),
        fuel >= 3,
    ensures
        apply_spec(SymV::Mul, seq![SymV::Lit(a), SymV::Lit(b)], env, fuel) == Ok::<
            SymV,
            EvalError,
        >(SymV::Lit(a * b)),
{
    lemma_force_lit2(a, b, env, (fuel - 1) as nat);
}

/// Arithmetic determinism: dividing two literals truncates toward zero.
pub proof fn lemma_div(a: int, b: int, env: Seq<StV>, fuel: nat)
    requires
        fits_i64(a),
        fits_i64(b),
        b != 0,
        fits_i64(div_trunc(a, b)),
        fuel >= 3,
    ensures
        apply_spec(SymV::Div, seq![SymV::Lit(a), SymV::Lit(b)], env, fuel) == Ok::<
            SymV,
            EvalError,
        >(SymV::Lit(div_trunc(a, b))),
{
    lemma_force_lit2(a, b, env, (fuel - 1) as nat);
}

/// Arithmetic determinism: increment and decrement move a literal by one.
pub proof fn lemma_inc_dec(a: int, env: Seq<StV>, fuel: nat)
    requires
        fits_i64(a),
        fuel >= 3,
    ensures
        fits_i64(a + 1) ==> apply_spec(SymV::Inc, seq![SymV::Lit(a)], env, fuel) == Ok::<
            SymV,
            EvalError,
        >(SymV::Lit(a + 1)),
        fits_i64(a - 1) ==> apply_spec(SymV::Dec, seq![SymV::Lit(a)], env, fuel) == Ok::<
            SymV,
            EvalError,
        >(SymV::Lit(a - 1)),
        fits_i64(-a) ==> apply_spec(SymV::Neg, seq![SymV::Lit(a)], env, fuel) == Ok::<
            SymV,
            EvalError,
        >(SymV::Lit(-a)),
{
    lemma_force_lit1(a, env, (fuel - 1) as nat);
}

/// Arithmetic determinism: power-of-two of a literal exponent.
pub proof fn lemma_pwr2(a: int, env: Seq<StV>, fuel: nat)
    requires
        0 <= a <= 62,
        fuel >= 3,
    ensures
        apply_spec(SymV::Pwr2, seq![SymV::Lit(a)], env, fuel) == Ok::<SymV, EvalError>(
            SymV::Lit(vstd::arithmetic::power2::pow2(a as nat) as int),
        ),
{
    lemma_force_lit1(a, env, (fuel - 1) as nat);
}

/// Arithmetic determinism: comparing two literals yields a selector.
pub proof fn lemma_lt(a: int, b: int, env: Seq<StV>, fuel: nat)
    requires
        fits_i64(a),
        fits_i64(b),
        fuel >= 3,
    ensures
        apply_spec(SymV::Lt, seq![SymV::Lit(a), SymV::Lit(b)], env, fuel) == Ok::<
            SymV,
            EvalError,
        >(
            if a < b {
                SymV::T
            } else {
                SymV::F
            },
        ),
{
    lemma_force_lit2(a, b, env, (fuel - 1) as nat);
}

/// Subtraction, written as addition of a negation: `add a (neg b)` is
/// `a - b`.  The negation thunk is reduced on demand while the addition
/// forces its operands.
pub proof fn lemma_sub_via_neg(a: int, b: int, env: Seq<StV>, fuel: nat)
    requires
        fits_i64(a),
        fits_i64(b),
        fits_i64(-b),
        fits_i64(a - b),
        fuel >= 6,
    ensures
        apply_spec(
            SymV::Add,
            seq![
                SymV::Lit(a),
                SymV::PartFn(Box::new(SymV::Ap), seq![SymV::Neg, SymV::Lit(b)], 0),
            ],
            env,
            fuel,
        ) == Ok::<SymV, EvalError>(SymV::Lit(a - b)),
{
    let neg_thunk = SymV::PartFn(Box::new(SymV::Ap), seq![SymV::Neg, SymV::Lit(b)], 0);
    let ops = seq![SymV::Lit(a), neg_thunk];
    lemma_force_lit(a, env, (fuel - 1) as nat);
    lemma_force_lit1(b, env, (fuel - 4) as nat);
    assert(apply_spec(SymV::Neg, seq![SymV::Lit(b)], env, (fuel - 3) as nat) == Ok::<
        SymV,
        EvalError,
    >(SymV::Lit(-b)));
    assert(seq![SymV::Neg, SymV::Lit(b)].drop_first() =~= seq![SymV::Lit(b)]);
    assert(resolve_spec(SymV::Lit(-b), env, (fuel - 3) as nat) == Ok::<SymV, EvalError>(
        SymV::Lit(-b),
    ));
    assert(resolve_spec(neg_thunk, env, (fuel - 2) as nat) == Ok::<SymV, EvalError>(
        SymV::Lit(-b),
    ));
    assert(force_spec(neg_thunk, env, (fuel - 1) as nat) == Ok::<SymV, EvalError>(
        SymV::Lit(-b),
    ));
    assert(ops[ops.len() - 2] == SymV::Lit(a));
    assert(ops.last() == neg_thunk);
    assert(crate::semantics::force_lit2(ops, env, (fuel - 1) as nat) == Ok::<
        (int, int),
        EvalError,
    >((a, -b)));
}

/// Selector laziness: the true selector returns its first operand and the
/// false selector its second, unforced — whatever the untaken operand is,
/// even one whose forcing would fail, it is never touched.
pub proof fn lemma_selector_lazy(x: SymV, y: SymV, env: Seq<StV>, fuel: nat)
    requires
        fuel >= 1,
    ensures
        apply_spec(SymV::T, seq![x, y], env, fuel) == Ok::<SymV, EvalError>(x),
        apply_spec(SymV::F, seq![x, y], env, fuel) == Ok::<SymV, EvalError>(y),
{
}

/// The identity combinator returns its operand unforced.
pub proof fn lemma_identity(x: SymV, env: Seq<StV>, fuel: nat)
    requires
        fuel >= 1,
    ensures
        apply_spec(SymV::I, seq![x], env, fuel) == Ok::<SymV, EvalError>(x),
{
}

/// Canonicalization is idempotent: lowering a value twice is the same as
/// lowering it once.
pub proof fn lemma_canonicalize_idempotent(v: SymV)
    ensures
        canon_spec(canon_spec(v)) == canon_spec(v),
{
    match v {
        SymV::List(elems) => {
            if elems.len() == 0 {
                assert(list_to_pairs(elems) == SymV::Nil);
            }
        },
        _ => {},
    }
}

/// Canonicalization never leaves a list literal at the top: the result is
/// `Nil` or nested pairs, so a lowered token can never put a bare list in
/// front of the pair-destructuring builtins.
pub proof fn lemma_canon_removes_list(v: SymV)
    ensures
        !(canon_spec(v) is List),
{
    match v {
        SymV::List(elems) => {
            if elems.len() == 0 {
                assert(list_to_pairs(elems) == SymV::Nil);
            }
        },
        _ => {},
    }
}

/// A list literal lowers to exactly the nested cons cells built right to
/// left, the last element adjacent to `Nil`.
pub proof fn lemma_canon_list(elems: Seq<SymV>)
    ensures
        canon_spec(SymV::List(elems)) == list_to_pairs(elems),
        elems.len() == 0 ==> canon_spec(SymV::List(elems)) == SymV::Nil,
        elems.len() > 0 ==> canon_spec(SymV::List(elems)) == SymV::Pair(
            Box::new(elems[0]),
            Box::new(list_to_pairs(elems.drop_first())),
        ),
{
}

/// The cons builtin builds exactly the pair cell that canonicalization
/// produces for a list element: together with `lemma_canon_list`, a list
/// literal and its chain of cons applications reduce to the same structure.
pub proof fn lemma_cons_builds_pair(x: SymV, y: SymV, env: Seq<StV>, fuel: nat)
    requires
        fuel >= 1,
    ensures
        apply_spec(SymV::Cons, seq![x, y], env, fuel) == Ok::<SymV, EvalError>(
            SymV::Pair(Box::new(x), Box::new(y)),
        ),
{
}

/// Currying correctness: applying a 3-arity combinator one argument at a
/// time — the nested partial applications the spine builder creates for
/// `ap ap ap op x y z` — unwinds to the one saturated 3-argument call,
/// two reduction steps later.
pub proof fn lemma_currying(op: SymV, x: SymV, y: SymV, z: SymV, env: Seq<StV>, fuel: nat)
    requires
        arity(op) == 3,
        fuel >= 2,
    ensures
        apply_spec(
            SymV::PartFn(
                Box::new(SymV::Ap),
                seq![SymV::PartFn(Box::new(SymV::Ap), seq![op, x], 2), y],
                1,
            ),
            seq![z],
            env,
            fuel,
        ) == apply_spec(op, seq![x, y, z], env, (fuel - 2) as nat),
{
    let inner = SymV::PartFn(Box::new(SymV::Ap), seq![op, x], 2);
    let outer_args = seq![inner, y];
    assert(outer_args.drop_first() + seq![z].skip(0) =~= seq![y, z]);
    assert(seq![op, x].drop_first() + seq![y, z].skip(0) =~= seq![x, y, z]);
    assert(apply_spec(inner, seq![y, z], env, (fuel - 1) as nat) == apply_spec(
        op,
        seq![x, y, z],
        env,
        (fuel - 2) as nat,
    ));
}

/// The S combinator: applying `S` to `x`, `y`, `z` builds exactly the
/// thunk for `(x z) (y z)` — the same nested applications the spine
/// builder constructs for `ap ap x z ap y z` — provided `y` is unary.
pub proof fn lemma_s_combinator(x: SymV, y: SymV, z: SymV, env: Seq<StV>, fuel: nat)
    requires
        fuel >= 1,
        fits_i8(arity(x) - 1),
        fits_i8(arity(x) - 2),
        arity(y) == 1,
    ensures
        apply_spec(SymV::S, seq![x, y, z], env, fuel) == Ok::<SymV, EvalError>(
            ap_thunk(ap_thunk(x, z), ap_thunk(y, z)),
        ),
{
}

/// The C combinator: applying `C` to `x`, `y`, `z` builds exactly the
/// thunk for `(x z) y` — the same nested applications the spine builder
/// constructs for `ap ap x z y`.
pub proof fn lemma_c_combinator(x: SymV, y: SymV, z: SymV, env: Seq<StV>, fuel: nat)
    requires
        fuel >= 1,
        fits_i8(arity(x) - 1),
        fits_i8(arity(x) - 2),
    ensures
        apply_spec(SymV::C, seq![x, y, z], env, fuel) == Ok::<SymV, EvalError>(
            ap_thunk(ap_thunk(x, z), y),
        ),
{
}

/// The B combinator: applying `B` to `x`, `y`, `z` builds exactly the
/// thunk for `x (y z)`, provided `x` and `y` are unary.
pub proof fn lemma_b_combinator(x: SymV, y: SymV, z: SymV, env: Seq<StV>, fuel: nat)
    requires
        fuel >= 1,
        arity(x) == 1,
        arity(y) == 1,
    ensures
        apply_spec(SymV::B, seq![x, y, z], env, fuel) == Ok::<SymV, EvalError>(
            ap_thunk(x, ap_thunk(y, z)),
        ),
{
}

/// Demodulating a modulated value gives that value back: `dem (mod v)`
/// round-trips through the encoded payload.
pub proof fn lemma_mod_dem_round_trip(v: SymV, env: Seq<StV>, fuel: nat)
    requires
        fuel >= 3,
        force_spec(v, env, (fuel - 1) as nat) == Ok::<SymV, EvalError>(v),
    ensures
        ({
            let encoded = apply_spec(SymV::Mod, seq![v], env, fuel);
            encoded is Ok && apply_spec(SymV::Dem, seq![encoded->Ok_0], env, fuel) == Ok::<
                SymV,
                EvalError,
            >(v)
        }),
{
    let encoded = SymV::Modulated(Box::new(v));
    assert(apply_spec(SymV::Mod, seq![v], env, fuel) == Ok::<SymV, EvalError>(encoded));
    assert(resolve_spec(encoded, env, (fuel - 2) as nat) == Ok::<SymV, EvalError>(encoded));
    assert(force_spec(encoded, env, (fuel - 1) as nat) == Ok::<SymV, EvalError>(encoded));
}

} // verus!
