//! The mathematical model of evaluation: a fuel-indexed interpreter over
//! [`SymV`] values.  Every executable function of the evaluator is proved to
//! return exactly what these functions say.
//!
//! Fuel bounds the depth of the reduction; running out of fuel is the
//! `Divergence` error.  A larger fuel never changes a result other than
//! turning `Divergence` into the real one.

use vstd::prelude::*;

use crate::ast::{arity, canon_spec, EvalError, IdV, StV, SymV};

verus! {

/// Does `x` fit in a signed 8-bit remaining-arity counter?
pub open spec fn fits_i8(x: int) -> bool {
    i8::MIN <= x <= i8::MAX
}

/// Does `x` fit in a 64-bit literal?
pub open spec fn fits_i64(x: int) -> bool {
    i64::MIN <= x <= i64::MAX
}

/// Truncating integer division (quotient rounded toward zero), the
/// semantics of the divide combinator.
pub open spec fn div_trunc(x: int, y: int) -> int {
    let q = (vstd::math::abs(x) as int) / (vstd::math::abs(y) as int);
    if (x < 0) <==> (y < 0) {
        q
    } else {
        -q
    }
}

/// Look a numeric variable up in the environment: the latest binding of
/// that index wins, names never match.
pub open spec fn lookup_spec(env: Seq<StV>, idx: nat) -> Option<Seq<SymV>>
    decreases env.len(),
{
    if env.len() == 0 {
        None
    } else if env.last().id == IdV::Var(idx) {
        Some(env.last().body)
    } else {
        lookup_spec(env.drop_last(), idx)
    }
}

/// One step of the application spine builder: how one (already
/// canonicalized) token transforms the working stack.
///
/// An `Ap` token pops the function and then the argument and pushes a fresh
/// partial application owing `arity(function) - 1` more arguments; a partial
/// application that still owes arguments pops one more argument and wraps
/// itself; anything else is pushed as a complete thunk.
pub open spec fn push_token_spec(tok: SymV, stack: Seq<SymV>) -> Result<Seq<SymV>, EvalError> {
    match tok {
        SymV::PartFn(callee, _, remaining) => if *callee != SymV::Ap {
            Err(EvalError::TypeMismatch)
        } else if remaining <= 0 {
            Err(EvalError::ArityViolation)
        } else if stack.len() == 0 {
            Err(EvalError::ArityViolation)
        } else {
            Ok(
                stack.drop_last().push(
                    SymV::PartFn(Box::new(SymV::Ap), seq![tok, stack.last()], remaining - 1),
                ),
            )
        },
        SymV::Ap => if stack.len() < 2 {
            Err(EvalError::ArityViolation)
        } else {
            let fun = stack.last();
            let arg = stack[stack.len() - 2];
            if !fits_i8(arity(fun) - 1) {
                Err(EvalError::ArityViolation)
            } else {
                Ok(
                    stack.drop_last().drop_last().push(
                        SymV::PartFn(Box::new(SymV::Ap), seq![fun, arg], arity(fun) - 1),
                    ),
                )
            }
        },
        _ => Ok(stack.push(tok)),
    }
}

/// Run the spine builder over a token sequence, last token first.
pub open spec fn build_spine(tokens: Seq<SymV>, stack: Seq<SymV>) -> Result<
    Seq<SymV>,
    EvalError,
>
    decreases tokens.len(),
{
    if tokens.len() == 0 {
        Ok(stack)
    } else {
        match push_token_spec(tokens.last(), stack) {
            Ok(stack2) => build_spine(tokens.drop_last(), stack2),
            Err(e) => Err(e),
        }
    }
}

/// Canonicalize every token of a statement body.
pub open spec fn canon_all(tokens: Seq<SymV>) -> Seq<SymV> {
    tokens.map_values(|t: SymV| canon_spec(t))
}

/// What [`crate::eval::eval`] returns: the root thunk built from a statement
/// body, after canonicalizing each token and folding the spine.
pub open spec fn eval_spec(tokens: Seq<SymV>) -> Result<SymV, EvalError> {
    match build_spine(canon_all(tokens), Seq::empty()) {
        Ok(stack) => if stack.len() == 0 {
            Err(EvalError::ArityViolation)
        } else {
            Ok(stack.last())
        },
        Err(e) => Err(e),
    }
}

/// Shallow forcing (weak-head reduction): reduce saturated redexes, resolve
/// variables, and deep-force the two sides of a pair; anything else is
/// already a value.
pub open spec fn resolve_spec(op: SymV, env: Seq<StV>, fuel: nat) -> Result<SymV, EvalError>
    decreases fuel, 3int,
{
    if fuel == 0 {
        Err(EvalError::Divergence)
    } else {
        match op {
            SymV::PartFn(_, args, remaining) => if remaining == 0 {
                if args.len() == 0 {
                    Err(EvalError::ArityViolation)
                } else {
                    match apply_spec(args[0], args.drop_first(), env, (fuel - 1) as nat) {
                        Ok(r) => resolve_spec(r, env, (fuel - 1) as nat),
                        Err(e) => Err(e),
                    }
                }
            } else {
                Ok(op)
            },
            SymV::Var(idx) => match lookup_spec(env, idx) {
                None => Err(EvalError::UnboundIdentifier),
                Some(body) => match eval_spec(body) {
                    Ok(t) => resolve_spec(t, env, (fuel - 1) as nat),
                    Err(e) => Err(e),
                },
            },
            SymV::Pair(hd, tl) => match force_spec(*hd, env, (fuel - 1) as nat) {
                Ok(h) => match force_spec(*tl, env, (fuel - 1) as nat) {
                    Ok(t) => Ok(SymV::Pair(Box::new(h), Box::new(t))),
                    Err(e) => Err(e),
                },
                Err(e) => Err(e),
            },
            _ => Ok(op),
        }
    }
}

/// Deep forcing: weak-head reduction plus structural recursion into lists
/// and pairs, so that every reachable sub-expression is resolved.
pub open spec fn force_spec(v: SymV, env: Seq<StV>, fuel: nat) -> Result<SymV, EvalError>
    decreases fuel, 0int,
{
    if fuel == 0 {
        Err(EvalError::Divergence)
    } else {
        match v {
            SymV::List(xs) => match force_list_spec(xs, env, (fuel - 1) as nat) {
                Ok(ys) => Ok(SymV::List(ys)),
                Err(e) => Err(e),
            },
            SymV::Pair(hd, tl) => match force_spec(*hd, env, (fuel - 1) as nat) {
                Ok(h) => match force_spec(*tl, env, (fuel - 1) as nat) {
                    Ok(t) => Ok(SymV::Pair(Box::new(h), Box::new(t))),
                    Err(e) => Err(e),
                },
                Err(e) => Err(e),
            },
            _ => resolve_spec(v, env, (fuel - 1) as nat),
        }
    }
}

/// Deep-force every element of a list literal, left to right.
pub open spec fn force_list_spec(elems: Seq<SymV>, env: Seq<StV>, fuel: nat) -> Result<
    Seq<SymV>,
    EvalError,
>
    decreases fuel, 1int,
{
    if fuel == 0 {
        Err(EvalError::Divergence)
    } else if elems.len() == 0 {
        Ok(Seq::empty())
    } else {
        match force_spec(elems[0], env, (fuel - 1) as nat) {
            Ok(v) => match force_list_spec(elems.drop_first(), env, (fuel - 1) as nat) {
                Ok(rest) => Ok(seq![v] + rest),
                Err(e) => Err(e),
            },
            Err(e) => Err(e),
        }
    }
}

/// Force the last operand to an integer literal.
pub open spec fn force_lit1(operands: Seq<SymV>, env: Seq<StV>, fuel: nat) -> Result<
    int,
    EvalError,
>
    decreases fuel, 1int,
{
    if operands.len() < 1 {
        Err(EvalError::ArityViolation)
    } else {
        match force_spec(operands.last(), env, fuel) {
            Ok(SymV::Lit(x)) => Ok(x),
            Ok(_) => Err(EvalError::TypeMismatch),
            Err(e) => Err(e),
        }
    }
}

/// Force the last two operands to integer literals; the next-to-last one
/// is the left argument.
pub open spec fn force_lit2(operands: Seq<SymV>, env: Seq<StV>, fuel: nat) -> Result<
    (int, int),
    EvalError,
>
    decreases fuel, 1int,
{
    if operands.len() < 2 {
        Err(EvalError::ArityViolation)
    } else {
        match force_spec(operands[operands.len() - 2], env, fuel) {
            Ok(SymV::Lit(x)) => match force_spec(operands.last(), env, fuel) {
                Ok(SymV::Lit(y)) => Ok((x, y)),
                Ok(_) => Err(EvalError::TypeMismatch),
                Err(e) => Err(e),
            },
            Ok(_) => match force_spec(operands.last(), env, fuel) {
                Ok(_) => Err(EvalError::TypeMismatch),
                Err(e) => Err(e),
            },
            Err(e) => Err(e),
        }
    }
}

/// The number of values the checkerboard builtin enumerates along one axis:
/// the even numbers from 0 up to and including `v`.
pub open spec fn cb_count(v: int) -> nat {
    if v < 0 {
        0
    } else {
        (v / 2 + 1) as nat
    }
}

/// One checkerboard row: the pairs `(i, 0), (i, 2), ..., (i, 2*(m-1))`.
pub open spec fn cb_row(i: int, m: nat) -> Seq<SymV>
    decreases m,
{
    if m == 0 {
        Seq::empty()
    } else {
        cb_row(i, (m - 1) as nat).push(
            SymV::Pair(Box::new(SymV::Lit(i)), Box::new(SymV::Lit(2 * (m - 1)))),
        )
    }
}

/// The first `n` checkerboard rows, row-major.
pub open spec fn cb_rows(n: nat, m: nat) -> Seq<SymV>
    decreases n,
{
    if n == 0 {
        Seq::empty()
    } else {
        cb_rows((n - 1) as nat, m) + cb_row(2 * (n - 1), m)
    }
}

/// Every pair the checkerboard builtin produces for bounds `x` and `y`.
pub open spec fn cb_pairs(x: int, y: int) -> Seq<SymV> {
    cb_rows(cb_count(x), cb_count(y))
}

/// Builtin semantics: apply a callee to a full operand list.  The
/// most-recently-bound argument sits at the highest index.  Operands are
/// forced only where a concrete literal or structure is required; selector,
/// identity, cons and conditional results stay lazy.
pub open spec fn apply_spec(op: SymV, operands: Seq<SymV>, env: Seq<StV>, fuel: nat) -> Result<
    SymV,
    EvalError,
>
    decreases fuel, 2int,
{
    if fuel == 0 {
        Err(EvalError::Divergence)
    } else {
        let subfuel = (fuel - 1) as nat;
        match op {
            SymV::Lit(_) => Ok(op),
            SymV::Eq => if operands.len() != 2 {
                Err(EvalError::ArityViolation)
            } else {
                match force_spec(operands[0], env, subfuel) {
                    Ok(a) => match force_spec(operands[1], env, subfuel) {
                        Ok(b) => Ok(if a == b {
                            SymV::T
                        } else {
                            SymV::F
                        }),
                        Err(e) => Err(e),
                    },
                    Err(e) => Err(e),
                }
            },
            SymV::Inc => match force_lit1(operands, env, subfuel) {
                Ok(x) => if fits_i64(x + 1) {
                    Ok(SymV::Lit(x + 1))
                } else {
                    Err(EvalError::Overflow)
                },
                Err(e) => Err(e),
            },
            SymV::Dec => match force_lit1(operands, env, subfuel) {
                Ok(x) => if fits_i64(x - 1) {
                    Ok(SymV::Lit(x - 1))
                } else {
                    Err(EvalError::Overflow)
                },
                Err(e) => Err(e),
            },
            SymV::Add => match force_lit2(operands, env, subfuel) {
                Ok((x, y)) => if fits_i64(x + y) {
                    Ok(SymV::Lit(x + y))
                } else {
                    Err(EvalError::Overflow)
                },
                Err(e) => Err(e),
            },
            SymV::Var(idx) => match lookup_spec(env, idx) {
                None => Err(EvalError::UnboundIdentifier),
                Some(body) => eval_spec(body),
            },
            SymV::Mul => match force_lit2(operands, env, subfuel) {
                Ok((x, y)) => if fits_i64(x * y) {
                    Ok(SymV::Lit(x * y))
                } else {
                    Err(EvalError::Overflow)
                },
                Err(e) => Err(e),
            },
            SymV::Div => match force_lit2(operands, env, subfuel) {
                Ok((x, y)) => if y == 0 {
                    Err(EvalError::DivideByZero)
                } else if fits_i64(div_trunc(x, y)) {
                    Ok(SymV::Lit(div_trunc(x, y)))
                } else {
                    Err(EvalError::Overflow)
                },
                Err(e) => Err(e),
            },
            SymV::T => if operands.len() != 2 {
                Err(EvalError::ArityViolation)
            } else {
                Ok(operands[0])
            },
            SymV::F => if operands.len() != 2 {
                Err(EvalError::ArityViolation)
            } else {
                Ok(operands[1])
            },
            SymV::Lt => match force_lit2(operands, env, subfuel) {
                Ok((x, y)) => Ok(if x < y {
                    SymV::T
                } else {
                    SymV::F
                }),
                Err(e) => Err(e),
            },
            SymV::Mod => if operands.len() < 1 {
                Err(EvalError::ArityViolation)
            } else {
                match force_spec(operands.last(), env, subfuel) {
                    Ok(v) => Ok(SymV::Modulated(Box::new(v))),
                    Err(e) => Err(e),
                }
            },
            SymV::Dem => if operands.len() < 1 {
                Err(EvalError::ArityViolation)
            } else {
                match force_spec(operands.last(), env, subfuel) {
                    Ok(SymV::Modulated(payload)) => Ok(*payload),
                    Ok(_) => Err(EvalError::TypeMismatch),
                    Err(e) => Err(e),
                }
            },
            SymV::Neg => match force_lit1(operands, env, subfuel) {
                Ok(x) => if fits_i64(-x) {
                    Ok(SymV::Lit(-x))
                } else {
                    Err(EvalError::Overflow)
                },
                Err(e) => Err(e),
            },
            SymV::Pwr2 => match force_lit1(operands, env, subfuel) {
                Ok(x) => if 0 <= x <= 62 {
                    Ok(SymV::Lit(vstd::arithmetic::power2::pow2(x as nat) as int))
                } else {
                    Err(EvalError::Overflow)
                },
                Err(e) => Err(e),
            },
            SymV::I => if operands.len() != 1 {
                Err(EvalError::ArityViolation)
            } else {
                Ok(operands[0])
            },
            SymV::Cons => if operands.len() != 2 {
                Err(EvalError::ArityViolation)
            } else {
                Ok(SymV::Pair(Box::new(operands[0]), Box::new(operands[1])))
            },
            SymV::Car => if operands.len() < 1 {
                Err(EvalError::ArityViolation)
            } else {
                match force_spec(operands.last(), env, subfuel) {
                    Ok(SymV::Pair(hd, _)) => Ok(*hd),
                    Ok(_) => Err(EvalError::TypeMismatch),
                    Err(e) => Err(e),
                }
            },
            SymV::Cdr => if operands.len() < 1 {
                Err(EvalError::ArityViolation)
            } else {
                match force_spec(operands.last(), env, subfuel) {
                    Ok(SymV::Pair(_, tl)) => Ok(*tl),
                    Ok(_) => Err(EvalError::TypeMismatch),
                    Err(e) => Err(e),
                }
            },
            SymV::Nil => Ok(SymV::Nil),
            SymV::IsNil => if operands.len() < 1 {
                Err(EvalError::ArityViolation)
            } else {
                match force_spec(operands.last(), env, subfuel) {
                    Ok(v) => Ok(if v == SymV::Nil {
                        SymV::T
                    } else {
                        SymV::F
                    }),
                    Err(e) => Err(e),
                }
            },
            SymV::List(_) => Err(EvalError::TypeMismatch),
            SymV::Checkerboard => match force_lit2(operands, env, subfuel) {
                Ok((x, y)) => Ok(canon_spec(SymV::List(cb_pairs(x, y)))),
                Err(e) => Err(e),
            },
            SymV::If0 => if operands.len() != 3 {
                Err(EvalError::ArityViolation)
            } else {
                match force_spec(operands[0], env, subfuel) {
                    Ok(v) => Ok(
                        if v == SymV::Lit(0) {
                            operands[1]
                        } else {
                            operands[2]
                        },
                    ),
                    Err(e) => Err(e),
                }
            },
            SymV::PartFn(_, args, remaining) => if args.len() == 0 {
                Err(EvalError::ArityViolation)
            } else if remaining < 0 || remaining > operands.len() {
                Err(EvalError::ArityViolation)
            } else {
                let flat = args.drop_first() + operands.skip(operands.len() - remaining);
                apply_spec(args[0], flat, env, subfuel)
            },
            SymV::S => if operands.len() != 3 {
                Err(EvalError::ArityViolation)
            } else {
                let x = operands[0];
                let y = operands[1];
                let z = operands[2];
                if !fits_i8(arity(x) - 1) || !fits_i8(arity(y) - 1) {
                    Err(EvalError::ArityViolation)
                } else {
                    let fn0 = SymV::PartFn(Box::new(SymV::Ap), seq![x, z], arity(x) - 1);
                    let fn1 = SymV::PartFn(Box::new(SymV::Ap), seq![y, z], arity(y) - 1);
                    let remaining = arity(fn0) - 1 + arity(fn1);
                    if !fits_i8(remaining) {
                        Err(EvalError::ArityViolation)
                    } else {
                        Ok(SymV::PartFn(Box::new(SymV::Ap), seq![fn0, fn1], remaining))
                    }
                }
            },
            SymV::C => if operands.len() != 3 {
                Err(EvalError::ArityViolation)
            } else {
                let x = operands[0];
                let y = operands[1];
                let z = operands[2];
                if !fits_i8(arity(x) - 1) || !fits_i8(arity(x) - 2) {
                    Err(EvalError::ArityViolation)
                } else {
                    let xz = SymV::PartFn(Box::new(SymV::Ap), seq![x, z], arity(x) - 1);
                    Ok(SymV::PartFn(Box::new(SymV::Ap), seq![xz, y], arity(x) - 2))
                }
            },
            SymV::B => if operands.len() != 3 {
                Err(EvalError::ArityViolation)
            } else {
                let x = operands[0];
                let y = operands[1];
                let z = operands[2];
                let yz = SymV::PartFn(Box::new(SymV::Ap), seq![y, z], 0);
                Ok(SymV::PartFn(Box::new(SymV::Ap), seq![x, yz], 0))
            },
            _ => Err(EvalError::NotImplemented),
        }
    }
}

/// What [`crate::eval::interpret`] returns: the last statement's body is
/// built into a thunk and deep-forced against the whole program as
/// environment.
pub open spec fn interpret_spec(sts: Seq<StV>, fuel: nat) -> Result<SymV, EvalError> {
    match eval_spec(sts.last().body) {
        Ok(t) => force_spec(t, sts, fuel),
        Err(e) => Err(e),
    }
}

} // verus!
