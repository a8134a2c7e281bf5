//! The executable evaluator: the application spine builder, the forcer, and
//! the builtin semantics, each proved equal to its model in
//! [`crate::semantics`].

use vstd::prelude::*;
use vstd::string::StringSliceAdditionalSpecFns;

use crate::ast::{
    clone_syms, sym_views, sym_views_drop_last, sym_views_index, sym_views_len, sym_views_push,
    EvalError, Identifier, Statement, StV, SymV, Symbol,
};
use crate::semantics::{
    apply_spec, build_spine, canon_all, eval_spec, force_lit1, force_lit2, force_list_spec,
    force_spec, interpret_spec, lookup_spec, push_token_spec, resolve_spec,
};

verus! {

/// The view of an evaluation result: the symbol's view on success, the
/// error unchanged.
pub open spec fn res_view(r: Result<Symbol, EvalError>) -> Result<SymV, EvalError> {
    match r {
        Ok(s) => Ok(s@),
        Err(e) => Err(e),
    }
}

/// The view of a forced element list.
pub open spec fn res_views(r: Result<Vec<Symbol>, EvalError>) -> Result<Seq<SymV>, EvalError> {
    match r {
        Ok(s) => Ok(sym_views(s@)),
        Err(e) => Err(e),
    }
}

/// The view of a forced literal.
pub open spec fn res_lit(r: Result<i64, EvalError>) -> Result<int, EvalError> {
    match r {
        Ok(x) => Ok(x as int),
        Err(e) => Err(e),
    }
}

/// The view of a pair of forced literals.
pub open spec fn res_lit_pair(r: Result<(i64, i64), EvalError>) -> Result<
    (int, int),
    EvalError,
> {
    match r {
        Ok((x, y)) => Ok((x as int, y as int)),
        Err(e) => Err(e),
    }
}

/// The views of a whole environment, statement by statement.
pub open spec fn env_views(env: Seq<Statement>) -> Seq<StV> {
    crate::ast::st_views(env)
}

/// Find the latest binding of variable `idx` in the environment.
fn lookup<'a>(env: &'a Vec<Statement>, idx: usize) -> (r: Option<&'a Vec<Symbol>>)
    ensures
        match r {
            Some(body) => lookup_spec(env_views(env@), idx as nat) == Some(sym_views(body@)),
            None => lookup_spec(env_views(env@), idx as nat) is None,
        },
{
    let ghost target = lookup_spec(env_views(env@), idx as nat);
    let mut i: usize = env.len();
    proof {
        assert(env_views(env@).take(env@.len() as int) =~= env_views(env@));
    }
    while i > 0
        invariant
            i <= env.len(),
            lookup_spec(env_views(env@).take(i as int), idx as nat) == lookup_spec(
                env_views(env@),
                idx as nat,
            ),
        decreases i,
    {
        i = i - 1;
        proof {
            assert(env_views(env@).take(i as int + 1).drop_last() =~= env_views(env@).take(
                i as int,
            ));
            assert(env_views(env@).take(i as int + 1).last() == env@[i as int]@);
        }
        match &env[i].0 {
            Identifier::Var(j) => {
                if *j == idx {
                    return Some(&env[i].1);
                }
            },
            Identifier::Name(_) => {},
        }
    }
    proof {
        assert(env_views(env@).take(0) =~= Seq::<StV>::empty());
    }
    None
}

/// One step of the spine builder: transform the working stack by one
/// (already canonicalized) token.
fn eval_thunks(op: &Symbol, stack: &mut Vec<Symbol>) -> (r: Option<EvalError>)
    ensures
        match r {
            None => push_token_spec(op@, sym_views(old(stack)@)) == Ok::<Seq<SymV>, EvalError>(
                sym_views(final(stack)@),
            ),
            Some(e) => push_token_spec(op@, sym_views(old(stack)@)) == Err::<
                Seq<SymV>,
                EvalError,
            >(e) && final(stack)@ == old(stack)@,
        },
{
    proof {
        sym_views_len(stack@);
    }
    match op {
        Symbol::PartFn(callee, _, remaining) => {
            if !matches!(&**callee, Symbol::Ap) {
                proof {
                    crate::ast::lemma_view_tags(&**callee);
                }
                return Some(EvalError::TypeMismatch);
            }
            proof {
                crate::ast::lemma_view_tags(&**callee);
            }
            if *remaining <= 0 {
                return Some(EvalError::ArityViolation);
            }
            let arg = match stack.pop() {
                Some(a) => a,
                None => {
                    return Some(EvalError::ArityViolation);
                },
            };
            let args_vec = vec![op.clone(), arg];
            proof {
                sym_views_drop_last(old(stack)@);
                sym_views_index(old(stack)@, old(stack)@.len() - 1);
                sym_views_index(args_vec@, 0);
                sym_views_index(args_vec@, 1);
                assert(sym_views(args_vec@) =~= seq![op@, old(stack)@.last()@]);
            }
            let wrapped = Symbol::PartFn(Box::new(Symbol::Ap), args_vec, *remaining - 1);
            stack.push(wrapped);
            proof {
                sym_views_push(old(stack)@.drop_last(), stack@.last());
            }
            None
        },
        Symbol::Ap => {
            if stack.len() < 2 {
                return Some(EvalError::ArityViolation);
            }
            let fun = stack.pop().unwrap();
            let arg = stack.pop().unwrap();
            let n = fun.num_args();
            if n == i8::MIN {
                proof {
                    sym_views_index(old(stack)@, old(stack)@.len() - 1);
                }
                stack.push(arg);
                stack.push(fun);
                proof {
                    assert(stack@ =~= old(stack)@);
                }
                return Some(EvalError::ArityViolation);
            }
            let args_vec = vec![fun, arg];
            proof {
                sym_views_drop_last(old(stack)@);
                sym_views_drop_last(old(stack)@.drop_last());
                sym_views_index(old(stack)@, old(stack)@.len() - 1);
                sym_views_index(old(stack)@, old(stack)@.len() - 2);
                sym_views_index(args_vec@, 0);
                sym_views_index(args_vec@, 1);
                assert(sym_views(args_vec@) =~= seq![
                    old(stack)@.last()@,
                    old(stack)@[old(stack)@.len() - 2]@,
                ]);
            }
            let wrapped = Symbol::PartFn(Box::new(Symbol::Ap), args_vec, n - 1);
            stack.push(wrapped);
            proof {
                sym_views_push(old(stack)@.drop_last().drop_last(), stack@.last());
            }
            None
        },
        _ => {
            proof {
                crate::ast::lemma_view_tags(op);
            }
            stack.push(op.clone());
            proof {
                sym_views_push(old(stack)@, stack@.last());
            }
            None
        },
    }
}

/// Canonicalize every token of a statement body.
fn lower_symbols(instructions: &Vec<Symbol>) -> (r: Vec<Symbol>)
    ensures
        sym_views(r@) == canon_all(sym_views(instructions@)),
{
    let mut r: Vec<Symbol> = Vec::new();
    let mut i: usize = 0;
    while i < instructions.len()
        invariant
            i <= instructions.len(),
            r@.len() == i,
            forall|j: int|
                0 <= j < i ==> #[trigger] r@[j]@ == crate::ast::canon_spec(
                    instructions@[j]@,
                ),
        decreases instructions.len() - i,
    {
        let lowered = instructions[i].canonicalize();
        r.push(lowered);
        i = i + 1;
    }
    proof {
        sym_views_len(r@);
        sym_views_len(instructions@);
        assert forall|j: int| 0 <= j < r@.len() implies #[trigger] sym_views(r@)[j] == canon_all(
            sym_views(instructions@),
        )[j] by {
            sym_views_index(r@, j);
            sym_views_index(instructions@, j);
        }
        assert(sym_views(r@) =~= canon_all(sym_views(instructions@)));
    }
    r
}

/// Build the root thunk for a statement body: canonicalize every token,
/// then fold the reversed token stream through the spine builder.
pub fn eval(instructions: &Vec<Symbol>, _vars: &Vec<Statement>) -> (r: Result<Symbol, EvalError>)
    ensures
        res_view(r) == eval_spec(sym_views(instructions@)),
{
    let lowered = lower_symbols(instructions);
    let ghost toks = canon_all(sym_views(instructions@));
    let mut stack: Vec<Symbol> = Vec::new();
    let mut i: usize = lowered.len();
    proof {
        sym_views_len(lowered@);
        assert(sym_views(lowered@).take(i as int) =~= sym_views(lowered@));
        assert(sym_views(stack@) =~= Seq::<SymV>::empty());
    }
    while i > 0
        invariant
            i <= lowered@.len(),
            toks == canon_all(sym_views(instructions@)),
            sym_views(lowered@) == toks,
            sym_views(lowered@).len() == lowered@.len(),
            build_spine(toks, Seq::empty()) == build_spine(
                toks.take(i as int),
                sym_views(stack@),
            ),
        decreases i,
    {
        i = i - 1;
        proof {
            assert(toks.take(i as int + 1).drop_last() =~= toks.take(i as int));
            sym_views_index(lowered@, i as int);
            assert(toks.take(i as int + 1).last() == lowered@[i as int]@);
        }
        match eval_thunks(&lowered[i], &mut stack) {
            None => {},
            Some(e) => {
                return Err(e);
            },
        }
    }
    proof {
        assert(toks.take(0) =~= Seq::<SymV>::empty());
        sym_views_len(stack@);
    }
    if stack.len() == 0 {
        Err(EvalError::ArityViolation)
    } else {
        proof {
            sym_views_index(stack@, stack@.len() - 1);
        }
        let root = stack.pop().unwrap();
        Ok(root)
    }
}

/// Clone all operands after the first: the bound-argument tail of a
/// partial application.
fn tail_of(args: &Vec<Symbol>) -> (r: Vec<Symbol>)
    requires
        args@.len() >= 1,
    ensures
        sym_views(r@) == sym_views(args@).drop_first(),
{
    let mut r: Vec<Symbol> = Vec::new();
    let mut i: usize = 1;
    while i < args.len()
        invariant
            1 <= i <= args@.len(),
            r@.len() == i - 1,
            forall|j: int| 0 <= j < i - 1 ==> #[trigger] r@[j]@ == args@[j + 1]@,
        decreases args@.len() - i,
    {
        let e = args[i].clone();
        r.push(e);
        i = i + 1;
    }
    proof {
        sym_views_len(r@);
        sym_views_len(args@);
        assert forall|j: int| 0 <= j < r@.len() implies #[trigger] sym_views(r@)[j] == sym_views(
            args@,
        ).drop_first()[j] by {
            sym_views_index(r@, j);
            sym_views_index(args@, j + 1);
        }
        assert(sym_views(r@) =~= sym_views(args@).drop_first());
    }
    r
}

/// Force the last operand to an integer literal.
fn lit1(operands: &Vec<Symbol>, env: &Vec<Statement>, fuel: u64) -> (r: Result<i64, EvalError>)
    ensures
        res_lit(r) == force_lit1(sym_views(operands@), env_views(env@), fuel as nat),
    decreases fuel, 1int,
{
    proof {
        sym_views_len(operands@);
    }
    if operands.len() < 1 {
        return Err(EvalError::ArityViolation);
    }
    proof {
        sym_views_index(operands@, operands@.len() - 1);
    }
    match operands[operands.len() - 1].force(env, fuel) {
        Ok(Symbol::Lit(x)) => Ok(x),
        Ok(other) => {
            proof {
                crate::ast::lemma_view_tags(&other);
            }
            Err(EvalError::TypeMismatch)
        },
        Err(e) => Err(e),
    }
}

/// Force the last two operands to integer literals; the next-to-last is
/// the left argument.
fn lit2(operands: &Vec<Symbol>, env: &Vec<Statement>, fuel: u64) -> (r: Result<
    (i64, i64),
    EvalError,
>)
    ensures
        res_lit_pair(r) == force_lit2(sym_views(operands@), env_views(env@), fuel as nat),
    decreases fuel, 1int,
{
    proof {
        sym_views_len(operands@);
    }
    if operands.len() < 2 {
        return Err(EvalError::ArityViolation);
    }
    proof {
        sym_views_index(operands@, operands@.len() - 2);
        sym_views_index(operands@, operands@.len() - 1);
    }
    match operands[operands.len() - 2].force(env, fuel) {
        Ok(Symbol::Lit(x)) => match operands[operands.len() - 1].force(env, fuel) {
            Ok(Symbol::Lit(y)) => Ok((x, y)),
            Ok(other) => {
                proof {
                    crate::ast::lemma_view_tags(&other);
                }
                Err(EvalError::TypeMismatch)
            },
            Err(e) => Err(e),
        },
        Ok(first) => {
            proof {
                crate::ast::lemma_view_tags(&first);
            }
            match operands[operands.len() - 1].force(env, fuel) {
                Ok(_) => Err(EvalError::TypeMismatch),
                Err(e) => Err(e),
            }
        },
        Err(e) => Err(e),
    }
}

/// Two raised to the power `x`, for `0 <= x <= 62`.
fn pow2_i64(x: i64) -> (r: i64)
    requires
        0 <= x <= 62,
    ensures
        r as int == vstd::arithmetic::power2::pow2(x as nat),
{
    let mut acc: i64 = 1;
    let mut k: i64 = 0;
    proof {
        vstd::arithmetic::power2::lemma2_to64();
    }
    while k < x
        invariant
            0 <= k <= x <= 62,
            acc as int == vstd::arithmetic::power2::pow2(k as nat),
        decreases x - k,
    {
        proof {
            vstd::arithmetic::power2::lemma_pow2_unfold((k + 1) as nat);
            vstd::arithmetic::power2::lemma2_to64();
            vstd::arithmetic::power2::lemma2_to64_rest();
            assert(vstd::arithmetic::power2::pow2((k + 1) as nat) == 2
                * vstd::arithmetic::power2::pow2(k as nat));
            if k + 1 < 62 {
                vstd::arithmetic::power2::lemma_pow2_strictly_increases((k + 1) as nat, 62);
            }
            assert(vstd::arithmetic::power2::pow2((k + 1) as nat) <= vstd::arithmetic::power2::pow2(
                62,
            ));
            assert(acc as int * 2 == vstd::arithmetic::power2::pow2((k + 1) as nat));
            assert(vstd::arithmetic::power2::pow2(62) == 0x4000000000000000);
            assert(acc as int * 2 <= i64::MAX);
        }
        acc = acc * 2;
        k = k + 1;
    }
    acc
}

/// Deep-force every element of a list literal, left to right.
fn force_list(elems: &Vec<Symbol>, env: &Vec<Statement>, fuel: u64) -> (r: Result<
    Vec<Symbol>,
    EvalError,
>)
    ensures
        res_views(r) == force_list_spec(sym_views(elems@), env_views(env@), fuel as nat),
    decreases fuel, 1int,
{
    let ghost evs = sym_views(elems@);
    let ghost envv = env_views(env@);
    let mut out: Vec<Symbol> = Vec::new();
    let mut i: usize = 0;
    let mut f: u64 = fuel;
    proof {
        sym_views_len(elems@);
        assert(evs.skip(0) =~= evs);
        assert(sym_views(out@) =~= Seq::<SymV>::empty());
        match force_list_spec(evs, envv, fuel as nat) {
            Ok(rest) => {
                assert(sym_views(out@) + rest =~= rest);
            },
            Err(_) => {},
        }
    }
    loop
        invariant
            i <= elems@.len(),
            f <= fuel,
            evs == sym_views(elems@),
            envv == env_views(env@),
            evs.len() == elems@.len(),
            match force_list_spec(evs.skip(i as int), envv, f as nat) {
                Ok(rest) => force_list_spec(evs, envv, fuel as nat) == Ok::<Seq<SymV>, EvalError>(sym_views(out@) + rest),
                Err(e) => force_list_spec(evs, envv, fuel as nat) == Err::<Seq<SymV>, EvalError>(
                    e,
                ),
            },
        decreases f,
    {
        if f == 0 {
            return Err(EvalError::Divergence);
        }
        if i == elems.len() {
            proof {
                assert(evs.skip(i as int) =~= Seq::<SymV>::empty());
                assert(sym_views(out@) + Seq::<SymV>::empty() =~= sym_views(out@));
            }
            return Ok(out);
        }
        proof {
            sym_views_index(elems@, i as int);
            assert(evs.skip(i as int)[0] == evs[i as int]);
            assert(evs.skip(i as int).drop_first() =~= evs.skip(i as int + 1));
        }
        match elems[i].force(env, f - 1) {
            Ok(fv) => {
                let ghost out_old = out@;
                let ghost fvv = fv@;
                out.push(fv);
                proof {
                    sym_views_push(out_old, out@.last());
                    let next = force_list_spec(evs.skip(i as int + 1), envv, (f - 1) as nat);
                    match next {
                        Ok(rest2) => {
                            assert(sym_views(out_old) + (seq![fvv] + rest2) =~= sym_views(out@)
                                + rest2);
                        },
                        Err(_) => {},
                    }
                }
                i = i + 1;
                f = f - 1;
            },
            Err(e) => {
                return Err(e);
            },
        }
    }
}

impl Symbol {
    /// Deep-force this expression: reduce it and everything reachable
    /// inside it to normal form.
    pub fn force(&self, env: &Vec<Statement>, fuel: u64) -> (r: Result<Symbol, EvalError>)
        ensures
            res_view(r) == force_spec(self@, env_views(env@), fuel as nat),
        decreases fuel, 0int,
    {
        if fuel == 0 {
            return Err(EvalError::Divergence);
        }
        match self {
            Symbol::List(v) => match force_list(v, env, fuel - 1) {
                Ok(out) => Ok(Symbol::List(out)),
                Err(e) => Err(e),
            },
            Symbol::Pair(hd, tl) => match (**hd).force(env, fuel - 1) {
                Ok(h) => match (**tl).force(env, fuel - 1) {
                    Ok(t) => Ok(Symbol::Pair(Box::new(h), Box::new(t))),
                    Err(e) => Err(e),
                },
                Err(e) => Err(e),
            },
            _ => {
                proof {
                    crate::ast::lemma_view_tags(self);
                }
                force_resolve(self.clone(), env, fuel - 1)
            },
        }
    }
}

/// Weak-head reduction: loop on the thunk's outward tag, reducing saturated
/// redexes and resolving variables until a value appears.
fn force_resolve(op: Symbol, env: &Vec<Statement>, fuel: u64) -> (r: Result<Symbol, EvalError>)
    ensures
        res_view(r) == resolve_spec(op@, env_views(env@), fuel as nat),
    decreases fuel, 3int,
{
    let ghost target = resolve_spec(op@, env_views(env@), fuel as nat);
    let ghost envv = env_views(env@);
    let mut cur = op;
    let mut f: u64 = fuel;
    loop
        invariant
            f <= fuel,
            envv == env_views(env@),
            target == resolve_spec(op@, env_views(env@), fuel as nat),
            resolve_spec(cur@, envv, f as nat) == target,
        decreases f,
    {
        if f == 0 {
            return Err(EvalError::Divergence);
        }
        match cur {
            Symbol::PartFn(callee, args, remaining) => {
                if remaining == 0 {
                    proof {
                        sym_views_len(args@);
                    }
                    if args.len() == 0 {
                        return Err(EvalError::ArityViolation);
                    }
                    proof {
                        sym_views_index(args@, 0);
                    }
                    let hd = args[0].clone();
                    let tl = tail_of(&args);
                    match apply(&hd, &tl, env, f - 1) {
                        Ok(next) => {
                            cur = next;
                            f = f - 1;
                        },
                        Err(e) => {
                            return Err(e);
                        },
                    }
                } else {
                    return Ok(Symbol::PartFn(callee, args, remaining));
                }
            },
            Symbol::Var(idx) => match lookup(env, idx) {
                Some(body) => match eval(body, env) {
                    Ok(next) => {
                        cur = next;
                        f = f - 1;
                    },
                    Err(e) => {
                        return Err(e);
                    },
                },
                None => {
                    return Err(EvalError::UnboundIdentifier);
                },
            },
            Symbol::Pair(hd, tl) => match (*hd).force(env, f - 1) {
                Ok(h) => match (*tl).force(env, f - 1) {
                    Ok(t) => {
                        return Ok(Symbol::Pair(Box::new(h), Box::new(t)));
                    },
                    Err(e) => {
                        return Err(e);
                    },
                },
                Err(e) => {
                    return Err(e);
                },
            },
            other => {
                proof {
                    crate::ast::lemma_view_tags(&other);
                }
                return Ok(other);
            },
        }
    }
}

/// All grid points the checkerboard builtin enumerates: even `i` up to `x`
/// (outer) paired with even `j` up to `y` (inner), row-major.
fn checkerboard_pairs(x: i64, y: i64) -> (r: Vec<Symbol>)
    ensures
        sym_views(r@) == crate::semantics::cb_pairs(x as int, y as int),
{
    let ghost nx_spec = crate::semantics::cb_count(x as int);
    let ghost ny_spec = crate::semantics::cb_count(y as int);
    let mut out: Vec<Symbol> = Vec::new();
    proof {
        assert(sym_views(out@) =~= Seq::<SymV>::empty());
        vstd::arithmetic::div_mod::lemma_fundamental_div_mod(x as int, 2);
        vstd::arithmetic::div_mod::lemma_fundamental_div_mod(y as int, 2);
    }
    if x < 0 || y < 0 {
        proof {
            cb_rows_empty(nx_spec);
        }
        return out;
    }
    let nx: u64 = (x as u64) / 2 + 1;
    let ny: u64 = (y as u64) / 2 + 1;
    proof {
        assert(nx as int == nx_spec);
        assert(ny as int == ny_spec);
    }
    let mut ki: u64 = 0;
    while ki < nx
        invariant
            0 <= x,
            0 <= y,
            ki <= nx,
            nx as int == nx_spec,
            ny as int == ny_spec,
            nx_spec == crate::semantics::cb_count(x as int),
            ny_spec == crate::semantics::cb_count(y as int),
            2 * (nx as int - 1) <= x as int,
            2 * (ny as int - 1) <= y as int,
            sym_views(out@) == crate::semantics::cb_rows(ki as nat, ny as nat),
        decreases nx - ki,
    {
        let ival: i64 = 2 * (ki as i64);
        let mut kj: u64 = 0;
        proof {
            assert(sym_views(out@) + crate::semantics::cb_row(ival as int, 0) =~= sym_views(
                out@,
            ));
        }
        let ghost rows_before = sym_views(out@);
        while kj < ny
            invariant
                0 <= y,
                kj <= ny,
                ki < nx,
                nx as int == nx_spec,
                ny as int == ny_spec,
                2 * (nx as int - 1) <= x as int,
                2 * (ny as int - 1) <= y as int,
                ival == 2 * (ki as i64),
                ival as int == 2 * (ki as int),
                rows_before == crate::semantics::cb_rows(ki as nat, ny as nat),
                sym_views(out@) == rows_before + crate::semantics::cb_row(
                    ival as int,
                    kj as nat,
                ),
            decreases ny - kj,
        {
            let jval: i64 = 2 * (kj as i64);
            let cell_hd = Symbol::Lit(ival);
            let cell_tl = Symbol::Lit(jval);
            proof {
                assert(cell_hd@ == SymV::Lit(ival as int));
                assert(cell_tl@ == SymV::Lit(jval as int));
            }
            let cell = Symbol::Pair(Box::new(cell_hd), Box::new(cell_tl));
            proof {
                assert(cell@ == SymV::Pair(
                    Box::new(SymV::Lit(ival as int)),
                    Box::new(SymV::Lit(jval as int)),
                ));
            }
            let ghost out_old = out@;
            out.push(cell);
            proof {
                sym_views_push(out_old, out@.last());
                assert(rows_before + crate::semantics::cb_row(ival as int, (kj + 1) as nat)
                    =~= (rows_before + crate::semantics::cb_row(ival as int, kj as nat)).push(
                    SymV::Pair(Box::new(SymV::Lit(ival as int)), Box::new(SymV::Lit(jval as int))),
                ));
            }
            kj = kj + 1;
        }
        ki = ki + 1;
        proof {
            assert(sym_views(out@) == crate::semantics::cb_rows(ki as nat, ny as nat));
        }
    }
    out
}

/// Builtin semantics: dispatch a saturated call on the callee's tag.
/// Operands stay lazy unless a concrete literal or structure is required.
#[verifier::rlimit(100)]
fn apply(op: &Symbol, operands: &Vec<Symbol>, env: &Vec<Statement>, fuel: u64) -> (r: Result<
    Symbol,
    EvalError,
>)
    ensures
        res_view(r) == apply_spec(
            op@,
            sym_views(operands@),
            env_views(env@),
            fuel as nat,
        ),
    decreases fuel, 2int,
{
    proof {
        sym_views_len(operands@);
    }
    if fuel == 0 {
        return Err(EvalError::Divergence);
    }
    let subfuel = fuel - 1;
    let ghost ops = sym_views(operands@);
    let ghost envv = env_views(env@);
    match op {
        Symbol::Lit(_) => Ok(op.clone()),
        Symbol::Eq => {
            if operands.len() != 2 {
                return Err(EvalError::ArityViolation);
            }
            proof {
                sym_views_index(operands@, 0);
                sym_views_index(operands@, 1);
            }
            match operands[0].force(env, subfuel) {
                Ok(a) => match operands[1].force(env, subfuel) {
                    Ok(b) => Ok(
                        if a == b {
                            Symbol::T
                        } else {
                            Symbol::F
                        },
                    ),
                    Err(e) => Err(e),
                },
                Err(e) => Err(e),
            }
        },
        Symbol::Inc => match lit1(operands, env, subfuel) {
            Ok(x) => match x.checked_add(1) {
                Some(z) => Ok(Symbol::Lit(z)),
                None => Err(EvalError::Overflow),
            },
            Err(e) => Err(e),
        },
        Symbol::Dec => match lit1(operands, env, subfuel) {
            Ok(x) => match x.checked_sub(1) {
                Some(z) => Ok(Symbol::Lit(z)),
                None => Err(EvalError::Overflow),
            },
            Err(e) => Err(e),
        },
        Symbol::Add => match lit2(operands, env, subfuel) {
            Ok((x, y)) => match x.checked_add(y) {
                Some(z) => Ok(Symbol::Lit(z)),
                None => Err(EvalError::Overflow),
            },
            Err(e) => Err(e),
        },
        Symbol::Var(idx) => match lookup(env, *idx) {
            Some(body) => eval(body, env),
            None => Err(EvalError::UnboundIdentifier),
        },
        Symbol::Mul => match lit2(operands, env, subfuel) {
            Ok((x, y)) => match x.checked_mul(y) {
                Some(z) => Ok(Symbol::Lit(z)),
                None => Err(EvalError::Overflow),
            },
            Err(e) => Err(e),
        },
        Symbol::Div => match lit2(operands, env, subfuel) {
            Ok((x, y)) => {
                if y == 0 {
                    return Err(EvalError::DivideByZero);
                }
                match x.checked_div(y) {
                    Some(z) => Ok(Symbol::Lit(z)),
                    None => Err(EvalError::Overflow),
                }
            },
            Err(e) => Err(e),
        },
        Symbol::T => {
            if operands.len() != 2 {
                return Err(EvalError::ArityViolation);
            }
            proof {
                sym_views_index(operands@, 0);
            }
            Ok(operands[0].clone())
        },
        Symbol::F => {
            if operands.len() != 2 {
                return Err(EvalError::ArityViolation);
            }
            proof {
                sym_views_index(operands@, 1);
            }
            Ok(operands[1].clone())
        },
        Symbol::Lt => match lit2(operands, env, subfuel) {
            Ok((x, y)) => Ok(
                if x < y {
                    Symbol::T
                } else {
                    Symbol::F
                },
            ),
            Err(e) => Err(e),
        },
        Symbol::Mod => {
            if operands.len() < 1 {
                return Err(EvalError::ArityViolation);
            }
            proof {
                sym_views_index(operands@, operands@.len() - 1);
            }
            match operands[operands.len() - 1].force(env, subfuel) {
                Ok(v) => Ok(Symbol::Modulated(Box::new(v))),
                Err(e) => Err(e),
            }
        },
        Symbol::Dem => {
            if operands.len() < 1 {
                return Err(EvalError::ArityViolation);
            }
            proof {
                sym_views_index(operands@, operands@.len() - 1);
            }
            match operands[operands.len() - 1].force(env, subfuel) {
                Ok(Symbol::Modulated(payload)) => Ok(*payload),
                Ok(other) => {
                    proof {
                        crate::ast::lemma_view_tags(&other);
                    }
                    Err(EvalError::TypeMismatch)
                },
                Err(e) => Err(e),
            }
        },
        Symbol::Neg => match lit1(operands, env, subfuel) {
            Ok(x) => match (0 as i64).checked_sub(x) {
                Some(z) => Ok(Symbol::Lit(z)),
                None => Err(EvalError::Overflow),
            },
            Err(e) => Err(e),
        },
        Symbol::Pwr2 => match lit1(operands, env, subfuel) {
            Ok(x) => {
                if 0 <= x && x <= 62 {
                    Ok(Symbol::Lit(pow2_i64(x)))
                } else {
                    Err(EvalError::Overflow)
                }
            },
            Err(e) => Err(e),
        },
        Symbol::I => {
            if operands.len() != 1 {
                return Err(EvalError::ArityViolation);
            }
            proof {
                sym_views_index(operands@, 0);
            }
            Ok(operands[0].clone())
        },
        Symbol::Cons => {
            if operands.len() != 2 {
                return Err(EvalError::ArityViolation);
            }
            proof {
                sym_views_index(operands@, 0);
                sym_views_index(operands@, 1);
            }
            let hd = operands[0].clone();
            let tl = operands[1].clone();
            Ok(Symbol::Pair(Box::new(hd), Box::new(tl)))
        },
        Symbol::Car => {
            if operands.len() < 1 {
                return Err(EvalError::ArityViolation);
            }
            proof {
                sym_views_index(operands@, operands@.len() - 1);
            }
            match operands[operands.len() - 1].force(env, subfuel) {
                Ok(Symbol::Pair(hd, _)) => Ok(*hd),
                Ok(other) => {
                    proof {
                        crate::ast::lemma_view_tags(&other);
                    }
                    Err(EvalError::TypeMismatch)
                },
                Err(e) => Err(e),
            }
        },
        Symbol::Cdr => {
            if operands.len() < 1 {
                return Err(EvalError::ArityViolation);
            }
            proof {
                sym_views_index(operands@, operands@.len() - 1);
            }
            match operands[operands.len() - 1].force(env, subfuel) {
                Ok(Symbol::Pair(_, tl)) => Ok(*tl),
                Ok(other) => {
                    proof {
                        crate::ast::lemma_view_tags(&other);
                    }
                    Err(EvalError::TypeMismatch)
                },
                Err(e) => Err(e),
            }
        },
        Symbol::Nil => Ok(Symbol::Nil),
        Symbol::IsNil => {
            if operands.len() < 1 {
                return Err(EvalError::ArityViolation);
            }
            proof {
                sym_views_index(operands@, operands@.len() - 1);
            }
            match operands[operands.len() - 1].force(env, subfuel) {
                Ok(v) => {
                    proof {
                        crate::ast::lemma_view_tags(&v);
                    }
                    Ok(
                        if matches!(v, Symbol::Nil) {
                            Symbol::T
                        } else {
                            Symbol::F
                        },
                    )
                },
                Err(e) => Err(e),
            }
        },
        Symbol::List(_) => Err(EvalError::TypeMismatch),
        Symbol::Checkerboard => match lit2(operands, env, subfuel) {
            Ok((x, y)) => {
                let grid = checkerboard_pairs(x, y);
                let lst = Symbol::List(grid);
                Ok(lst.canonicalize())
            },
            Err(e) => Err(e),
        },
        Symbol::If0 => {
            if operands.len() != 3 {
                return Err(EvalError::ArityViolation);
            }
            proof {
                sym_views_index(operands@, 0);
                sym_views_index(operands@, 1);
                sym_views_index(operands@, 2);
            }
            match operands[0].force(env, subfuel) {
                Ok(v) => {
                    proof {
                        crate::ast::lemma_view_tags(&v);
                    }
                    Ok(
                        if matches!(v, Symbol::Lit(0)) {
                            operands[1].clone()
                        } else {
                            operands[2].clone()
                        },
                    )
                },
                Err(e) => Err(e),
            }
        },
        Symbol::PartFn(_, args, remaining) => {
            proof {
                sym_views_len(args@);
            }
            if args.len() == 0 {
                return Err(EvalError::ArityViolation);
            }
            if *remaining < 0 || (*remaining as usize) > operands.len() {
                return Err(EvalError::ArityViolation);
            }
            proof {
                sym_views_index(args@, 0);
            }
            let hd = args[0].clone();
            let mut flat = tail_of(args);
            let start: usize = operands.len() - (*remaining as usize);
            let mut k: usize = start;
            let ghost flat0 = sym_views(args@).drop_first();
            while k < operands.len()
                invariant
                    start <= k <= operands@.len(),
                    ops == sym_views(operands@),
                    ops.len() == operands@.len(),
                    sym_views(flat@) == flat0 + ops.subrange(start as int, k as int),
                decreases operands@.len() - k,
            {
                proof {
                    sym_views_index(operands@, k as int);
                }
                let e = operands[k].clone();
                let ghost flat_old = flat@;
                flat.push(e);
                proof {
                    sym_views_push(flat_old, flat@.last());
                    assert(flat0 + ops.subrange(start as int, k as int + 1) =~= (flat0
                        + ops.subrange(start as int, k as int)).push(ops[k as int]));
                }
                k = k + 1;
            }
            proof {
                assert(ops.subrange(start as int, ops.len() as int) =~= ops.skip(start as int));
            }
            apply(&hd, &flat, env, subfuel)
        },
        Symbol::S => {
            if operands.len() != 3 {
                return Err(EvalError::ArityViolation);
            }
            proof {
                sym_views_index(operands@, 0);
                sym_views_index(operands@, 1);
                sym_views_index(operands@, 2);
            }
            let nx = operands[0].num_args();
            let ny = operands[1].num_args();
            if nx == i8::MIN || ny == i8::MIN {
                return Err(EvalError::ArityViolation);
            }
            let fn0_args = vec![operands[0].clone(), operands[2].clone()];
            let fn1_args = vec![operands[1].clone(), operands[2].clone()];
            proof {
                sym_views_index(fn0_args@, 0);
                sym_views_index(fn0_args@, 1);
                sym_views_index(fn1_args@, 0);
                sym_views_index(fn1_args@, 1);
                sym_views_len(fn0_args@);
                sym_views_len(fn1_args@);
                assert(sym_views(fn0_args@) =~= seq![ops[0], ops[2]]);
                assert(sym_views(fn1_args@) =~= seq![ops[1], ops[2]]);
            }
            let ap0 = Symbol::Ap;
            let ap1 = Symbol::Ap;
            proof {
                assert(ap0@ == SymV::Ap);
                assert(ap1@ == SymV::Ap);
            }
            let fn0 = Symbol::PartFn(Box::new(ap0), fn0_args, nx - 1);
            let fn1 = Symbol::PartFn(Box::new(ap1), fn1_args, ny - 1);
            proof {
                assert(fn0@ == SymV::PartFn(
                    Box::new(SymV::Ap),
                    seq![ops[0], ops[2]],
                    nx - 1 as int,
                ));
                assert(fn1@ == SymV::PartFn(
                    Box::new(SymV::Ap),
                    seq![ops[1], ops[2]],
                    ny - 1 as int,
                ));
            }
            let rem32: i32 = (nx as i32) - 2 + (ny as i32) - 1;
            if rem32 < -128 || rem32 > 127 {
                return Err(EvalError::ArityViolation);
            }
            let outer_args = vec![fn0, fn1];
            proof {
                sym_views_index(outer_args@, 0);
                sym_views_index(outer_args@, 1);
                sym_views_len(outer_args@);
                assert(sym_views(outer_args@) =~= seq![outer_args@[0]@, outer_args@[1]@]);
            }
            let ap2 = Symbol::Ap;
            proof {
                assert(ap2@ == SymV::Ap);
            }
            Ok(Symbol::PartFn(Box::new(ap2), outer_args, rem32 as i8))
        },
        Symbol::C => {
            if operands.len() != 3 {
                return Err(EvalError::ArityViolation);
            }
            proof {
                sym_views_index(operands@, 0);
                sym_views_index(operands@, 1);
                sym_views_index(operands@, 2);
            }
            let nx = operands[0].num_args();
            if nx <= i8::MIN + 1 {
                return Err(EvalError::ArityViolation);
            }
            let xz_args = vec![operands[0].clone(), operands[2].clone()];
            proof {
                sym_views_index(xz_args@, 0);
                sym_views_index(xz_args@, 1);
                sym_views_len(xz_args@);
                assert(sym_views(xz_args@) =~= seq![ops[0], ops[2]]);
            }
            let ap0 = Symbol::Ap;
            proof {
                assert(ap0@ == SymV::Ap);
            }
            let xz = Symbol::PartFn(Box::new(ap0), xz_args, nx - 1);
            proof {
                assert(xz@ == SymV::PartFn(
                    Box::new(SymV::Ap),
                    seq![ops[0], ops[2]],
                    nx - 1 as int,
                ));
            }
            let outer_args = vec![xz, operands[1].clone()];
            proof {
                sym_views_index(outer_args@, 0);
                sym_views_index(outer_args@, 1);
                sym_views_len(outer_args@);
                assert(sym_views(outer_args@) =~= seq![outer_args@[0]@, ops[1]]);
            }
            let ap1 = Symbol::Ap;
            proof {
                assert(ap1@ == SymV::Ap);
            }
            Ok(Symbol::PartFn(Box::new(ap1), outer_args, nx - 2))
        },
        Symbol::B => {
            if operands.len() != 3 {
                return Err(EvalError::ArityViolation);
            }
            proof {
                sym_views_index(operands@, 0);
                sym_views_index(operands@, 1);
                sym_views_index(operands@, 2);
            }
            let yz_args = vec![operands[1].clone(), operands[2].clone()];
            proof {
                sym_views_index(yz_args@, 0);
                sym_views_index(yz_args@, 1);
                sym_views_len(yz_args@);
                assert(sym_views(yz_args@) =~= seq![ops[1], ops[2]]);
            }
            let ap0 = Symbol::Ap;
            proof {
                assert(ap0@ == SymV::Ap);
            }
            let yz = Symbol::PartFn(Box::new(ap0), yz_args, 0);
            proof {
                assert(yz@ == SymV::PartFn(Box::new(SymV::Ap), seq![ops[1], ops[2]], 0));
            }
            let outer_args = vec![operands[0].clone(), yz];
            proof {
                sym_views_index(outer_args@, 0);
                sym_views_index(outer_args@, 1);
                sym_views_len(outer_args@);
                assert(sym_views(outer_args@) =~= seq![ops[0], outer_args@[1]@]);
            }
            let ap1 = Symbol::Ap;
            proof {
                assert(ap1@ == SymV::Ap);
            }
            Ok(Symbol::PartFn(Box::new(ap1), outer_args, 0))
        },
        _ => {
            proof {
                crate::ast::lemma_view_tags(op);
            }
            Err(EvalError::NotImplemented)
        },
    }
}

/// The default bound on reduction depth: a generous guard that turns a
/// runaway reduction into a `Divergence` error instead of a hang.
pub const DEFAULT_FUEL: u64 = 1000000;

/// Evaluate a free-standing instruction sequence against an empty
/// environment and deep-force the result.
pub fn eval_instructions(symbols: &Vec<Symbol>, fuel: u64) -> (r: Result<Symbol, EvalError>)
    ensures
        res_view(r) == (match eval_spec(sym_views(symbols@)) {
            Ok(t) => force_spec(t, Seq::<StV>::empty(), fuel as nat),
            Err(e) => Err(e),
        }),
{
    let vars: Vec<Statement> = Vec::new();
    proof {
        assert(env_views(vars@) =~= Seq::<StV>::empty());
    }
    match eval(symbols, &vars) {
        Ok(t) => t.force(&vars, fuel),
        Err(e) => Err(e),
    }
}

/// Bind every statement into the environment, evaluate the last one's body,
/// and deep-force the result.
pub fn interpret(statements: Vec<Statement>, fuel: u64) -> (r: Result<Symbol, EvalError>)
    requires
        statements@.len() > 0,
    ensures
        res_view(r) == interpret_spec(env_views(statements@), fuel as nat),
{
    let idx = statements.len() - 1;
    proof {
        assert(env_views(statements@).last() == statements@.last()@);
    }
    let root = match eval(&statements[idx].1, &statements) {
        Ok(t) => t,
        Err(e) => {
            return Err(e);
        },
    };
    root.force(&statements, fuel)
}

/// Why a program run failed: the parser rejected a line, or the evaluator
/// stopped.
#[derive(Clone, Copy, Debug, PartialEq, Eq, Structural)]
pub enum RunError {
    Parse(crate::parser::ParseError),
    Eval(EvalError),
}

/// What [`run_with_fuel`] returns for a given program text and fuel.
pub open spec fn run_spec(bs: Seq<u8>, fuel: nat) -> Result<SymV, RunError> {
    match crate::parser::parse_spec(bs) {
        Ok(sts) => match interpret_spec(sts, fuel) {
            Ok(v) => Ok(v),
            Err(e) => Err(RunError::Eval(e)),
        },
        Err(l) => Err(RunError::Parse(crate::parser::ParseError { line: l as usize })),
    }
}

/// Parse a program and evaluate its last statement under the given
/// reduction-depth bound.
pub fn run_with_fuel(input: &str, fuel: u64) -> (r: Result<Symbol, RunError>)
    ensures
        match r {
            Ok(s) => run_spec(input.spec_bytes(), fuel as nat) == Ok::<SymV, RunError>(s@),
            Err(e) => run_spec(input.spec_bytes(), fuel as nat) == Err::<SymV, RunError>(e),
        },
{
    match crate::parser::parse_as_lines(input) {
        Ok(sts) => match interpret(sts, fuel) {
            Ok(v) => Ok(v),
            Err(e) => Err(RunError::Eval(e)),
        },
        Err(pe) => Err(RunError::Parse(pe)),
    }
}

/// Parse a program and evaluate its last statement under the default
/// reduction-depth bound.
pub fn run(input: &str) -> (r: Result<Symbol, RunError>)
    ensures
        match r {
            Ok(s) => run_spec(input.spec_bytes(), DEFAULT_FUEL as nat) == Ok::<SymV, RunError>(
                s@,
            ),
            Err(e) => run_spec(input.spec_bytes(), DEFAULT_FUEL as nat) == Err::<
                SymV,
                RunError,
            >(e),
        },
{
    run_with_fuel(input, DEFAULT_FUEL)
}

/// Every checkerboard row over an empty column range is empty.
proof fn cb_rows_empty(n: nat)
    ensures
        crate::semantics::cb_rows(n, 0) =~= Seq::<SymV>::empty(),
    decreases n,
{
    if n > 0 {
        cb_rows_empty((n - 1) as nat);
    }
}

} // verus!
