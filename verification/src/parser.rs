//! The surface-syntax parser: one statement per line, in the form
//! `<identifier> = <token>*`.  Tokens are separated by blanks; an identifier
//! is either a bare name or a numeric variable reference `:123`; a list
//! literal is written `( a , b )` and nests.  A malformed line is a hard
//! parse failure naming that line; no partial result is returned.

use vstd::prelude::*;
use vstd::string::StringSliceAdditionalSpecFns;

use crate::ast::{IdV, Identifier, Statement, StV, SymV, Symbol};

verus! {

/// A parse failure: the zero-based index of the offending line.
#[derive(Clone, Copy, Debug, PartialEq, Eq, Structural)]
pub struct ParseError {
    pub line: usize,
}

/// Blanks that separate tokens within a line.
pub open spec fn is_ws(b: u8) -> bool {
    b == 32 || b == 9 || b == 13
}

/// ASCII decimal digits.
pub open spec fn is_digit(b: u8) -> bool {
    48 <= b <= 57
}

/// Bytes allowed in a bare name.
pub open spec fn is_name_byte(b: u8) -> bool {
    is_digit(b) || (97 <= b <= 122) || (65 <= b <= 90) || b == 95
}

/// Bytes that may start a bare name: a letter or an underscore.
pub open spec fn is_name_start(b: u8) -> bool {
    (97 <= b <= 122) || (65 <= b <= 90) || b == 95
}

/// The ASCII characters of a byte sequence, one to one.
pub open spec fn ascii_chars(bs: Seq<u8>) -> Seq<char> {
    bs.map_values(|b: u8| b as char)
}

/// The first position at or after `i` that ends a token: a blank or the
/// end of the line.
pub open spec fn token_end(line: Seq<u8>, i: int) -> int
    decreases line.len() - i
        when 0 <= i <= line.len()
{
    if i >= line.len() {
        i
    } else if is_ws(line[i]) {
        i
    } else {
        token_end(line, i + 1)
    }
}

pub proof fn token_end_bounds(line: Seq<u8>, i: int)
    requires
        0 <= i <= line.len(),
    ensures
        i <= token_end(line, i) <= line.len(),
    decreases line.len() - i,
{
    if i < line.len() && !is_ws(line[i]) {
        token_end_bounds(line, i + 1);
    }
}

/// The tokens of a line from position `i` on: maximal runs of non-blank
/// bytes.
pub open spec fn tokenize(line: Seq<u8>, i: int) -> Seq<Seq<u8>>
    decreases line.len() - i
        when 0 <= i <= line.len()
        via tokenize_dec
{
    if i >= line.len() {
        Seq::empty()
    } else if is_ws(line[i]) {
        tokenize(line, i + 1)
    } else {
        seq![line.subrange(i, token_end(line, i))] + tokenize(line, token_end(line, i))
    }
}

#[via_fn]
proof fn tokenize_dec(line: Seq<u8>, i: int) {
    if 0 <= i < line.len() && !is_ws(line[i]) {
        token_end_bounds(line, i + 1);
    }
}

/// Decimal accumulation of digit bytes into a non-positive integer:
/// each digit multiplies the accumulator by ten and subtracts the digit.
/// `None` on a non-digit byte or when the value falls below the smallest
/// 64-bit integer.
pub open spec fn neg_accum(ds: Seq<u8>) -> Option<int>
    decreases ds.len(),
{
    if ds.len() == 0 {
        Some(0)
    } else {
        match neg_accum(ds.drop_last()) {
            Some(a) => if !is_digit(ds.last()) {
                None
            } else {
                let a2 = a * 10 - (ds.last() - 48);
                if a2 < i64::MIN {
                    None
                } else {
                    Some(a2)
                }
            },
            None => None,
        }
    }
}

/// Decimal accumulation of digit bytes into a variable index bounded by
/// the machine word.
pub open spec fn idx_accum(ds: Seq<u8>) -> Option<int>
    decreases ds.len(),
{
    if ds.len() == 0 {
        Some(0)
    } else {
        match idx_accum(ds.drop_last()) {
            Some(a) => if !is_digit(ds.last()) {
                None
            } else {
                let a2 = a * 10 + (ds.last() - 48);
                if a2 > usize::MAX {
                    None
                } else {
                    Some(a2)
                }
            },
            None => None,
        }
    }
}

/// The 64-bit integer a literal token denotes: an optional minus sign and
/// at least one digit.
pub open spec fn parse_int_spec(tok: Seq<u8>) -> Option<int> {
    if tok.len() >= 2 && tok[0] == 45 {
        neg_accum(tok.drop_first())
    } else if tok.len() >= 1 {
        match neg_accum(tok) {
            Some(a) => if a == i64::MIN {
                None
            } else {
                Some(-a)
            },
            None => None,
        }
    } else {
        None
    }
}

/// The variable index a token denotes: a colon and at least one digit.
pub open spec fn parse_var_spec(tok: Seq<u8>) -> Option<int> {
    if tok.len() >= 2 && tok[0] == 58 {
        idx_accum(tok.drop_first())
    } else {
        None
    }
}

/// The symbol a single non-paren token denotes: a combinator keyword, a
/// variable reference, or an integer literal.
pub open spec fn atom_sym(tok: Seq<u8>) -> Option<SymV> {
    if tok == seq![97u8, 112u8] {
        Some(SymV::Ap)
    } else if tok == seq![99u8, 111u8, 110u8, 115u8] {
        Some(SymV::Cons)
    } else if tok == seq![99u8, 97u8, 114u8] {
        Some(SymV::Car)
    } else if tok == seq![99u8, 100u8, 114u8] {
        Some(SymV::Cdr)
    } else if tok == seq![110u8, 105u8, 108u8] {
        Some(SymV::Nil)
    } else if tok == seq![101u8, 113u8] {
        Some(SymV::Eq)
    } else if tok == seq![108u8, 116u8] {
        Some(SymV::Lt)
    } else if tok == seq![110u8, 101u8, 103u8] {
        Some(SymV::Neg)
    } else if tok == seq![105u8, 110u8, 99u8] {
        Some(SymV::Inc)
    } else if tok == seq![100u8, 101u8, 99u8] {
        Some(SymV::Dec)
    } else if tok == seq![115u8] {
        Some(SymV::S)
    } else if tok == seq![99u8] {
        Some(SymV::C)
    } else if tok == seq![98u8] {
        Some(SymV::B)
    } else if tok == seq![105u8] {
        Some(SymV::I)
    } else if tok == seq![116u8] {
        Some(SymV::T)
    } else if tok == seq![102u8] {
        Some(SymV::F)
    } else if tok == seq![109u8, 117u8, 108u8] {
        Some(SymV::Mul)
    } else if tok == seq![97u8, 100u8, 100u8] {
        Some(SymV::Add)
    } else if tok == seq![100u8, 105u8, 118u8] {
        Some(SymV::Div)
    } else if tok == seq![105u8, 115u8, 110u8, 105u8, 108u8] {
        Some(SymV::IsNil)
    } else if tok == seq![109u8, 111u8, 100u8] {
        Some(SymV::Mod)
    } else if tok == seq![100u8, 101u8, 109u8] {
        Some(SymV::Dem)
    } else if tok == seq![105u8, 102u8, 48u8] {
        Some(SymV::If0)
    } else {
        match parse_var_spec(tok) {
            Some(idx) => Some(SymV::Var(idx as nat)),
            None => match parse_int_spec(tok) {
                Some(v) => Some(SymV::Lit(v)),
                None => None,
            },
        }
    }
}

/// Parse one symbol starting at token `i`: an atom, the empty list
/// `( )`, or a list `( a , b )` whose elements may nest.  Returns the
/// symbol and the index of the first unconsumed token.
pub open spec fn parse_sym_spec(toks: Seq<Seq<u8>>, i: int, fuel: nat) -> Option<(SymV, int)>
    decreases fuel, 0int,
{
    if fuel == 0 {
        None
    } else if i < 0 || i >= toks.len() {
        None
    } else if toks[i] == seq![40u8] {
        if i + 1 < toks.len() && toks[i + 1] == seq![41u8] {
            Some((SymV::Nil, i + 2))
        } else {
            match parse_elems_spec(toks, i + 1, (fuel - 1) as nat) {
                Some((elems, j)) => Some((SymV::List(elems), j)),
                None => None,
            }
        }
    } else {
        match atom_sym(toks[i]) {
            Some(v) => Some((v, i + 1)),
            None => None,
        }
    }
}

/// Parse the comma-separated elements of a non-empty list, up to and
/// including the closing paren.
pub open spec fn parse_elems_spec(toks: Seq<Seq<u8>>, i: int, fuel: nat) -> Option<
    (Seq<SymV>, int),
>
    decreases fuel, 1int,
{
    if fuel == 0 {
        None
    } else {
        match parse_sym_spec(toks, i, fuel) {
            Some((v, j)) => if 0 <= j < toks.len() && toks[j] == seq![44u8] {
                match parse_elems_spec(toks, j + 1, (fuel - 1) as nat) {
                    Some((rest, k)) => Some((seq![v] + rest, k)),
                    None => None,
                }
            } else if 0 <= j < toks.len() && toks[j] == seq![41u8] {
                Some((seq![v], j + 1))
            } else {
                None
            },
            None => None,
        }
    }
}

/// Parse a whole statement body: symbols until the tokens run out.
pub open spec fn parse_body_spec(toks: Seq<Seq<u8>>, i: int, fuel: nat) -> Option<Seq<SymV>>
    decreases fuel, 2int,
{
    if i == toks.len() {
        Some(Seq::empty())
    } else if fuel == 0 {
        None
    } else {
        match parse_sym_spec(toks, i, fuel) {
            Some((v, j)) => match parse_body_spec(toks, j, (fuel - 1) as nat) {
                Some(rest) => Some(seq![v] + rest),
                None => None,
            },
            None => None,
        }
    }
}

/// The identifier a left-hand-side token denotes: a numeric variable
/// reference or a bare name.
pub open spec fn parse_id_spec(tok: Seq<u8>) -> Option<IdV> {
    match parse_var_spec(tok) {
        Some(idx) => Some(IdV::Var(idx as nat)),
        None => if tok.len() >= 1 && is_name_start(tok[0]) && (forall|k: int|
            0 <= k < tok.len() ==> is_name_byte(#[trigger] tok[k])) {
            Some(IdV::Name(ascii_chars(tok)))
        } else {
            None
        },
    }
}

/// Parse one line: an identifier, an equals sign, and a statement body.
pub open spec fn parse_line_spec(line: Seq<u8>) -> Option<StV> {
    let toks = tokenize(line, 0);
    if toks.len() < 2 {
        None
    } else if toks[1] != seq![61u8] {
        None
    } else {
        match parse_id_spec(toks[0]) {
            Some(id) => match parse_body_spec(toks, 2, (toks.len() + 1) as nat) {
                Some(body) => Some(StV { id, body }),
                None => None,
            },
            None => None,
        }
    }
}

/// The end of the line starting at `p`: the next newline or the end of
/// the input.
pub open spec fn line_end(bs: Seq<u8>, p: int) -> int
    decreases bs.len() - p
        when 0 <= p <= bs.len()
{
    if p >= bs.len() {
        p
    } else if bs[p] == 10 {
        p
    } else {
        line_end(bs, p + 1)
    }
}

pub proof fn line_end_bounds(bs: Seq<u8>, p: int)
    requires
        0 <= p <= bs.len(),
    ensures
        p <= line_end(bs, p) <= bs.len(),
    decreases bs.len() - p,
{
    if p < bs.len() && bs[p] != 10 {
        line_end_bounds(bs, p + 1);
    }
}

/// Parse the statements from position `p` on, counting lines from
/// `line_no`; the error is the index of the first malformed line.
pub open spec fn parse_lines_spec(bs: Seq<u8>, p: int, line_no: nat) -> Result<Seq<StV>, nat>
    decreases bs.len() - p
        when 0 <= p <= bs.len()
        via parse_lines_dec
{
    let e = line_end(bs, p);
    match parse_line_spec(bs.subrange(p, e)) {
        None => Err(line_no),
        Some(st) => if e >= bs.len() {
            Ok(seq![st])
        } else {
            match parse_lines_spec(bs, e + 1, line_no + 1) {
                Ok(rest) => Ok(seq![st] + rest),
                Err(l) => Err(l),
            }
        },
    }
}

#[via_fn]
proof fn parse_lines_dec(bs: Seq<u8>, p: int, line_no: nat) {
    if 0 <= p <= bs.len() {
        line_end_bounds(bs, p);
    }
}

/// What [`parse_as_lines`] returns: the statement views of the whole
/// input, or the index of the first malformed line.
pub open spec fn parse_spec(bs: Seq<u8>) -> Result<Seq<StV>, nat> {
    parse_lines_spec(bs, 0, 0)
}

/// The views of a token list, token by token.
pub open spec fn tok_views(s: Seq<Vec<u8>>) -> Seq<Seq<u8>> {
    s.map_values(|v: Vec<u8>| v@)
}

/// Copy a byte vector.
fn copy_bytes(v: &Vec<u8>) -> (r: Vec<u8>)
    ensures
        r@ == v@,
{
    let mut r: Vec<u8> = Vec::new();
    let mut i: usize = 0;
    while i < v.len()
        invariant
            i <= v@.len(),
            r@ == v@.take(i as int),
        decreases v@.len() - i,
    {
        r.push(v[i]);
        proof {
            assert(v@.take(i as int + 1) =~= v@.take(i as int).push(v@[i as int]));
        }
        i = i + 1;
    }
    proof {
        assert(v@.take(v@.len() as int) =~= v@);
    }
    r
}

/// Relies on `String::from_utf8`: ASCII bytes decode to the string made of
/// exactly those characters.
#[verifier::external_body]
fn ascii_to_string(bytes: Vec<u8>) -> (r: String)
    requires
        forall|i: int| 0 <= i < bytes@.len() ==> bytes@[i] < 128,
    ensures
        r@ == ascii_chars(bytes@),
{
    String::from_utf8(bytes).unwrap_or_default()
}

fn kw1(tok: &Vec<u8>, a: u8) -> (r: bool)
    ensures
        r == (tok@ == seq![a]),
{
    if tok.len() == 1 && tok[0] == a {
        proof {
            assert(tok@ =~= seq![a]);
        }
        true
    } else {
        false
    }
}

fn kw2(tok: &Vec<u8>, a: u8, b: u8) -> (r: bool)
    ensures
        r == (tok@ == seq![a, b]),
{
    if tok.len() == 2 && tok[0] == a && tok[1] == b {
        proof {
            assert(tok@ =~= seq![a, b]);
        }
        true
    } else {
        false
    }
}

fn kw3(tok: &Vec<u8>, a: u8, b: u8, c: u8) -> (r: bool)
    ensures
        r == (tok@ == seq![a, b, c]),
{
    if tok.len() == 3 && tok[0] == a && tok[1] == b && tok[2] == c {
        proof {
            assert(tok@ =~= seq![a, b, c]);
        }
        true
    } else {
        false
    }
}

fn kw4(tok: &Vec<u8>, a: u8, b: u8, c: u8, d: u8) -> (r: bool)
    ensures
        r == (tok@ == seq![a, b, c, d]),
{
    if tok.len() == 4 && tok[0] == a && tok[1] == b && tok[2] == c && tok[3] == d {
        proof {
            assert(tok@ =~= seq![a, b, c, d]);
        }
        true
    } else {
        false
    }
}

fn kw5(tok: &Vec<u8>, a: u8, b: u8, c: u8, d: u8, e: u8) -> (r: bool)
    ensures
        r == (tok@ == seq![a, b, c, d, e]),
{
    if tok.len() == 5 && tok[0] == a && tok[1] == b && tok[2] == c && tok[3] == d && tok[4]
        == e {
        proof {
            assert(tok@ =~= seq![a, b, c, d, e]);
        }
        true
    } else {
        false
    }
}

/// A `None` accumulation on a prefix stays `None` on the whole sequence.
proof fn neg_accum_extends(ds: Seq<u8>, k: int)
    requires
        0 <= k <= ds.len(),
        neg_accum(ds.take(k)) is None,
    ensures
        neg_accum(ds) is None,
    decreases ds.len() - k,
{
    if k < ds.len() {
        assert(ds.take(k + 1).drop_last() =~= ds.take(k));
        neg_accum_extends(ds, k + 1);
    } else {
        assert(ds.take(k) =~= ds);
    }
}

/// A `None` accumulation on a prefix stays `None` on the whole sequence.
proof fn idx_accum_extends(ds: Seq<u8>, k: int)
    requires
        0 <= k <= ds.len(),
        idx_accum(ds.take(k)) is None,
    ensures
        idx_accum(ds) is None,
    decreases ds.len() - k,
{
    if k < ds.len() {
        assert(ds.take(k + 1).drop_last() =~= ds.take(k));
        idx_accum_extends(ds, k + 1);
    } else {
        assert(ds.take(k) =~= ds);
    }
}

/// Run the non-positive decimal accumulation over `tok` from `start` on.
fn neg_accum_exec(tok: &Vec<u8>, start: usize) -> (r: Option<i64>)
    requires
        start <= tok@.len(),
    ensures
        match r {
            Some(v) => neg_accum(tok@.skip(start as int)) == Some(v as int),
            None => neg_accum(tok@.skip(start as int)) is None,
        },
{
    let ghost ds = tok@.skip(start as int);
    let mut acc: i64 = 0;
    let mut k: usize = start;
    proof {
        assert(ds.take(0) =~= Seq::<u8>::empty());
    }
    while k < tok.len()
        invariant
            start <= k <= tok@.len(),
            ds == tok@.skip(start as int),
            neg_accum(ds.take(k - start)) == Some(acc as int),
            acc <= 0,
        decreases tok@.len() - k,
    {
        let b = tok[k];
        proof {
            assert(ds.take(k - start + 1).drop_last() =~= ds.take(k - start));
            assert(ds.take(k - start + 1).last() == tok@[k as int]);
        }
        if b < 48 || b > 57 {
            proof {
                neg_accum_extends(ds, k - start + 1);
            }
            return None;
        }
        let acc10 = match acc.checked_mul(10) {
            Some(v) => v,
            None => {
                proof {
                    neg_accum_extends(ds, k - start + 1);
                }
                return None;
            },
        };
        acc = match acc10.checked_sub((b - 48) as i64) {
            Some(v) => v,
            None => {
                proof {
                    neg_accum_extends(ds, k - start + 1);
                }
                return None;
            },
        };
        k = k + 1;
    }
    proof {
        assert(ds.take(ds.len() as int) =~= ds);
    }
    Some(acc)
}

/// Run the bounded index accumulation over `tok` from `start` on.
fn idx_accum_exec(tok: &Vec<u8>, start: usize) -> (r: Option<usize>)
    requires
        start <= tok@.len(),
    ensures
        match r {
            Some(v) => idx_accum(tok@.skip(start as int)) == Some(v as int),
            None => idx_accum(tok@.skip(start as int)) is None,
        },
{
    let ghost ds = tok@.skip(start as int);
    let mut acc: usize = 0;
    let mut k: usize = start;
    proof {
        assert(ds.take(0) =~= Seq::<u8>::empty());
    }
    while k < tok.len()
        invariant
            start <= k <= tok@.len(),
            ds == tok@.skip(start as int),
            idx_accum(ds.take(k - start)) == Some(acc as int),
        decreases tok@.len() - k,
    {
        let b = tok[k];
        proof {
            assert(ds.take(k - start + 1).drop_last() =~= ds.take(k - start));
            assert(ds.take(k - start + 1).last() == tok@[k as int]);
        }
        if b < 48 || b > 57 {
            proof {
                idx_accum_extends(ds, k - start + 1);
            }
            return None;
        }
        let acc10 = match acc.checked_mul(10) {
            Some(v) => v,
            None => {
                proof {
                    idx_accum_extends(ds, k - start + 1);
                }
                return None;
            },
        };
        acc = match acc10.checked_add((b - 48) as usize) {
            Some(v) => v,
            None => {
                proof {
                    idx_accum_extends(ds, k - start + 1);
                }
                return None;
            },
        };
        k = k + 1;
    }
    proof {
        assert(ds.take(ds.len() as int) =~= ds);
    }
    Some(acc)
}

/// Parse an integer literal token.
fn parse_int(tok: &Vec<u8>) -> (r: Option<i64>)
    ensures
        match r {
            Some(v) => parse_int_spec(tok@) == Some(v as int),
            None => parse_int_spec(tok@) is None,
        },
{
    if tok.len() >= 2 && tok[0] == 45 {
        proof {
            assert(tok@.skip(1) =~= tok@.drop_first());
        }
        neg_accum_exec(tok, 1)
    } else if tok.len() >= 1 {
        proof {
            assert(tok@.skip(0) =~= tok@);
        }
        match neg_accum_exec(tok, 0) {
            Some(a) => {
                if a == i64::MIN {
                    None
                } else {
                    Some(-a)
                }
            },
            None => None,
        }
    } else {
        None
    }
}

/// Parse a variable-reference token `:123`.
fn parse_var(tok: &Vec<u8>) -> (r: Option<usize>)
    ensures
        match r {
            Some(v) => parse_var_spec(tok@) == Some(v as int),
            None => parse_var_spec(tok@) is None,
        },
{
    if tok.len() >= 2 && tok[0] == 58 {
        proof {
            assert(tok@.skip(1) =~= tok@.drop_first());
        }
        idx_accum_exec(tok, 1)
    } else {
        None
    }
}

/// Parse a single non-paren token into a symbol.
fn parse_atom(tok: &Vec<u8>) -> (r: Option<Symbol>)
    ensures
        match r {
            Some(s) => atom_sym(tok@) == Some(s@),
            None => atom_sym(tok@) is None,
        },
{
    if kw2(tok, 97, 112) {
        Some(Symbol::Ap)
    } else if kw4(tok, 99, 111, 110, 115) {
        Some(Symbol::Cons)
    } else if kw3(tok, 99, 97, 114) {
        Some(Symbol::Car)
    } else if kw3(tok, 99, 100, 114) {
        Some(Symbol::Cdr)
    } else if kw3(tok, 110, 105, 108) {
        Some(Symbol::Nil)
    } else if kw2(tok, 101, 113) {
        Some(Symbol::Eq)
    } else if kw2(tok, 108, 116) {
        Some(Symbol::Lt)
    } else if kw3(tok, 110, 101, 103) {
        Some(Symbol::Neg)
    } else if kw3(tok, 105, 110, 99) {
        Some(Symbol::Inc)
    } else if kw3(tok, 100, 101, 99) {
        Some(Symbol::Dec)
    } else if kw1(tok, 115) {
        Some(Symbol::S)
    } else if kw1(tok, 99) {
        Some(Symbol::C)
    } else if kw1(tok, 98) {
        Some(Symbol::B)
    } else if kw1(tok, 105) {
        Some(Symbol::I)
    } else if kw1(tok, 116) {
        Some(Symbol::T)
    } else if kw1(tok, 102) {
        Some(Symbol::F)
    } else if kw3(tok, 109, 117, 108) {
        Some(Symbol::Mul)
    } else if kw3(tok, 97, 100, 100) {
        Some(Symbol::Add)
    } else if kw3(tok, 100, 105, 118) {
        Some(Symbol::Div)
    } else if kw5(tok, 105, 115, 110, 105, 108) {
        Some(Symbol::IsNil)
    } else if kw3(tok, 109, 111, 100) {
        Some(Symbol::Mod)
    } else if kw3(tok, 100, 101, 109) {
        Some(Symbol::Dem)
    } else if kw3(tok, 105, 102, 48) {
        Some(Symbol::If0)
    } else {
        match parse_var(tok) {
            Some(idx) => Some(Symbol::Var(idx)),
            None => match parse_int(tok) {
                Some(v) => Some(Symbol::Lit(v)),
                None => None,
            },
        }
    }
}

/// Split a line into its blank-separated tokens.
fn tokenize_line(line: &Vec<u8>) -> (r: Vec<Vec<u8>>)
    ensures
        tok_views(r@) == tokenize(line@, 0),
{
    let mut toks: Vec<Vec<u8>> = Vec::new();
    let mut i: usize = 0;
    proof {
        assert(tok_views(toks@) =~= Seq::<Seq<u8>>::empty());
        assert(tok_views(toks@) + tokenize(line@, 0) =~= tokenize(line@, 0));
    }
    while i < line.len()
        invariant
            i <= line@.len(),
            tok_views(toks@) + tokenize(line@, i as int) == tokenize(line@, 0),
        decreases line@.len() - i,
    {
        let b = line[i];
        if b == 32 || b == 9 || b == 13 {
            i = i + 1;
        } else {
            let mut tok: Vec<u8> = Vec::new();
            let mut j: usize = i;
            proof {
                assert(tok@ =~= line@.subrange(i as int, i as int));
            }
            while j < line.len() && !(line[j] == 32 || line[j] == 9 || line[j] == 13)
                invariant
                    i <= j <= line@.len(),
                    tok@ == line@.subrange(i as int, j as int),
                    token_end(line@, i as int) == token_end(line@, j as int),
                decreases line@.len() - j,
            {
                tok.push(line[j]);
                proof {
                    assert(line@.subrange(i as int, j as int + 1) =~= line@.subrange(
                        i as int,
                        j as int,
                    ).push(line@[j as int]));
                }
                j = j + 1;
            }
            let ghost toks_old = toks@;
            toks.push(tok);
            proof {
                assert(token_end(line@, j as int) == j as int);
                assert(tok_views(toks@) =~= tok_views(toks_old).push(toks@.last()@));
                assert(tok_views(toks_old) + (seq![line@.subrange(
                    i as int,
                    j as int,
                )] + tokenize(line@, j as int)) =~= tok_views(toks@) + tokenize(
                    line@,
                    j as int,
                ));
            }
            i = j;
        }
    }
    proof {
        assert(tok_views(toks@) + tokenize(line@, line@.len() as int) =~= tok_views(toks@));
    }
    toks
}

/// Prepend one symbol to a parsed tail.
fn cons_sym(first: Symbol, rest: Vec<Symbol>) -> (r: Vec<Symbol>)
    ensures
        crate::ast::sym_views(r@) == seq![first@] + crate::ast::sym_views(rest@),
{
    let ghost fv = first@;
    let mut r: Vec<Symbol> = Vec::new();
    r.push(first);
    let mut i: usize = 0;
    proof {
        crate::ast::sym_views_len(rest@);
        crate::ast::sym_views_len(r@);
        crate::ast::sym_views_index(r@, 0);
    }
    while i < rest.len()
        invariant
            i <= rest@.len(),
            r@.len() == i + 1,
            crate::ast::sym_views(rest@).len() == rest@.len(),
            r@[0]@ == fv,
            forall|j: int| 0 <= j < i ==> #[trigger] r@[j + 1]@ == rest@[j]@,
        decreases rest@.len() - i,
    {
        let e = rest[i].clone();
        r.push(e);
        i = i + 1;
    }
    proof {
        crate::ast::sym_views_len(r@);
        assert forall|j: int| 0 <= j < r@.len() implies #[trigger] crate::ast::sym_views(r@)[j]
            == (seq![fv] + crate::ast::sym_views(rest@))[j] by {
            crate::ast::sym_views_index(r@, j);
            if j > 0 {
                crate::ast::sym_views_index(rest@, j - 1);
                assert(r@[(j - 1) + 1]@ == rest@[j - 1]@);
            }
        }
        assert(crate::ast::sym_views(r@) =~= seq![fv] + crate::ast::sym_views(rest@));
    }
    r
}

/// Parse one symbol starting at token `i`.
fn parse_sym(toks: &Vec<Vec<u8>>, i: usize, fuel: u128) -> (r: Option<(Symbol, usize)>)
    ensures
        match r {
            Some((s, j)) => parse_sym_spec(tok_views(toks@), i as int, fuel as nat) == Some(
                (s@, j as int),
            ),
            None => parse_sym_spec(tok_views(toks@), i as int, fuel as nat) is None,
        },
    decreases fuel, 0int,
{
    if fuel == 0 {
        return None;
    }
    if i >= toks.len() {
        return None;
    }
    if kw1(&toks[i], 40) {
        if i + 1 < toks.len() && kw1(&toks[i + 1], 41) {
            return Some((Symbol::Nil, i + 2));
        }
        match parse_elems(toks, i + 1, fuel - 1) {
            Some((elems, j)) => Some((Symbol::List(elems), j)),
            None => None,
        }
    } else {
        match parse_atom(&toks[i]) {
            Some(s) => Some((s, i + 1)),
            None => None,
        }
    }
}

/// Parse the elements of a non-empty list, up to the closing paren.
fn parse_elems(toks: &Vec<Vec<u8>>, i: usize, fuel: u128) -> (r: Option<(Vec<Symbol>, usize)>)
    ensures
        match r {
            Some((elems, j)) => parse_elems_spec(tok_views(toks@), i as int, fuel as nat)
                == Some((crate::ast::sym_views(elems@), j as int)),
            None => parse_elems_spec(tok_views(toks@), i as int, fuel as nat) is None,
        },
    decreases fuel, 1int,
{
    if fuel == 0 {
        return None;
    }
    match parse_sym(toks, i, fuel) {
        Some((v, j)) => {
            if j < toks.len() && kw1(&toks[j], 44) {
                match parse_elems(toks, j + 1, fuel - 1) {
                    Some((rest, k)) => Some((cons_sym(v, rest), k)),
                    None => None,
                }
            } else if j < toks.len() && kw1(&toks[j], 41) {
                let mut elems: Vec<Symbol> = Vec::new();
                let ghost vv = v@;
                elems.push(v);
                proof {
                    crate::ast::sym_views_len(elems@);
                    crate::ast::sym_views_index(elems@, 0);
                    assert(crate::ast::sym_views(elems@) =~= seq![vv]);
                }
                Some((elems, j + 1))
            } else {
                None
            }
        },
        None => None,
    }
}

/// Parse a whole statement body: symbols until the tokens run out.
fn parse_body(toks: &Vec<Vec<u8>>, i: usize, fuel: u128) -> (r: Option<Vec<Symbol>>)
    ensures
        match r {
            Some(body) => parse_body_spec(tok_views(toks@), i as int, fuel as nat) == Some(
                crate::ast::sym_views(body@),
            ),
            None => parse_body_spec(tok_views(toks@), i as int, fuel as nat) is None,
        },
    decreases fuel, 2int,
{
    if i == toks.len() {
        let empty: Vec<Symbol> = Vec::new();
        proof {
            assert(crate::ast::sym_views(empty@) =~= Seq::<SymV>::empty());
        }
        return Some(empty);
    }
    if fuel == 0 {
        return None;
    }
    match parse_sym(toks, i, fuel) {
        Some((v, j)) => match parse_body(toks, j, fuel - 1) {
            Some(rest) => Some(cons_sym(v, rest)),
            None => None,
        },
        None => None,
    }
}

/// Parse a left-hand-side identifier token.
fn parse_id(tok: &Vec<u8>) -> (r: Option<Identifier>)
    ensures
        match r {
            Some(id) => parse_id_spec(tok@) == Some(id@),
            None => parse_id_spec(tok@) is None,
        },
{
    match parse_var(tok) {
        Some(idx) => Some(Identifier::Var(idx)),
        None => {
            if tok.len() < 1 {
                return None;
            }
            let first = tok[0];
            if !((97 <= first && first <= 122) || (65 <= first && first <= 90) || first == 95) {
                return None;
            }
            let mut k: usize = 0;
            while k < tok.len()
                invariant
                    k <= tok@.len(),
                    tok@.len() >= 1,
                    is_name_start(tok@[0]),
                    parse_var_spec(tok@) is None,
                    forall|j: int| 0 <= j < k ==> is_name_byte(#[trigger] tok@[j]),
                decreases tok@.len() - k,
            {
                let b = tok[k];
                if !((48 <= b && b <= 57) || (97 <= b && b <= 122) || (65 <= b && b <= 90) || b
                    == 95) {
                    proof {
                        assert(!is_name_byte(tok@[k as int]));
                    }
                    return None;
                }
                k = k + 1;
            }
            let s = ascii_to_string(copy_bytes(tok));
            Some(Identifier::Name(s))
        },
    }
}

/// Parse one line into a statement.
fn parse_line(line: &Vec<u8>) -> (r: Option<Statement>)
    ensures
        match r {
            Some(st) => parse_line_spec(line@) == Some(st@),
            None => parse_line_spec(line@) is None,
        },
{
    let toks = tokenize_line(line);
    if toks.len() < 2 {
        return None;
    }
    if !kw1(&toks[1], 61) {
        return None;
    }
    match parse_id(&toks[0]) {
        Some(id) => {
            let fuel: u128 = (toks.len() as u128) + 1;
            match parse_body(&toks, 2, fuel) {
                Some(body) => Some(Statement(id, body)),
                None => None,
            }
        },
        None => None,
    }
}

/// Parse a whole program: one statement per line.  Returns the ordered
/// statement list, or the index of the first malformed line.
pub fn parse_as_lines(input: &str) -> (r: Result<Vec<Statement>, ParseError>)
    ensures
        match r {
            Ok(sts) => parse_spec(input.spec_bytes()) == Ok::<Seq<StV>, nat>(
                crate::ast::st_views(sts@),
            ) && sts@.len() > 0,
            Err(e) => parse_spec(input.spec_bytes()) == Err::<Seq<StV>, nat>(e.line as nat),
        },
{
    let bytes: &[u8] = input.as_bytes();
    let n = bytes.len();
    let ghost bs = input.spec_bytes();
    let mut sts: Vec<Statement> = Vec::new();
    let mut p: usize = 0;
    let mut line_no: usize = 0;
    proof {
        assert(crate::ast::st_views(sts@) =~= Seq::<StV>::empty());
        match parse_lines_spec(bs, 0, 0) {
            Ok(rest) => {
                assert(crate::ast::st_views(sts@) + rest =~= rest);
            },
            Err(_) => {},
        }
    }
    loop
        invariant
            p <= n,
            n == bs.len(),
            bs == input.spec_bytes(),
            bytes@ == bs,
            line_no <= p,
            sts@.len() == line_no,
            match parse_lines_spec(bs, p as int, line_no as nat) {
                Ok(rest) => parse_spec(bs) == Ok::<Seq<StV>, nat>(
                    crate::ast::st_views(sts@) + rest,
                ),
                Err(l) => parse_spec(bs) == Err::<Seq<StV>, nat>(l),
            },
        decreases n - p,
    {
        let mut line: Vec<u8> = Vec::new();
        let mut q: usize = p;
        proof {
            assert(line@ =~= bs.subrange(p as int, p as int));
        }
        while q < n && bytes[q] != 10
            invariant
                p <= q <= n,
                n == bs.len(),
                bytes@ == bs,
                line@ == bs.subrange(p as int, q as int),
                line_end(bs, p as int) == line_end(bs, q as int),
            decreases n - q,
        {
            line.push(bytes[q]);
            proof {
                assert(bs.subrange(p as int, q as int + 1) =~= bs.subrange(
                    p as int,
                    q as int,
                ).push(bs[q as int]));
            }
            q = q + 1;
        }
        proof {
            assert(line_end(bs, q as int) == q as int);
        }
        match parse_line(&line) {
            None => {
                proof {
                    assert(line_end(bs, p as int) == q as int);
                    assert(parse_line_spec(bs.subrange(p as int, q as int)) is None);
                    assert(parse_lines_spec(bs, p as int, line_no as nat) == Err::<
                        Seq<StV>,
                        nat,
                    >(line_no as nat));
                }
                return Err(ParseError { line: line_no });
            },
            Some(st) => {
                let ghost sts_old = sts@;
                let ghost stv = st@;
                sts.push(st);
                proof {
                    assert(crate::ast::st_views(sts@) =~= crate::ast::st_views(sts_old).push(
                        stv,
                    ));
                }
                if q >= n {
                    proof {
                        assert(crate::ast::st_views(sts_old) + seq![stv] =~= crate::ast::st_views(
                            sts@,
                        ));
                    }
                    return Ok(sts);
                }
                proof {
                    let next = parse_lines_spec(bs, q as int + 1, (line_no + 1) as nat);
                    match next {
                        Ok(rest) => {
                            assert(crate::ast::st_views(sts_old) + (seq![stv] + rest)
                                =~= crate::ast::st_views(sts@) + rest);
                        },
                        Err(_) => {},
                    }
                }
                p = q + 1;
                line_no = line_no + 1;
            },
        }
    }
}

} // verus!
