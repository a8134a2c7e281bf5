//! The value model: expression variants, their views, fixed arities,
//! structural equality, and the canonicalizer that lowers list literals
//! into nested pairs.

use vstd::prelude::*;

verus! {

/// An expression or value of the combinator language.
///
/// `Lit` is a 64-bit integer literal; the bare combinator variants are the
/// built-in operations, each with a fixed arity; `Var` is a reference into
/// the environment; `List` is syntactic sugar lowered by
/// [`Symbol::canonicalize`] into nested `Pair`/`Nil`; `PartFn` is an
/// in-progress curried call (callee, bound arguments, arguments still owed);
/// `Pair` is a cons cell; `Modulated` is an opaque encoded payload, carried
/// around untouched and represented here by the value it encodes.
#[derive(Debug)]
pub enum Symbol {
    Lit(i64),
    Eq,
    Inc,
    Dec,
    Add,
    Var(usize),
    Mul,
    Div,
    T,
    F,
    Lt,
    Mod,
    Dem,
    Send,
    Neg,
    Ap,
    S,
    C,
    B,
    Pwr2,
    I,
    Cons,
    Car,
    Cdr,
    Nil,
    IsNil,
    List(Vec<Symbol>),
    Draw,
    Checkerboard,
    MultipleDraw,
    If0,
    Interact,
    StatelessDraw,
    PartFn(Box<Symbol>, Vec<Symbol>, i8),
    Pair(Box<Symbol>, Box<Symbol>),
    Modulated(Box<Symbol>),
}

/// The mathematical model of a [`Symbol`]: integers are unbounded, argument
/// lists are sequences.  All contracts in this crate speak of this type.
pub enum SymV {
    Lit(int),
    Eq,
    Inc,
    Dec,
    Add,
    Var(nat),
    Mul,
    Div,
    T,
    F,
    Lt,
    Mod,
    Dem,
    Send,
    Neg,
    Ap,
    S,
    C,
    B,
    Pwr2,
    I,
    Cons,
    Car,
    Cdr,
    Nil,
    IsNil,
    List(Seq<SymV>),
    Draw,
    Checkerboard,
    MultipleDraw,
    If0,
    Interact,
    StatelessDraw,
    PartFn(Box<SymV>, Seq<SymV>, int),
    Pair(Box<SymV>, Box<SymV>),
    Modulated(Box<SymV>),
}

impl View for Symbol {
    type V = SymV;

    open spec fn view(&self) -> SymV
        decreases self,
    {
        match self {
            Symbol::Lit(n) => SymV::Lit(*n as int),
            Symbol::Eq => SymV::Eq,
            Symbol::Inc => SymV::Inc,
            Symbol::Dec => SymV::Dec,
            Symbol::Add => SymV::Add,
            Symbol::Var(i) => SymV::Var(*i as nat),
            Symbol::Mul => SymV::Mul,
            Symbol::Div => SymV::Div,
            Symbol::T => SymV::T,
            Symbol::F => SymV::F,
            Symbol::Lt => SymV::Lt,
            Symbol::Mod => SymV::Mod,
            Symbol::Dem => SymV::Dem,
            Symbol::Send => SymV::Send,
            Symbol::Neg => SymV::Neg,
            Symbol::Ap => SymV::Ap,
            Symbol::S => SymV::S,
            Symbol::C => SymV::C,
            Symbol::B => SymV::B,
            Symbol::Pwr2 => SymV::Pwr2,
            Symbol::I => SymV::I,
            Symbol::Cons => SymV::Cons,
            Symbol::Car => SymV::Car,
            Symbol::Cdr => SymV::Cdr,
            Symbol::Nil => SymV::Nil,
            Symbol::IsNil => SymV::IsNil,
            Symbol::List(v) => SymV::List(sym_views(v@)),
            Symbol::Draw => SymV::Draw,
            Symbol::Checkerboard => SymV::Checkerboard,
            Symbol::MultipleDraw => SymV::MultipleDraw,
            Symbol::If0 => SymV::If0,
            Symbol::Interact => SymV::Interact,
            Symbol::StatelessDraw => SymV::StatelessDraw,
            Symbol::PartFn(callee, args, remaining) => SymV::PartFn(
                Box::new((**callee)@),
                sym_views(args@),
                *remaining as int,
            ),
            Symbol::Pair(hd, tl) => SymV::Pair(Box::new((**hd)@), Box::new((**tl)@)),
            Symbol::Modulated(payload) => SymV::Modulated(Box::new((**payload)@)),
        }
    }
}

/// The views of a sequence of symbols, elementwise.
pub open spec fn sym_views(s: Seq<Symbol>) -> Seq<SymV>
    decreases s,
{
    if s.len() == 0 {
        Seq::empty()
    } else {
        seq![s[0]@] + sym_views(s.drop_first())
    }
}

pub broadcast proof fn sym_views_len(s: Seq<Symbol>)
    ensures
        #[trigger] sym_views(s).len() == s.len(),
    decreases s,
{
    broadcast use vstd::seq::group_seq_axioms;

    if s.len() != 0 {
        sym_views_len(s.drop_first());
        assert(sym_views(s) == seq![s[0]@] + sym_views(s.drop_first()));
    }
}

pub broadcast proof fn sym_views_index(s: Seq<Symbol>, i: int)
    requires
        0 <= i < s.len(),
    ensures
        sym_views(s).len() == s.len(),
        #[trigger] sym_views(s)[i] == s[i]@,
    decreases s,
{
    broadcast use vstd::seq::group_seq_axioms;

    sym_views_len(s);
    assert(sym_views(s) == seq![s[0]@] + sym_views(s.drop_first()));
    if i > 0 {
        sym_views_index(s.drop_first(), i - 1);
        assert(sym_views(s)[i] == sym_views(s.drop_first())[i - 1]);
    }
}

pub broadcast proof fn sym_views_push(s: Seq<Symbol>, x: Symbol)
    ensures
        #[trigger] sym_views(s.push(x)) == sym_views(s).push(x@),
{
    broadcast use vstd::seq::group_seq_axioms;

    sym_views_len(s);
    sym_views_len(s.push(x));
    assert forall|j: int| 0 <= j < s.len() + 1 implies #[trigger] sym_views(s.push(x))[j]
        == sym_views(s).push(x@)[j] by {
        sym_views_index(s.push(x), j);
        if j < s.len() {
            sym_views_index(s, j);
        }
    }
    assert(sym_views(s.push(x)) =~= sym_views(s).push(x@));
}

pub broadcast proof fn sym_views_drop_last(s: Seq<Symbol>)
    requires
        s.len() > 0,
    ensures
        #[trigger] sym_views(s.drop_last()) == sym_views(s).drop_last(),
{
    broadcast use vstd::seq::group_seq_axioms;

    sym_views_len(s);
    sym_views_len(s.drop_last());
    assert forall|j: int| 0 <= j < s.len() - 1 implies #[trigger] sym_views(s.drop_last())[j]
        == sym_views(s).drop_last()[j] by {
        sym_views_index(s.drop_last(), j);
        sym_views_index(s, j);
    }
    assert(sym_views(s.drop_last()) =~= sym_views(s).drop_last());
}

/// The view of a symbol has the same outward tag as the symbol itself.
pub proof fn lemma_view_tags(x: &Symbol)
    ensures
        (x@ is Eq) <==> (x is Eq),
        (x@ is Inc) <==> (x is Inc),
        (x@ is Dec) <==> (x is Dec),
        (x@ is Add) <==> (x is Add),
        (x@ is Mul) <==> (x is Mul),
        (x@ is Div) <==> (x is Div),
        (x@ is T) <==> (x is T),
        (x@ is F) <==> (x is F),
        (x@ is Lt) <==> (x is Lt),
        (x@ is Mod) <==> (x is Mod),
        (x@ is Dem) <==> (x is Dem),
        (x@ is Send) <==> (x is Send),
        (x@ is Neg) <==> (x is Neg),
        (x@ is Ap) <==> (x is Ap),
        (x@ is S) <==> (x is S),
        (x@ is C) <==> (x is C),
        (x@ is B) <==> (x is B),
        (x@ is Pwr2) <==> (x is Pwr2),
        (x@ is I) <==> (x is I),
        (x@ is Cons) <==> (x is Cons),
        (x@ is Car) <==> (x is Car),
        (x@ is Cdr) <==> (x is Cdr),
        (x@ is Nil) <==> (x is Nil),
        (x@ is IsNil) <==> (x is IsNil),
        (x@ is Draw) <==> (x is Draw),
        (x@ is Checkerboard) <==> (x is Checkerboard),
        (x@ is MultipleDraw) <==> (x is MultipleDraw),
        (x@ is If0) <==> (x is If0),
        (x@ is Interact) <==> (x is Interact),
        (x@ is StatelessDraw) <==> (x is StatelessDraw),
        (x@ is Lit) <==> (x is Lit),
        (x@ is Var) <==> (x is Var),
        (x@ is List) <==> (x is List),
        (x@ is PartFn) <==> (x is PartFn),
        (x@ is Pair) <==> (x is Pair),
        (x@ is Modulated) <==> (x is Modulated),
{
    match x {
        Symbol::Eq => {},
        Symbol::Inc => {},
        Symbol::Dec => {},
        Symbol::Add => {},
        Symbol::Mul => {},
        Symbol::Div => {},
        Symbol::T => {},
        Symbol::F => {},
        Symbol::Lt => {},
        Symbol::Mod => {},
        Symbol::Dem => {},
        Symbol::Send => {},
        Symbol::Neg => {},
        Symbol::Ap => {},
        Symbol::S => {},
        Symbol::C => {},
        Symbol::B => {},
        Symbol::Pwr2 => {},
        Symbol::I => {},
        Symbol::Cons => {},
        Symbol::Car => {},
        Symbol::Cdr => {},
        Symbol::Nil => {},
        Symbol::IsNil => {},
        Symbol::Draw => {},
        Symbol::Checkerboard => {},
        Symbol::MultipleDraw => {},
        Symbol::If0 => {},
        Symbol::Interact => {},
        Symbol::StatelessDraw => {},
        Symbol::Lit(_) => {},
        Symbol::Var(_) => {},
        Symbol::List(_) => {},
        Symbol::PartFn(_, _, _) => {},
        Symbol::Pair(_, _) => {},
        Symbol::Modulated(_) => {},
    }
}

/// A statement's left-hand side: a textual name or a numeric variable index.
#[derive(Debug)]
pub enum Identifier {
    Name(String),
    Var(usize),
}

/// The model of an [`Identifier`].
pub enum IdV {
    Name(Seq<char>),
    Var(nat),
}

impl View for Identifier {
    type V = IdV;

    open spec fn view(&self) -> IdV {
        match self {
            Identifier::Name(s) => IdV::Name(s@),
            Identifier::Var(i) => IdV::Var(*i as nat),
        }
    }
}

/// One statement of a program: an identifier bound to an unevaluated
/// token sequence.
#[derive(Debug)]
pub struct Statement(pub Identifier, pub Vec<Symbol>);

/// The model of a [`Statement`].
pub struct StV {
    pub id: IdV,
    pub body: Seq<SymV>,
}

impl View for Statement {
    type V = StV;

    open spec fn view(&self) -> StV {
        StV { id: self.0@, body: sym_views(self.1@) }
    }
}

/// The views of a whole statement list, statement by statement.
pub open spec fn st_views(s: Seq<Statement>) -> Seq<StV> {
    s.map_values(|st: Statement| st@)
}

/// The ways an evaluation can fail.  Correct programs trigger none of these;
/// evaluation stops at the first one.
#[derive(Clone, Copy, Debug, PartialEq, Eq, Structural)]
pub enum EvalError {
    /// An operand does not have the structural shape its operator requires.
    TypeMismatch,
    /// An operand list is inconsistent with the callee's declared arity.
    ArityViolation,
    /// An environment lookup missed.
    UnboundIdentifier,
    /// A declared but unsupported combinator was invoked.
    NotImplemented,
    /// The iteration guard was exceeded.
    Divergence,
    /// An arithmetic result does not fit in a 64-bit literal.
    Overflow,
    /// A division by zero.
    DivideByZero,
}

/// The fixed arity of a value: how many arguments the combinator still
/// expects.  Non-callable values have arity 0.
pub open spec fn arity(v: SymV) -> int {
    match v {
        SymV::Lit(_) => 0,
        SymV::Eq => 2,
        SymV::Inc => 1,
        SymV::Dec => 1,
        SymV::Add => 2,
        SymV::Var(_) => 0,
        SymV::Mul => 2,
        SymV::Div => 2,
        SymV::T => 2,
        SymV::F => 2,
        SymV::Lt => 2,
        SymV::Mod => 1,
        SymV::Dem => 1,
        SymV::Send => 1,
        SymV::Neg => 1,
        SymV::Ap => 2,
        SymV::S => 3,
        SymV::C => 3,
        SymV::B => 3,
        SymV::Pwr2 => 1,
        SymV::I => 1,
        SymV::Cons => 2,
        SymV::Car => 1,
        SymV::Cdr => 1,
        SymV::Nil => 0,
        SymV::IsNil => 1,
        SymV::List(_) => 0,
        SymV::Draw => 1,
        SymV::Checkerboard => 2,
        SymV::MultipleDraw => 1,
        SymV::If0 => 3,
        SymV::Interact => 3,
        SymV::StatelessDraw => 3,
        SymV::PartFn(_, _, remaining) => remaining,
        SymV::Pair(_, _) => 0,
        SymV::Modulated(_) => 0,
    }
}

/// The right fold of a sequence of values into nested pairs, ending in `Nil`:
/// the primitive representation of a list literal.
pub open spec fn list_to_pairs(elems: Seq<SymV>) -> SymV
    decreases elems.len(),
{
    if elems.len() == 0 {
        SymV::Nil
    } else {
        SymV::Pair(Box::new(elems[0]), Box::new(list_to_pairs(elems.drop_first())))
    }
}

/// What [`Symbol::canonicalize`] returns: a list literal becomes nested
/// pairs, single level; everything else passes through unchanged.
pub open spec fn canon_spec(v: SymV) -> SymV {
    match v {
        SymV::List(elems) => list_to_pairs(elems),
        _ => v,
    }
}

impl Symbol {
    /// The arity of this symbol's outermost tag.
    pub fn num_args(&self) -> (r: i8)
        ensures
            r as int == arity(self@),
    {
        match self {
            Symbol::Lit(_) => 0,
            Symbol::Eq => 2,
            Symbol::Inc => 1,
            Symbol::Dec => 1,
            Symbol::Add => 2,
            Symbol::Var(_) => 0,
            Symbol::Mul => 2,
            Symbol::Div => 2,
            Symbol::T => 2,
            Symbol::F => 2,
            Symbol::Lt => 2,
            Symbol::Mod => 1,
            Symbol::Dem => 1,
            Symbol::Send => 1,
            Symbol::Neg => 1,
            Symbol::Ap => 2,
            Symbol::S => 3,
            Symbol::C => 3,
            Symbol::B => 3,
            Symbol::Pwr2 => 1,
            Symbol::I => 1,
            Symbol::Cons => 2,
            Symbol::Car => 1,
            Symbol::Cdr => 1,
            Symbol::Nil => 0,
            Symbol::IsNil => 1,
            Symbol::List(_) => 0,
            Symbol::Draw => 1,
            Symbol::Checkerboard => 2,
            Symbol::MultipleDraw => 1,
            Symbol::If0 => 3,
            Symbol::Interact => 3,
            Symbol::StatelessDraw => 3,
            Symbol::PartFn(_, _, remaining) => *remaining,
            Symbol::Pair(_, _) => 0,
            Symbol::Modulated(_) => 0,
        }
    }

    /// Lower a list literal into nested `Pair`/`Nil`, rightmost element
    /// adjacent to `Nil`; all other variants pass through unchanged.
    pub fn canonicalize(&self) -> (r: Symbol)
        ensures
            r@ == canon_spec(self@),
    {
        match self {
            Symbol::List(v) => {
                let mut acc = Symbol::Nil;
                let mut i: usize = v.len();
                proof {
                    sym_views_len(v@);
                    assert(sym_views(v@).skip(i as int) =~= Seq::<SymV>::empty());
                }
                while i > 0
                    invariant
                        i <= v.len(),
                        sym_views(v@).len() == v@.len(),
                        acc@ == list_to_pairs(sym_views(v@).skip(i as int)),
                    decreases i,
                {
                    i = i - 1;
                    let hd = v[i].clone();
                    acc = Symbol::Pair(Box::new(hd), Box::new(acc));
                    proof {
                        sym_views_index(v@, i as int);
                        let s = sym_views(v@).skip(i as int);
                        assert(s.drop_first() =~= sym_views(v@).skip(i as int + 1));
                        assert(s[0] == v@[i as int]@);
                    }
                }
                proof {
                    assert(sym_views(v@).skip(0) =~= sym_views(v@));
                }
                acc
            },
            _ => self.clone(),
        }
    }
}

/// Clone a vector of symbols, preserving the view of every element.
pub fn clone_syms(v: &Vec<Symbol>) -> (r: Vec<Symbol>)
    ensures
        sym_views(r@) == sym_views(v@),
        r@.len() == v@.len(),
    decreases v,
{
    let mut r: Vec<Symbol> = Vec::new();
    let mut i: usize = 0;
    proof {
        sym_views_len(v@);
    }
    while i < v.len()
        invariant
            i <= v.len(),
            r@.len() == i,
            sym_views(v@).len() == v@.len(),
            forall|j: int| 0 <= j < i ==> #[trigger] r@[j]@ == v@[j]@,
        decreases v.len() - i,
    {
        let e = v[i].clone();
        r.push(e);
        i = i + 1;
    }
    proof {
        sym_views_eq_from_pointwise(r@, v@);
    }
    r
}

/// Two symbol sequences whose elements have equal views have equal
/// view sequences.
proof fn sym_views_eq_from_pointwise(a: Seq<Symbol>, b: Seq<Symbol>)
    requires
        a.len() == b.len(),
        forall|j: int| 0 <= j < a.len() ==> #[trigger] a[j]@ == b[j]@,
    ensures
        sym_views(a) == sym_views(b),
{
    sym_views_len(a);
    sym_views_len(b);
    assert forall|j: int| 0 <= j < a.len() implies #[trigger] sym_views(a)[j] == sym_views(b)[j] by {
        sym_views_index(a, j);
        sym_views_index(b, j);
    }
    assert(sym_views(a) =~= sym_views(b));
}

impl Clone for Symbol {
    /// A clone has the same view as the original.
    fn clone(&self) -> (r: Symbol)
        ensures
            r@ == self@,
        decreases self,
    {
        match self {
            Symbol::Lit(n) => Symbol::Lit(*n),
            Symbol::Eq => Symbol::Eq,
            Symbol::Inc => Symbol::Inc,
            Symbol::Dec => Symbol::Dec,
            Symbol::Add => Symbol::Add,
            Symbol::Var(i) => Symbol::Var(*i),
            Symbol::Mul => Symbol::Mul,
            Symbol::Div => Symbol::Div,
            Symbol::T => Symbol::T,
            Symbol::F => Symbol::F,
            Symbol::Lt => Symbol::Lt,
            Symbol::Mod => Symbol::Mod,
            Symbol::Dem => Symbol::Dem,
            Symbol::Send => Symbol::Send,
            Symbol::Neg => Symbol::Neg,
            Symbol::Ap => Symbol::Ap,
            Symbol::S => Symbol::S,
            Symbol::C => Symbol::C,
            Symbol::B => Symbol::B,
            Symbol::Pwr2 => Symbol::Pwr2,
            Symbol::I => Symbol::I,
            Symbol::Cons => Symbol::Cons,
            Symbol::Car => Symbol::Car,
            Symbol::Cdr => Symbol::Cdr,
            Symbol::Nil => Symbol::Nil,
            Symbol::IsNil => Symbol::IsNil,
            Symbol::List(v) => Symbol::List(clone_syms(v)),
            Symbol::Draw => Symbol::Draw,
            Symbol::Checkerboard => Symbol::Checkerboard,
            Symbol::MultipleDraw => Symbol::MultipleDraw,
            Symbol::If0 => Symbol::If0,
            Symbol::Interact => Symbol::Interact,
            Symbol::StatelessDraw => Symbol::StatelessDraw,
            Symbol::PartFn(callee, args, remaining) => Symbol::PartFn(
                Box::new((**callee).clone()),
                clone_syms(args),
                *remaining,
            ),
            Symbol::Pair(hd, tl) => Symbol::Pair(
                Box::new((**hd).clone()),
                Box::new((**tl).clone()),
            ),
            Symbol::Modulated(payload) => Symbol::Modulated(Box::new((**payload).clone())),
        }
    }
}

/// Structural equality of two symbol vectors, by view.
fn syms_eq(a: &Vec<Symbol>, b: &Vec<Symbol>) -> (r: bool)
    ensures
        r == (sym_views(a@) == sym_views(b@)),
    decreases a,
{
    proof {
        sym_views_len(a@);
        sym_views_len(b@);
    }
    if a.len() != b.len() {
        proof {
            assert(sym_views(a@).len() != sym_views(b@).len());
        }
        return false;
    }
    let mut i: usize = 0;
    while i < a.len()
        invariant
            i <= a.len(),
            a@.len() == b@.len(),
            forall|j: int| 0 <= j < i ==> #[trigger] a@[j]@ == b@[j]@,
        decreases a.len() - i,
    {
        let same = a[i].eq(&b[i]);
        if !same {
            proof {
                sym_views_index(a@, i as int);
                sym_views_index(b@, i as int);
            }
            return false;
        }
        i = i + 1;
    }
    proof {
        sym_views_eq_from_pointwise(a@, b@);
    }
    true
}

impl PartialEq for Symbol {
    /// Deep structural equality: two symbols are equal exactly when their
    /// views are equal.
    fn eq(&self, other: &Symbol) -> (r: bool)
        decreases self,
    {
        match (self, other) {
            (Symbol::Lit(a), Symbol::Lit(b)) => *a == *b,
            (Symbol::Eq, Symbol::Eq) => true,
            (Symbol::Inc, Symbol::Inc) => true,
            (Symbol::Dec, Symbol::Dec) => true,
            (Symbol::Add, Symbol::Add) => true,
            (Symbol::Var(a), Symbol::Var(b)) => *a == *b,
            (Symbol::Mul, Symbol::Mul) => true,
            (Symbol::Div, Symbol::Div) => true,
            (Symbol::T, Symbol::T) => true,
            (Symbol::F, Symbol::F) => true,
            (Symbol::Lt, Symbol::Lt) => true,
            (Symbol::Mod, Symbol::Mod) => true,
            (Symbol::Dem, Symbol::Dem) => true,
            (Symbol::Send, Symbol::Send) => true,
            (Symbol::Neg, Symbol::Neg) => true,
            (Symbol::Ap, Symbol::Ap) => true,
            (Symbol::S, Symbol::S) => true,
            (Symbol::C, Symbol::C) => true,
            (Symbol::B, Symbol::B) => true,
            (Symbol::Pwr2, Symbol::Pwr2) => true,
            (Symbol::I, Symbol::I) => true,
            (Symbol::Cons, Symbol::Cons) => true,
            (Symbol::Car, Symbol::Car) => true,
            (Symbol::Cdr, Symbol::Cdr) => true,
            (Symbol::Nil, Symbol::Nil) => true,
            (Symbol::IsNil, Symbol::IsNil) => true,
            (Symbol::List(v), Symbol::List(w)) => syms_eq(v, w),
            (Symbol::Draw, Symbol::Draw) => true,
            (Symbol::Checkerboard, Symbol::Checkerboard) => true,
            (Symbol::MultipleDraw, Symbol::MultipleDraw) => true,
            (Symbol::If0, Symbol::If0) => true,
            (Symbol::Interact, Symbol::Interact) => true,
            (Symbol::StatelessDraw, Symbol::StatelessDraw) => true,
            (Symbol::PartFn(c1, a1, r1), Symbol::PartFn(c2, a2, r2)) => {
                *r1 == *r2 && (**c1).eq(&**c2) && syms_eq(a1, a2)
            },
            (Symbol::Pair(h1, t1), Symbol::Pair(h2, t2)) => {
                (**h1).eq(&**h2) && (**t1).eq(&**t2)
            },
            (Symbol::Modulated(p1), Symbol::Modulated(p2)) => (**p1).eq(&**p2),
            _ => false,
        }
    }
}

impl vstd::std_specs::cmp::PartialEqSpecImpl for Symbol {
    open spec fn obeys_eq_spec() -> bool {
        true
    }

    open spec fn eq_spec(&self, other: &Symbol) -> bool {
        self@ == other@
    }
}

impl Clone for Identifier {
    /// A clone has the same view as the original.
    fn clone(&self) -> (r: Identifier)
        ensures
            r@ == self@,
    {
        match self {
            Identifier::Name(s) => Identifier::Name(s.clone()),
            Identifier::Var(i) => Identifier::Var(*i),
        }
    }
}

impl Clone for Statement {
    /// A clone has the same view as the original.
    fn clone(&self) -> (r: Statement)
        ensures
            r@ == self@,
    {
        Statement(self.0.clone(), clone_syms(&self.1))
    }
}

} // verus!
