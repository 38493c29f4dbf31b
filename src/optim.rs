//! The AST optimizer: constant propagation, then constant folding.
use vstd::prelude::*;
use crate::ast::{
    AST, ExprView, Expression, LitView, Literal, StmtView, Statement, UnaryOperator,
    all_exprs, all_props, all_stmts, clone_statements, expr_view, lemma_all_exprs_push,
    lemma_all_exprs_remove_first, lemma_all_props_push, lemma_all_props_remove_first,
    lemma_all_stmts_push, lemma_all_stmts_remove_first, lit_view, stmt_view,
};
use crate::ast::{BinaryOperator, names_view};
use crate::frames::{ConstFrame, bind, find_from, find_in, innermost, lemma_find_bounds, lookup, rebind};
use crate::number::{checked_neg, checked_num_op, is_arith, neg_op, num_op};

verus! {

broadcast use vstd::std_specs::vec::group_vec_axioms;


/// What constant propagation carries along the walk: the stack of frames,
/// and whether new constants may still be recorded.
pub struct PropState {
    pub frames: Seq<ConstFrame>,
    pub open: bool,
}

/// The entry of a name whose value is not known statically. It shadows the
/// same name in outer frames.
pub open spec fn unknown() -> LitView {
    LitView::Undefined
}

/// A declaration of `k` in the innermost frame, with the constant `v` where
/// its initializer is one. While the table is open, a first declaration in
/// a frame records `v` (or that the value is unknown) and a second one makes
/// the name unknown. Once the table is closed, a name already in the frame
/// keeps its entry and a new one is entered as unknown, so that it shadows
/// outer constants.
pub open spec fn declare(st: PropState, k: Seq<char>, v: Option<LitView>) -> PropState {
    if st.frames.len() == 0 {
        st
    } else {
        let known = find_in(st.frames.last(), k) is Some;
        if !st.open && known {
            st
        } else {
            let entry = if st.open && !known {
                match v {
                    Some(c) => c,
                    None => unknown(),
                }
            } else {
                unknown()
            };
            PropState { frames: bind(st.frames, k, entry), open: st.open }
        }
    }
}

/// The constant `k` stands for, if its innermost entry is a constant.
pub open spec fn constant_of(frames: Seq<ConstFrame>, k: Seq<char>) -> Option<LitView> {
    match lookup(frames, k) {
        Some(v) => if is_const(v) {
            Some(v)
        } else {
            None
        },
        None => None,
    }
}

/// Each of the names entered as unknown in the innermost frame, in order.
pub open spec fn shadow(frames: Seq<ConstFrame>, names: Seq<Seq<char>>) -> Seq<ConstFrame>
    decreases names.len(),
{
    if names.len() == 0 {
        frames
    } else {
        shadow(bind(frames, names[0], unknown()), names.drop_first())
    }
}

pub open spec fn is_const(l: LitView) -> bool {
    l is Number || l is String || l is Boolean
}

pub open spec fn enter_frame(st: PropState) -> PropState {
    PropState { frames: st.frames.push(Seq::empty()), open: st.open }
}

pub open spec fn exit_frame(st: PropState) -> PropState {
    if st.frames.len() > 0 {
        PropState { frames: st.frames.drop_last(), open: st.open }
    } else {
        st
    }
}

/// Constant propagation on an expression: names whose innermost entry is a
/// constant become that literal; an assignment to a name makes its innermost
/// entry unknown. Calls,
/// index and property accesses, increments and decrements are left whole.
pub open spec fn propagate_expr(st: PropState, e: ExprView) -> (PropState, ExprView)
    decreases e,
{
    match e {
        ExprView::Identifier(x) => match constant_of(st.frames, x) {
            Some(v) => (st, ExprView::Literal(v)),
            None => (st, e),
        },
        ExprView::Object(ps) => {
            let (s1, ps2) = propagate_props(st, ps);
            (s1, ExprView::Object(ps2))
        },
        ExprView::Array(es) => {
            let (s1, es2) = propagate_exprs(st, es);
            (s1, ExprView::Array(es2))
        },
        ExprView::BinaryOp(l, op, r) => {
            let (s1, l2) = propagate_expr(st, *l);
            let (s2, r2) = propagate_expr(s1, *r);
            (s2, ExprView::BinaryOp(Box::new(l2), op, Box::new(r2)))
        },
        ExprView::UnaryOp(op, x) => {
            let (s1, x2) = propagate_expr(st, *x);
            (s1, ExprView::UnaryOp(op, Box::new(x2)))
        },
        ExprView::Assignment(t, v) => {
            let s1 = match *t {
                ExprView::Identifier(x) => PropState {
                    frames: rebind(st.frames, x, unknown()),
                    open: st.open,
                },
                _ => st,
            };
            let (s2, v2) = propagate_expr(s1, *v);
            (s2, ExprView::Assignment(t, Box::new(v2)))
        },
        _ => (st, e),
    }
}

pub open spec fn propagate_exprs(st: PropState, es: Seq<ExprView>) -> (PropState, Seq<ExprView>)
    decreases es,
{
    if es.len() == 0 {
        (st, es)
    } else {
        let (s1, h) = propagate_expr(st, es[0]);
        let (s2, t) = propagate_exprs(s1, es.subrange(1, es.len() as int));
        (s2, seq![h] + t)
    }
}

pub open spec fn propagate_props(st: PropState, ps: Seq<(Seq<char>, ExprView)>) -> (
    PropState,
    Seq<(Seq<char>, ExprView)>,
)
    decreases ps,
{
    if ps.len() == 0 {
        (st, ps)
    } else {
        let (s1, h) = propagate_expr(st, ps[0].1);
        let (s2, t) = propagate_props(s1, ps.subrange(1, ps.len() as int));
        (s2, seq![(ps[0].0, h)] + t)
    }
}

pub open spec fn propagate_opt_expr(st: PropState, e: Option<ExprView>) -> (PropState, Option<ExprView>) {
    match e {
        Some(x) => {
            let (s1, x2) = propagate_expr(st, x);
            (s1, Some(x2))
        },
        None => (st, None),
    }
}

/// Constant propagation on a statement. A `let` declares its name, as a
/// constant where its value is (after propagation) a number, string or
/// boolean literal. A block, a `for` loop and a function body (with its
/// parameters, which are unknown) each have a frame of their own.
pub open spec fn propagate_stmt(st: PropState, s: StmtView) -> (PropState, StmtView)
    decreases s,
{
    match s {
        StmtView::Expression(e) => {
            let (s1, e2) = propagate_expr(st, e);
            (s1, StmtView::Expression(e2))
        },
        StmtView::Return(e) => {
            let (s1, e2) = propagate_expr(st, e);
            (s1, StmtView::Return(e2))
        },
        StmtView::If(c, a, b) => {
            let (s1, c2) = propagate_expr(st, c);
            let (s2, a2) = propagate_stmt(s1, *a);
            match b {
                Some(b) => {
                    let (s3, b2) = propagate_stmt(s2, *b);
                    (s3, StmtView::If(c2, Box::new(a2), Some(Box::new(b2))))
                },
                None => (s2, StmtView::If(c2, Box::new(a2), None)),
            }
        },
        StmtView::While(c, b) => {
            let (s1, c2) = propagate_expr(st, c);
            let (s2, b2) = propagate_stmt(s1, *b);
            (s2, StmtView::While(c2, Box::new(b2)))
        },
        StmtView::For(i, c, u, b) => {
            let s0 = enter_frame(st);
            let (s1, i2) = match i {
                Some(i) => {
                    let (s1, i2) = propagate_stmt(s0, *i);
                    (s1, Some(Box::new(i2)))
                },
                None => (s0, None),
            };
            let (s2, c2) = propagate_opt_expr(s1, c);
            let (s3, u2) = propagate_opt_expr(s2, u);
            let (s4, b2) = propagate_stmt(s3, *b);
            (exit_frame(s4), StmtView::For(i2, c2, u2, Box::new(b2)))
        },
        StmtView::Function(n, args, b) => {
            let s0 = enter_frame(st);
            let s1 = PropState { frames: shadow(s0.frames, args), open: s0.open };
            let (s2, b2) = propagate_stmt(s1, *b);
            (exit_frame(s2), StmtView::Function(n, args, Box::new(b2)))
        },
        StmtView::Scope(ss) => {
            let (s1, ss2) = propagate_stmts(enter_frame(st), ss);
            (exit_frame(s1), StmtView::Scope(ss2))
        },
        StmtView::Let(n, v) => {
            let (s1, v2) = propagate_expr(st, v);
            let known = match v2 {
                ExprView::Literal(l) => if is_const(l) {
                    Some(l)
                } else {
                    None
                },
                _ => None,
            };
            (declare(s1, n, known), StmtView::Let(n, v2))
        },
        _ => (st, s),
    }
}

pub open spec fn propagate_stmts(st: PropState, ss: Seq<StmtView>) -> (PropState, Seq<StmtView>)
    decreases ss,
{
    if ss.len() == 0 {
        (st, ss)
    } else {
        let (s1, h) = propagate_stmt(st, ss[0]);
        let (s2, t) = propagate_stmts(s1, ss.subrange(1, ss.len() as int));
        (s2, seq![h] + t)
    }
}

pub open spec fn initial_state() -> PropState {
    PropState { frames: seq![Seq::empty()], open: true }
}

/// Constant propagation on a program: a first walk only records constants,
/// then the table is closed and a second walk rewrites.
pub open spec fn propagate_program(prog: Seq<StmtView>) -> Seq<StmtView> {
    let found = propagate_stmts(initial_state(), prog).0;
    propagate_stmts(PropState { frames: found.frames, open: false }, prog).1
}

/// What a binary operator on two literals folds to, if anything.
pub open spec fn fold_binary(l: ExprView, op: BinaryOperator, r: ExprView) -> Option<LitView> {
    match (l, r) {
        (ExprView::Literal(LitView::Number(a)), ExprView::Literal(LitView::Number(b))) => if is_arith(op) {
            match num_op(op, a, b) {
                Some(v) => Some(LitView::Number(v)),
                None => None,
            }
        } else {
            None
        },
        (ExprView::Literal(LitView::String(a)), ExprView::Literal(LitView::String(b))) => if op
            == BinaryOperator::Add {
            Some(LitView::String(a + b))
        } else {
            None
        },
        _ => None,
    }
}

pub open spec fn fold_unary(op: UnaryOperator, x: ExprView) -> Option<LitView> {
    match (op, x) {
        (UnaryOperator::Negate, ExprView::Literal(LitView::Number(a))) => match neg_op(a) {
            Some(v) => Some(LitView::Number(v)),
            None => None,
        },
        (UnaryOperator::Not, ExprView::Literal(LitView::Boolean(b))) => Some(LitView::Boolean(!b)),
        _ => None,
    }
}

/// Constant folding, bottom-up: operands first, then the operator on them.
pub open spec fn fold_expr(e: ExprView) -> ExprView
    decreases e,
{
    match e {
        ExprView::Object(ps) => ExprView::Object(fold_props(ps)),
        ExprView::Array(es) => ExprView::Array(fold_exprs(es)),
        ExprView::BinaryOp(l, op, r) => {
            let l2 = fold_expr(*l);
            let r2 = fold_expr(*r);
            match fold_binary(l2, op, r2) {
                Some(v) => ExprView::Literal(v),
                None => ExprView::BinaryOp(Box::new(l2), op, Box::new(r2)),
            }
        },
        ExprView::UnaryOp(op, x) => {
            let x2 = fold_expr(*x);
            match fold_unary(op, x2) {
                Some(v) => ExprView::Literal(v),
                None => ExprView::UnaryOp(op, Box::new(x2)),
            }
        },
        ExprView::FunctionCall(c, args) => ExprView::FunctionCall(
            Box::new(fold_expr(*c)),
            fold_exprs(args),
        ),
        ExprView::Assignment(t, v) => ExprView::Assignment(
            Box::new(fold_expr(*t)),
            Box::new(fold_expr(*v)),
        ),
        ExprView::Index(t, i) => ExprView::Index(Box::new(fold_expr(*t)), Box::new(fold_expr(*i))),
        ExprView::Property(t, n) => ExprView::Property(Box::new(fold_expr(*t)), n),
        ExprView::Increment(t) => ExprView::Increment(Box::new(fold_expr(*t))),
        ExprView::Decrement(t) => ExprView::Decrement(Box::new(fold_expr(*t))),
        _ => e,
    }
}

pub open spec fn fold_exprs(es: Seq<ExprView>) -> Seq<ExprView>
    decreases es,
{
    if es.len() == 0 {
        es
    } else {
        seq![fold_expr(es[0])] + fold_exprs(es.subrange(1, es.len() as int))
    }
}

pub open spec fn fold_props(ps: Seq<(Seq<char>, ExprView)>) -> Seq<(Seq<char>, ExprView)>
    decreases ps,
{
    if ps.len() == 0 {
        ps
    } else {
        seq![(ps[0].0, fold_expr(ps[0].1))] + fold_props(ps.subrange(1, ps.len() as int))
    }
}

pub open spec fn fold_opt_expr(e: Option<ExprView>) -> Option<ExprView> {
    match e {
        Some(x) => Some(fold_expr(x)),
        None => None,
    }
}

pub open spec fn fold_stmt(s: StmtView) -> StmtView
    decreases s,
{
    match s {
        StmtView::Expression(e) => StmtView::Expression(fold_expr(e)),
        StmtView::Return(e) => StmtView::Return(fold_expr(e)),
        StmtView::If(c, a, b) => StmtView::If(
            fold_expr(c),
            Box::new(fold_stmt(*a)),
            match b {
                Some(b) => Some(Box::new(fold_stmt(*b))),
                None => None,
            },
        ),
        StmtView::While(c, b) => StmtView::While(fold_expr(c), Box::new(fold_stmt(*b))),
        StmtView::For(i, c, u, b) => StmtView::For(
            match i {
                Some(i) => Some(Box::new(fold_stmt(*i))),
                None => None,
            },
            fold_opt_expr(c),
            fold_opt_expr(u),
            Box::new(fold_stmt(*b)),
        ),
        StmtView::Function(n, args, b) => StmtView::Function(n, args, Box::new(fold_stmt(*b))),
        StmtView::Scope(ss) => StmtView::Scope(fold_stmts(ss)),
        StmtView::Let(n, v) => StmtView::Let(n, fold_expr(v)),
        _ => s,
    }
}

pub open spec fn fold_stmts(ss: Seq<StmtView>) -> Seq<StmtView>
    decreases ss,
{
    if ss.len() == 0 {
        ss
    } else {
        seq![fold_stmt(ss[0])] + fold_stmts(ss.subrange(1, ss.len() as int))
    }
}

/// The whole optimizer: constant propagation, then constant folding.
pub open spec fn optimize_spec(prog: Seq<StmtView>) -> Seq<StmtView> {
    fold_stmts(propagate_program(prog))
}

/// Folding an expression that was already folded changes nothing.
pub proof fn lemma_fold_expr_idempotent(e: ExprView)
    ensures
        fold_expr(fold_expr(e)) == fold_expr(e),
    decreases e,
{
    match e {
        ExprView::Object(ps) => lemma_fold_props_idempotent(ps),
        ExprView::Array(es) => lemma_fold_exprs_idempotent(es),
        ExprView::BinaryOp(l, op, r) => {
            lemma_fold_expr_idempotent(*l);
            lemma_fold_expr_idempotent(*r);
        },
        ExprView::UnaryOp(op, x) => lemma_fold_expr_idempotent(*x),
        ExprView::FunctionCall(c, args) => {
            lemma_fold_expr_idempotent(*c);
            lemma_fold_exprs_idempotent(args);
        },
        ExprView::Assignment(t, v) => {
            lemma_fold_expr_idempotent(*t);
            lemma_fold_expr_idempotent(*v);
        },
        ExprView::Index(t, i) => {
            lemma_fold_expr_idempotent(*t);
            lemma_fold_expr_idempotent(*i);
        },
        ExprView::Property(t, n) => lemma_fold_expr_idempotent(*t),
        ExprView::Increment(t) => lemma_fold_expr_idempotent(*t),
        ExprView::Decrement(t) => lemma_fold_expr_idempotent(*t),
        _ => {},
    }
}

pub proof fn lemma_fold_exprs_idempotent(es: Seq<ExprView>)
    ensures
        fold_exprs(fold_exprs(es)) == fold_exprs(es),
    decreases es,
{
    if es.len() > 0 {
        let rest = es.subrange(1, es.len() as int);
        lemma_fold_expr_idempotent(es[0]);
        lemma_fold_exprs_idempotent(rest);
        let once = fold_exprs(es);
        assert(once.subrange(1, once.len() as int) =~= fold_exprs(rest));
    }
}

pub proof fn lemma_fold_props_idempotent(ps: Seq<(Seq<char>, ExprView)>)
    ensures
        fold_props(fold_props(ps)) == fold_props(ps),
    decreases ps,
{
    if ps.len() > 0 {
        let rest = ps.subrange(1, ps.len() as int);
        lemma_fold_expr_idempotent(ps[0].1);
        lemma_fold_props_idempotent(rest);
        let once = fold_props(ps);
        assert(once.subrange(1, once.len() as int) =~= fold_props(rest));
    }
}

pub proof fn lemma_fold_stmt_idempotent(s: StmtView)
    ensures
        fold_stmt(fold_stmt(s)) == fold_stmt(s),
    decreases s,
{
    match s {
        StmtView::Expression(e) => lemma_fold_expr_idempotent(e),
        StmtView::Return(e) => lemma_fold_expr_idempotent(e),
        StmtView::If(c, a, b) => {
            lemma_fold_expr_idempotent(c);
            lemma_fold_stmt_idempotent(*a);
            if let Some(b) = b {
                lemma_fold_stmt_idempotent(*b);
            }
        },
        StmtView::While(c, b) => {
            lemma_fold_expr_idempotent(c);
            lemma_fold_stmt_idempotent(*b);
        },
        StmtView::For(i, c, u, b) => {
            if let Some(i) = i {
                lemma_fold_stmt_idempotent(*i);
            }
            if let Some(c) = c {
                lemma_fold_expr_idempotent(c);
            }
            if let Some(u) = u {
                lemma_fold_expr_idempotent(u);
            }
            lemma_fold_stmt_idempotent(*b);
        },
        StmtView::Function(n, args, b) => lemma_fold_stmt_idempotent(*b),
        StmtView::Scope(ss) => lemma_fold_stmts_idempotent(ss),
        StmtView::Let(n, v) => lemma_fold_expr_idempotent(v),
        _ => {},
    }
}

/// Constant folding is idempotent: folding a program twice gives the same
/// tree as folding it once.
pub proof fn lemma_fold_stmts_idempotent(ss: Seq<StmtView>)
    ensures
        fold_stmts(fold_stmts(ss)) == fold_stmts(ss),
    decreases ss,
{
    if ss.len() > 0 {
        let rest = ss.subrange(1, ss.len() as int);
        lemma_fold_stmt_idempotent(ss[0]);
        lemma_fold_stmts_idempotent(rest);
        let once = fold_stmts(ss);
        assert(once.subrange(1, once.len() as int) =~= fold_stmts(rest));
    }
}

/// A value the optimizer can stand in for a name.
#[derive(Debug, Clone, PartialEq)]
pub enum ConstVal {
    StringLiteral(String),
    Number(i64),
    Boolean(bool),
    /// A name whose value is not known statically.
    Unknown,
}

impl View for ConstVal {
    type V = LitView;

    open spec fn view(&self) -> LitView {
        match self {
            ConstVal::StringLiteral(s) => LitView::String(s@),
            ConstVal::Number(n) => LitView::Number(*n),
            ConstVal::Boolean(b) => LitView::Boolean(*b),
            ConstVal::Unknown => unknown(),
        }
    }
}

impl ConstVal {
    pub fn into_literal(self) -> (r: Literal)
        ensures
            lit_view(r) == self@,
    {
        match self {
            ConstVal::StringLiteral(s) => Literal::String(s),
            ConstVal::Number(n) => Literal::Number(n),
            ConstVal::Boolean(b) => Literal::Boolean(b),
            ConstVal::Unknown => Literal::Undefined,
        }
    }

    pub fn into_expression(self) -> (r: Expression)
        ensures
            expr_view(r) == ExprView::Literal(self@),
    {
        Expression::Literal(self.into_literal())
    }

    fn duplicate(&self) -> (r: ConstVal)
        ensures
            r@ == self@,
    {
        match self {
            ConstVal::StringLiteral(s) => ConstVal::StringLiteral(s.clone()),
            ConstVal::Number(n) => ConstVal::Number(*n),
            ConstVal::Boolean(b) => ConstVal::Boolean(*b),
            ConstVal::Unknown => ConstVal::Unknown,
        }
    }

    fn of_literal(l: &Literal) -> (r: Option<ConstVal>)
        ensures
            r is Some <==> is_const(lit_view(*l)),
            r is Some ==> r->0@ == lit_view(*l),
    {
        match l {
            Literal::Number(n) => Some(ConstVal::Number(*n)),
            Literal::String(s) => Some(ConstVal::StringLiteral(s.clone())),
            Literal::Boolean(b) => Some(ConstVal::Boolean(*b)),
            _ => None,
        }
    }
}

pub open spec fn frame_view(f: Seq<(String, ConstVal)>) -> ConstFrame {
    f.map_values(|kv: (String, ConstVal)| (kv.0@, kv.1@))
}

pub open spec fn frames_view(fs: Seq<Vec<(String, ConstVal)>>) -> Seq<ConstFrame> {
    fs.map_values(|f: Vec<(String, ConstVal)>| frame_view(f@))
}

fn find_in_frame(f: &Vec<(String, ConstVal)>, k: &String) -> (r: Option<usize>)
    ensures
        match r {
            Some(i) => find_in(frame_view(f@), k@) == Some(i as int),
            None => find_in(frame_view(f@), k@) is None,
        },
{
    let ghost fv = frame_view(f@);
    let mut i: usize = 0;
    while i < f.len()
        invariant
            i <= f@.len(),
            fv == frame_view(f@),
            find_in(fv, k@) == find_from(fv, k@, i as int),
        decreases f@.len() - i,
    {
        if f[i].0 == *k {
            return Some(i);
        }
        i = i + 1;
    }
    None
}

pub struct Optimizer {
    ast: AST,
    constants: Vec<Vec<(String, ConstVal)>>,
    allow_new_constants: bool,
}

impl Optimizer {
    /// The constant table.
    pub closed spec fn state(&self) -> PropState {
        PropState { frames: frames_view(self.constants@), open: self.allow_new_constants }
    }

    /// The program being optimized.
    pub closed spec fn program(&self) -> Seq<StmtView> {
        self.ast@
    }

    pub fn new(ast: AST) -> (r: Self)
        ensures
            r.program() == ast@,
            r.state() == initial_state(),
    {
        let mut constants: Vec<Vec<(String, ConstVal)>> = Vec::new();
        constants.push(Vec::new());
        let r = Optimizer { ast, constants, allow_new_constants: true };
        assert(frames_view(r.constants@) =~= seq![Seq::<(Seq<char>, LitView)>::empty()]) by {
            assert(frame_view(r.constants@[0]@) =~= Seq::<(Seq<char>, LitView)>::empty());
        }
        r
    }

    /// The innermost frame with an entry for `k`, and that entry.
    fn locate(&self, k: &String) -> (r: Option<(usize, usize)>)
        ensures
            match r {
                Some((j, i)) => innermost(self.state().frames, k@) == Some(j as int) && find_in(
                    self.state().frames[j as int],
                    k@,
                ) == Some(i as int) && j < self.constants@.len() && i
                    < self.constants@[j as int]@.len(),
                None => innermost(self.state().frames, k@) is None,
            },
    {
        let ghost fv = self.state().frames;
        let mut j: usize = self.constants.len();
        assert(fv.subrange(0, j as int) =~= fv);
        while j > 0
            invariant
                j <= self.constants@.len(),
                fv == self.state().frames,
                innermost(fv, k@) == innermost(fv.subrange(0, j as int), k@),
            decreases j,
        {
            let ghost sub = fv.subrange(0, j as int);
            assert(sub.last() == fv[j - 1]);
            assert(sub.drop_last() =~= fv.subrange(0, j - 1));
            match find_in_frame(&self.constants[j - 1], k) {
                Some(i) => {
                    proof {
                        lemma_find_bounds(fv[j - 1], k@, 0);
                    }
                    return Some((j - 1, i));
                },
                None => {},
            }
            j = j - 1;
        }
        None
    }

    fn get_constant(&self, name: &String) -> (r: Option<ConstVal>)
        ensures
            match r {
                Some(c) => constant_of(self.state().frames, name@) == Some(c@),
                None => constant_of(self.state().frames, name@) is None,
            },
    {
        match self.locate(name) {
            Some((j, i)) => match &self.constants[j][i].1 {
                ConstVal::Unknown => None,
                c => Some(c.duplicate()),
            },
            None => None,
        }
    }

    /// Makes the innermost entry of `name`, if any, unknown.
    fn invalidate(&mut self, name: &String)
        ensures
            final(self).state() == (PropState {
                frames: rebind(old(self).state().frames, name@, unknown()),
                open: old(self).state().open,
            }),
            final(self).ast == old(self).ast,
    {
        match self.locate(name) {
            Some((j, i)) => {
                let ghost fv = self.state().frames;
                let mut f = self.constants.remove(j);
                let ghost fo = f@;
                proof {
                    lemma_find_bounds(fv[j as int], name@, 0);
                }
                f.set(i, (name.clone(), ConstVal::Unknown));
                assert(frame_view(f@) =~= frame_view(fo).update(i as int, (name@, unknown())));
                self.constants.insert(j, f);
                assert(frames_view(self.constants@) =~= fv.update(
                    j as int,
                    fv[j as int].update(i as int, (name@, unknown())),
                ));
            },
            None => {},
        }
    }

    /// Binds `name` to `value` in the innermost frame.
    fn bind_entry(&mut self, name: String, value: ConstVal)
        ensures
            final(self).state() == (PropState {
                frames: bind(old(self).state().frames, name@, value@),
                open: old(self).state().open,
            }),
            final(self).ast == old(self).ast,
    {
        if self.constants.len() == 0 {
            return;
        }
        let ghost fv = self.state().frames;
        let mut f = match self.constants.pop() {
            Some(f) => f,
            None => {
                return;
            },
        };
        let ghost fo = f@;
        let ghost kv = (name@, value@);
        match find_in_frame(&f, &name) {
            Some(i) => {
                proof {
                    lemma_find_bounds(frame_view(fo), name@, 0);
                }
                f.remove(i);
                f.insert(i, (name, value));
                assert(frame_view(f@) =~= frame_view(fo).update(i as int, kv));
            },
            None => {
                f.push((name, value));
                assert(frame_view(f@) =~= frame_view(fo).push(kv));
            },
        }
        self.constants.push(f);
        assert(frames_view(self.constants@) =~= bind(fv, kv.0, kv.1));
    }

    /// Whether the innermost frame has an entry for `name`.
    fn declared_here(&self, name: &String) -> (r: bool)
        ensures
            self.state().frames.len() > 0 ==> r == (find_in(self.state().frames.last(), name@) is Some),
    {
        let n = self.constants.len();
        if n == 0 {
            return false;
        }
        match find_in_frame(&self.constants[n - 1], name) {
            Some(_) => true,
            None => false,
        }
    }

    fn declare(&mut self, name: String, value: Option<ConstVal>)
        requires
            value is Some ==> is_const(value->0@),
        ensures
            final(self).state() == declare(
                old(self).state(),
                name@,
                match value {
                    Some(c) => Some(c@),
                    None => None,
                },
            ),
            final(self).ast == old(self).ast,
    {
        if self.constants.len() == 0 {
            return;
        }
        let known = self.declared_here(&name);
        if !self.allow_new_constants && known {
            return;
        }
        let entry = if self.allow_new_constants && !known {
            match value {
                Some(c) => c,
                None => ConstVal::Unknown,
            }
        } else {
            ConstVal::Unknown
        };
        self.bind_entry(name, entry);
    }

    /// Enters each parameter name as unknown in the innermost frame.
    fn shadow_params(&mut self, names: &Vec<String>)
        ensures
            final(self).state() == (PropState {
                frames: shadow(old(self).state().frames, names_view(names@)),
                open: old(self).state().open,
            }),
            final(self).ast == old(self).ast,
    {
        let ghost nv = names_view(names@);
        let ghost target = shadow(self.state().frames, nv);
        let mut i: usize = 0;
        assert(nv.subrange(0, nv.len() as int) =~= nv);
        while i < names.len()
            invariant
                i <= names@.len(),
                nv == names_view(names@),
                self.ast == old(self).ast,
                self.state().open == old(self).state().open,
                target == shadow(old(self).state().frames, nv),
                target == shadow(self.state().frames, nv.subrange(i as int, nv.len() as int)),
            decreases names@.len() - i,
        {
            let ghost rest = nv.subrange(i as int, nv.len() as int);
            assert(rest.drop_first() =~= nv.subrange(i + 1, nv.len() as int));
            self.bind_entry(names[i].clone(), ConstVal::Unknown);
            i = i + 1;
        }
    }

    fn close_constants(&mut self)
        ensures
            final(self).state() == (PropState { frames: old(self).state().frames, open: false }),
            final(self).ast == old(self).ast,
    {
        self.allow_new_constants = false;
    }

    fn enter(&mut self)
        ensures
            final(self).state() == enter_frame(old(self).state()),
            final(self).ast == old(self).ast,
    {
        self.constants.push(Vec::new());
        proof {
            let e: Vec<(String, ConstVal)> = self.constants@.last();
            assert(frame_view(e@) =~= Seq::<(Seq<char>, LitView)>::empty());
            assert(frames_view(self.constants@) =~= enter_frame(old(self).state()).frames);
        }
    }

    fn exit(&mut self)
        ensures
            final(self).state() == exit_frame(old(self).state()),
            final(self).ast == old(self).ast,
    {
        let ghost fv = self.state().frames;
        let _ = self.constants.pop();
        assert(fv.len() > 0 ==> frames_view(self.constants@) =~= fv.drop_last());
    }
}

impl Optimizer {
    fn propagate_expression(&mut self, e: Expression) -> (r: Expression)
        ensures
            (final(self).state(), expr_view(r)) == propagate_expr(old(self).state(), expr_view(e)),
            final(self).ast == old(self).ast,
        decreases e,
    {
        match e {
            Expression::Identifier(id) => match self.get_constant(&id) {
                Some(c) => c.into_expression(),
                None => Expression::Identifier(id),
            },
            Expression::Object { properties } => Expression::Object {
                properties: self.propagate_properties(properties),
            },
            Expression::Array { elements } => Expression::Array {
                elements: self.propagate_list(elements),
            },
            Expression::BinaryOp { left, op, right } => {
                let l = self.propagate_expression(*left);
                let r = self.propagate_expression(*right);
                Expression::BinaryOp { left: Box::new(l), op, right: Box::new(r) }
            },
            Expression::UnaryOp { op, expr } => {
                let x = self.propagate_expression(*expr);
                Expression::UnaryOp { op, expr: Box::new(x) }
            },
            Expression::Assignment { target, value } => {
                match &*target {
                    Expression::Identifier(id) => self.invalidate(id),
                    _ => {
                        assert(!(expr_view(*target) is Identifier));
                    },
                }
                let v = self.propagate_expression(*value);
                Expression::Assignment { target, value: Box::new(v) }
            },
            other => other,
        }
    }

    fn propagate_list(&mut self, es: Vec<Expression>) -> (r: Vec<Expression>)
        ensures
            (final(self).state(), all_exprs(r@)) == propagate_exprs(
                old(self).state(),
                all_exprs(es@),
            ),
            final(self).ast == old(self).ast,
        decreases es,
    {
        let ghost orig = es;
        let ghost st0 = self.state();
        let ghost ast0 = self.ast;
        let mut rest = es;
        let mut out: Vec<Expression> = Vec::new();
        let ghost mut k: int = 0;
        assert(all_exprs(out@) =~= Seq::<ExprView>::empty());
        assert(rest@.subrange(0, rest@.len() as int) =~= rest@);
        while rest.len() > 0
            invariant
                0 <= k <= orig@.len(),
                rest@ == orig@.subrange(k, orig@.len() as int),
                self.ast == ast0,
                orig == es,
                propagate_exprs(st0, all_exprs(orig@)) == (
                    propagate_exprs(self.state(), all_exprs(rest@)).0,
                    all_exprs(out@) + propagate_exprs(self.state(), all_exprs(rest@)).1,
                ),
            decreases rest@.len(),
        {
            let ghost rv = rest@;
            let x = rest.remove(0);
            proof {
                lemma_all_exprs_remove_first(rv);
                assert(x == orig@[k]);
                assert(decreases_to!(orig => orig@));
                assert(decreases_to!(orig@ => orig@[k]));
                let xs = all_exprs(rv);
                assert(xs[0] == expr_view(x));
                assert(xs.subrange(1, xs.len() as int) =~= all_exprs(rest@));
            }
            let ghost before = self.state();
            let y = self.propagate_expression(x);
            let ghost ob = out@;
            out.push(y);
            proof {
                lemma_all_exprs_push(ob, y);
                let t = propagate_exprs(self.state(), all_exprs(rest@)).1;
                assert(all_exprs(ob) + (seq![expr_view(y)] + t) =~= all_exprs(out@) + t);
                assert(rest@ =~= orig@.subrange(k + 1, orig@.len() as int));
                k = k + 1;
            }
        }
        assert(all_exprs(out@) + Seq::<ExprView>::empty() =~= all_exprs(out@));
        out
    }

    fn propagate_properties(&mut self, ps: Vec<(String, Expression)>) -> (r: Vec<
        (String, Expression),
    >)
        ensures
            (final(self).state(), all_props(r@)) == propagate_props(
                old(self).state(),
                all_props(ps@),
            ),
            final(self).ast == old(self).ast,
        decreases ps,
    {
        let ghost orig = ps;
        let ghost st0 = self.state();
        let ghost ast0 = self.ast;
        let mut rest = ps;
        let mut out: Vec<(String, Expression)> = Vec::new();
        let ghost mut k: int = 0;
        assert(all_props(out@) =~= Seq::<(Seq<char>, ExprView)>::empty());
        assert(rest@.subrange(0, rest@.len() as int) =~= rest@);
        while rest.len() > 0
            invariant
                0 <= k <= orig@.len(),
                rest@ == orig@.subrange(k, orig@.len() as int),
                self.ast == ast0,
                orig == ps,
                propagate_props(st0, all_props(orig@)) == (
                    propagate_props(self.state(), all_props(rest@)).0,
                    all_props(out@) + propagate_props(self.state(), all_props(rest@)).1,
                ),
            decreases rest@.len(),
        {
            let ghost rv = rest@;
            let (key, x) = rest.remove(0);
            proof {
                lemma_all_props_remove_first(rv);
                assert((key, x) == orig@[k]);
                assert(decreases_to!(orig => orig@));
                assert(decreases_to!(orig@ => orig@[k]));
                assert(decreases_to!(orig@[k] => orig@[k].1));
                let xs = all_props(rv);
                assert(xs[0] == (key@, expr_view(x)));
                assert(xs.subrange(1, xs.len() as int) =~= all_props(rest@));
            }
            let y = self.propagate_expression(x);
            let ghost ob = out@;
            let ghost kv = (key, y);
            out.push((key, y));
            proof {
                lemma_all_props_push(ob, kv);
                let t = propagate_props(self.state(), all_props(rest@)).1;
                assert(all_props(ob) + (seq![(kv.0@, expr_view(y))] + t) =~= all_props(out@) + t);
                assert(rest@ =~= orig@.subrange(k + 1, orig@.len() as int));
                k = k + 1;
            }
        }
        assert(all_props(out@) + Seq::<(Seq<char>, ExprView)>::empty() =~= all_props(out@));
        out
    }

    fn propagate_statement(&mut self, s: Statement) -> (r: Statement)
        ensures
            (final(self).state(), stmt_view(r)) == propagate_stmt(old(self).state(), stmt_view(s)),
            final(self).ast == old(self).ast,
        decreases s,
    {
        match s {
            Statement::Expression(e) => Statement::Expression(Box::new(self.propagate_expression(*e))),
            Statement::Return(e) => Statement::Return(Box::new(self.propagate_expression(*e))),
            Statement::If { condition, consequence, alternative } => {
                let c = self.propagate_expression(*condition);
                let a = self.propagate_statement(*consequence);
                let b = match alternative {
                    Some(b) => Some(Box::new(self.propagate_statement(*b))),
                    None => None,
                };
                Statement::If { condition: Box::new(c), consequence: Box::new(a), alternative: b }
            },
            Statement::While { condition, body } => {
                let c = self.propagate_expression(*condition);
                let b = self.propagate_statement(*body);
                Statement::While { condition: Box::new(c), body: Box::new(b) }
            },
            Statement::For { init, condition, update, body } => {
                self.enter();
                let i = match init {
                    Some(i) => Some(Box::new(self.propagate_statement(*i))),
                    None => None,
                };
                let c = match condition {
                    Some(c) => Some(Box::new(self.propagate_expression(*c))),
                    None => None,
                };
                let u = match update {
                    Some(u) => Some(Box::new(self.propagate_expression(*u))),
                    None => None,
                };
                let b = self.propagate_statement(*body);
                self.exit();
                Statement::For { init: i, condition: c, update: u, body: Box::new(b) }
            },
            Statement::Function { name, args, body } => {
                self.enter();
                self.shadow_params(&args);
                let b = self.propagate_statement(*body);
                self.exit();
                Statement::Function { name, args, body: Box::new(b) }
            },
            Statement::Scope { statements } => {
                self.enter();
                let ss = self.propagate_statements(statements);
                self.exit();
                Statement::Scope { statements: ss }
            },
            Statement::Let { name, value } => {
                let v = self.propagate_expression(*value);
                let known = match &v {
                    Expression::Literal(l) => ConstVal::of_literal(l),
                    _ => None,
                };
                self.declare(name.clone(), known);
                Statement::Let { name, value: Box::new(v) }
            },
            other => other,
        }
    }

    fn propagate_statements(&mut self, ss: Vec<Statement>) -> (r: Vec<Statement>)
        ensures
            (final(self).state(), all_stmts(r@)) == propagate_stmts(
                old(self).state(),
                all_stmts(ss@),
            ),
            final(self).ast == old(self).ast,
        decreases ss,
    {
        let ghost orig = ss;
        let ghost st0 = self.state();
        let ghost ast0 = self.ast;
        let mut rest = ss;
        let mut out: Vec<Statement> = Vec::new();
        let ghost mut k: int = 0;
        assert(all_stmts(out@) =~= Seq::<StmtView>::empty());
        assert(rest@.subrange(0, rest@.len() as int) =~= rest@);
        while rest.len() > 0
            invariant
                0 <= k <= orig@.len(),
                rest@ == orig@.subrange(k, orig@.len() as int),
                self.ast == ast0,
                orig == ss,
                propagate_stmts(st0, all_stmts(orig@)) == (
                    propagate_stmts(self.state(), all_stmts(rest@)).0,
                    all_stmts(out@) + propagate_stmts(self.state(), all_stmts(rest@)).1,
                ),
            decreases rest@.len(),
        {
            let ghost rv = rest@;
            let x = rest.remove(0);
            proof {
                lemma_all_stmts_remove_first(rv);
                assert(x == orig@[k]);
                assert(decreases_to!(orig => orig@));
                assert(decreases_to!(orig@ => orig@[k]));
                let xs = all_stmts(rv);
                assert(xs[0] == stmt_view(x));
                assert(xs.subrange(1, xs.len() as int) =~= all_stmts(rest@));
            }
            let y = self.propagate_statement(x);
            let ghost ob = out@;
            out.push(y);
            proof {
                lemma_all_stmts_push(ob, y);
                let t = propagate_stmts(self.state(), all_stmts(rest@)).1;
                assert(all_stmts(ob) + (seq![stmt_view(y)] + t) =~= all_stmts(out@) + t);
                assert(rest@ =~= orig@.subrange(k + 1, orig@.len() as int));
                k = k + 1;
            }
        }
        assert(all_stmts(out@) + Seq::<StmtView>::empty() =~= all_stmts(out@));
        out
    }
}

fn fold_binary_literals(l: &Expression, op: BinaryOperator, r: &Expression) -> (res: Option<Literal>)
    ensures
        match res {
            Some(v) => fold_binary(expr_view(*l), op, expr_view(*r)) == Some(lit_view(v)),
            None => fold_binary(expr_view(*l), op, expr_view(*r)) is None,
        },
{
    match (l, r) {
        (Expression::Literal(Literal::Number(a)), Expression::Literal(Literal::Number(b))) => {
            assert(lit_view(Literal::Number(*a)) == LitView::Number(*a));
            assert(lit_view(Literal::Number(*b)) == LitView::Number(*b));
            match op {
                BinaryOperator::Add | BinaryOperator::Sub | BinaryOperator::Mul | BinaryOperator::Div
                | BinaryOperator::Mod => match checked_num_op(op, *a, *b) {
                    Some(v) => {
                        assert(lit_view(Literal::Number(v)) == LitView::Number(v));
                        Some(Literal::Number(v))
                    },
                    None => None,
                },
                _ => None,
            }
        },
        (Expression::Literal(Literal::String(a)), Expression::Literal(Literal::String(b))) => {
            assert(lit_view(Literal::String(*a)) == LitView::String(a@));
            assert(lit_view(Literal::String(*b)) == LitView::String(b@));
            if op == BinaryOperator::Add {
                let joined = a.clone().concat(b.as_str());
                assert(lit_view(Literal::String(joined)) == LitView::String(joined@));
                Some(Literal::String(joined))
            } else {
                None
            }
        },
        _ => {
            assert(fold_binary(expr_view(*l), op, expr_view(*r)) is None) by {
                reveal_with_fuel(lit_view, 1);
                if expr_view(*l) is Literal && expr_view(*r) is Literal {
                    match (l, r) {
                        (Expression::Literal(x), Expression::Literal(y)) => {
                            assert(lit_view(*x) is Number ==> x is Number);
                            assert(lit_view(*x) is String ==> x is String);
                            assert(lit_view(*y) is Number ==> y is Number);
                            assert(lit_view(*y) is String ==> y is String);
                        },
                        _ => {},
                    }
                }
            }
            None
        },
    }
}

fn fold_unary_literal(op: UnaryOperator, x: &Expression) -> (res: Option<Literal>)
    ensures
        match res {
            Some(v) => fold_unary(op, expr_view(*x)) == Some(lit_view(v)),
            None => fold_unary(op, expr_view(*x)) is None,
        },
{
    match (op, x) {
        (UnaryOperator::Negate, Expression::Literal(Literal::Number(a))) => {
            assert(lit_view(Literal::Number(*a)) == LitView::Number(*a));
            match checked_neg(*a) {
                Some(v) => {
                    assert(lit_view(Literal::Number(v)) == LitView::Number(v));
                    Some(Literal::Number(v))
                },
                None => None,
            }
        },
        (UnaryOperator::Not, Expression::Literal(Literal::Boolean(b))) => {
            assert(lit_view(Literal::Boolean(*b)) == LitView::Boolean(*b));
            assert(lit_view(Literal::Boolean(!*b)) == LitView::Boolean(!*b));
            Some(Literal::Boolean(!*b))
        },
        _ => {
            assert(fold_unary(op, expr_view(*x)) is None) by {
                match x {
                    Expression::Literal(y) => {
                        assert(lit_view(*y) is Number ==> y is Number);
                        assert(lit_view(*y) is Boolean ==> y is Boolean);
                    },
                    _ => {},
                }
            }
            None
        },
    }
}

impl Optimizer {
    fn fold_expression(&self, e: Expression) -> (r: Expression)
        ensures
            expr_view(r) == fold_expr(expr_view(e)),
        decreases e,
    {
        match e {
            Expression::Object { properties } => Expression::Object {
                properties: self.fold_properties(properties),
            },
            Expression::Array { elements } => Expression::Array { elements: self.fold_list(elements) },
            Expression::BinaryOp { left, op, right } => {
                let l = self.fold_expression(*left);
                let r = self.fold_expression(*right);
                match fold_binary_literals(&l, op, &r) {
                    Some(v) => Expression::Literal(v),
                    None => Expression::BinaryOp { left: Box::new(l), op, right: Box::new(r) },
                }
            },
            Expression::UnaryOp { op, expr } => {
                let x = self.fold_expression(*expr);
                match fold_unary_literal(op, &x) {
                    Some(v) => Expression::Literal(v),
                    None => Expression::UnaryOp { op, expr: Box::new(x) },
                }
            },
            Expression::FunctionCall { callee, args } => {
                let c = self.fold_expression(*callee);
                let a = self.fold_list(args);
                Expression::FunctionCall { callee: Box::new(c), args: a }
            },
            Expression::Assignment { target, value } => {
                let t = self.fold_expression(*target);
                let v = self.fold_expression(*value);
                Expression::Assignment { target: Box::new(t), value: Box::new(v) }
            },
            Expression::Index { target, index } => {
                let t = self.fold_expression(*target);
                let i = self.fold_expression(*index);
                Expression::Index { target: Box::new(t), index: Box::new(i) }
            },
            Expression::Property { target, name } => {
                let t = self.fold_expression(*target);
                Expression::Property { target: Box::new(t), name }
            },
            Expression::Increment { target } => {
                let t = self.fold_expression(*target);
                Expression::Increment { target: Box::new(t) }
            },
            Expression::Decrement { target } => {
                let t = self.fold_expression(*target);
                Expression::Decrement { target: Box::new(t) }
            },
            other => other,
        }
    }

    fn fold_list(&self, es: Vec<Expression>) -> (r: Vec<Expression>)
        ensures
            all_exprs(r@) == fold_exprs(all_exprs(es@)),
        decreases es,
    {
        let ghost orig = es;
        let mut rest = es;
        let mut out: Vec<Expression> = Vec::new();
        let ghost mut k: int = 0;
        assert(all_exprs(out@) =~= Seq::<ExprView>::empty());
        assert(rest@.subrange(0, rest@.len() as int) =~= rest@);
        while rest.len() > 0
            invariant
                0 <= k <= orig@.len(),
                rest@ == orig@.subrange(k, orig@.len() as int),
                orig == es,
                fold_exprs(all_exprs(orig@)) == all_exprs(out@) + fold_exprs(all_exprs(rest@)),
            decreases rest@.len(),
        {
            let ghost rv = rest@;
            let x = rest.remove(0);
            proof {
                lemma_all_exprs_remove_first(rv);
                assert(x == orig@[k]);
                assert(decreases_to!(orig => orig@));
                assert(decreases_to!(orig@ => orig@[k]));
                let xs = all_exprs(rv);
                assert(xs[0] == expr_view(x));
                assert(xs.subrange(1, xs.len() as int) =~= all_exprs(rest@));
            }
            let y = self.fold_expression(x);
            let ghost ob = out@;
            out.push(y);
            proof {
                lemma_all_exprs_push(ob, y);
                let t = fold_exprs(all_exprs(rest@));
                assert(all_exprs(ob) + (seq![expr_view(y)] + t) =~= all_exprs(out@) + t);
                assert(rest@ =~= orig@.subrange(k + 1, orig@.len() as int));
                k = k + 1;
            }
        }
        assert(all_exprs(out@) + Seq::<ExprView>::empty() =~= all_exprs(out@));
        out
    }

    fn fold_properties(&self, ps: Vec<(String, Expression)>) -> (r: Vec<(String, Expression)>)
        ensures
            all_props(r@) == fold_props(all_props(ps@)),
        decreases ps,
    {
        let ghost orig = ps;
        let mut rest = ps;
        let mut out: Vec<(String, Expression)> = Vec::new();
        let ghost mut k: int = 0;
        assert(all_props(out@) =~= Seq::<(Seq<char>, ExprView)>::empty());
        assert(rest@.subrange(0, rest@.len() as int) =~= rest@);
        while rest.len() > 0
            invariant
                0 <= k <= orig@.len(),
                rest@ == orig@.subrange(k, orig@.len() as int),
                orig == ps,
                fold_props(all_props(orig@)) == all_props(out@) + fold_props(all_props(rest@)),
            decreases rest@.len(),
        {
            let ghost rv = rest@;
            let (key, x) = rest.remove(0);
            proof {
                lemma_all_props_remove_first(rv);
                assert((key, x) == orig@[k]);
                assert(decreases_to!(orig => orig@));
                assert(decreases_to!(orig@ => orig@[k]));
                assert(decreases_to!(orig@[k] => orig@[k].1));
                let xs = all_props(rv);
                assert(xs[0] == (key@, expr_view(x)));
                assert(xs.subrange(1, xs.len() as int) =~= all_props(rest@));
            }
            let y = self.fold_expression(x);
            let ghost ob = out@;
            let ghost kv = (key, y);
            out.push((key, y));
            proof {
                lemma_all_props_push(ob, kv);
                let t = fold_props(all_props(rest@));
                assert(all_props(ob) + (seq![(kv.0@, expr_view(y))] + t) =~= all_props(out@) + t);
                assert(rest@ =~= orig@.subrange(k + 1, orig@.len() as int));
                k = k + 1;
            }
        }
        assert(all_props(out@) + Seq::<(Seq<char>, ExprView)>::empty() =~= all_props(out@));
        out
    }

    fn fold_statement(&self, s: Statement) -> (r: Statement)
        ensures
            stmt_view(r) == fold_stmt(stmt_view(s)),
        decreases s,
    {
        match s {
            Statement::Expression(e) => Statement::Expression(Box::new(self.fold_expression(*e))),
            Statement::Return(e) => Statement::Return(Box::new(self.fold_expression(*e))),
            Statement::If { condition, consequence, alternative } => {
                let c = self.fold_expression(*condition);
                let a = self.fold_statement(*consequence);
                let b = match alternative {
                    Some(b) => Some(Box::new(self.fold_statement(*b))),
                    None => None,
                };
                Statement::If { condition: Box::new(c), consequence: Box::new(a), alternative: b }
            },
            Statement::While { condition, body } => {
                let c = self.fold_expression(*condition);
                let b = self.fold_statement(*body);
                Statement::While { condition: Box::new(c), body: Box::new(b) }
            },
            Statement::For { init, condition, update, body } => {
                let i = match init {
                    Some(i) => Some(Box::new(self.fold_statement(*i))),
                    None => None,
                };
                let c = match condition {
                    Some(c) => Some(Box::new(self.fold_expression(*c))),
                    None => None,
                };
                let u = match update {
                    Some(u) => Some(Box::new(self.fold_expression(*u))),
                    None => None,
                };
                let b = self.fold_statement(*body);
                Statement::For { init: i, condition: c, update: u, body: Box::new(b) }
            },
            Statement::Function { name, args, body } => {
                let b = self.fold_statement(*body);
                Statement::Function { name, args, body: Box::new(b) }
            },
            Statement::Scope { statements } => Statement::Scope {
                statements: self.fold_statements(statements),
            },
            Statement::Let { name, value } => Statement::Let {
                name,
                value: Box::new(self.fold_expression(*value)),
            },
            other => other,
        }
    }

    fn fold_statements(&self, ss: Vec<Statement>) -> (r: Vec<Statement>)
        ensures
            all_stmts(r@) == fold_stmts(all_stmts(ss@)),
        decreases ss,
    {
        let ghost orig = ss;
        let mut rest = ss;
        let mut out: Vec<Statement> = Vec::new();
        let ghost mut k: int = 0;
        assert(all_stmts(out@) =~= Seq::<StmtView>::empty());
        assert(rest@.subrange(0, rest@.len() as int) =~= rest@);
        while rest.len() > 0
            invariant
                0 <= k <= orig@.len(),
                rest@ == orig@.subrange(k, orig@.len() as int),
                orig == ss,
                fold_stmts(all_stmts(orig@)) == all_stmts(out@) + fold_stmts(all_stmts(rest@)),
            decreases rest@.len(),
        {
            let ghost rv = rest@;
            let x = rest.remove(0);
            proof {
                lemma_all_stmts_remove_first(rv);
                assert(x == orig@[k]);
                assert(decreases_to!(orig => orig@));
                assert(decreases_to!(orig@ => orig@[k]));
                let xs = all_stmts(rv);
                assert(xs[0] == stmt_view(x));
                assert(xs.subrange(1, xs.len() as int) =~= all_stmts(rest@));
            }
            let y = self.fold_statement(x);
            let ghost ob = out@;
            out.push(y);
            proof {
                lemma_all_stmts_push(ob, y);
                let t = fold_stmts(all_stmts(rest@));
                assert(all_stmts(ob) + (seq![stmt_view(y)] + t) =~= all_stmts(out@) + t);
                assert(rest@ =~= orig@.subrange(k + 1, orig@.len() as int));
                k = k + 1;
            }
        }
        assert(all_stmts(out@) + Seq::<StmtView>::empty() =~= all_stmts(out@));
        out
    }

    /// The constant propagation pass: a walk that records constants, then a
    /// walk with the table closed that rewrites.
    fn constant_value_propagation(&mut self)
        requires
            old(self).state() == initial_state(),
        ensures
            final(self).program() == propagate_program(old(self).program()),
    {
        let discovery = clone_statements(&self.ast.statements);
        let _ = self.propagate_statements(discovery);
        self.close_constants();
        let mut stmts: Vec<Statement> = Vec::new();
        core::mem::swap(&mut stmts, &mut self.ast.statements);
        let rewritten = self.propagate_statements(stmts);
        self.ast.statements = rewritten;
    }

    /// The constant folding pass.
    fn constant_folding(&mut self)
        ensures
            final(self).program() == fold_stmts(old(self).program()),
    {
        let mut stmts: Vec<Statement> = Vec::new();
        core::mem::swap(&mut stmts, &mut self.ast.statements);
        let folded = self.fold_statements(stmts);
        self.ast.statements = folded;
    }

    /// A hook for removing unreachable code; it keeps the program as it is.
    fn tree_shaking(&mut self)
        ensures
            final(self).program() == old(self).program(),
    {
    }

    /// A hook for unrolling loops whose bounds are known ahead of time; it
    /// keeps the program as it is.
    fn loop_unrolling(&mut self)
        ensures
            final(self).program() == old(self).program(),
    {
    }

    /// Runs the passes and returns the optimized program.
    pub fn optimize(&mut self) -> (r: AST)
        requires
            old(self).state() == initial_state(),
        ensures
            r@ == optimize_spec(old(self).program()),
            final(self).program() == r@,
    {
        self.constant_value_propagation();
        self.constant_folding();
        self.tree_shaking();
        self.loop_unrolling();
        AST { statements: clone_statements(&self.ast.statements) }
    }
}

} // verus!
