//! Properties of the language that hold of every program.
use vstd::prelude::*;
use crate::ast::{ExprView, LitView, StmtView};
use crate::frames::{ConstFrame, bind, lemma_innermost_bounds};
use crate::optim::{fold_stmts, lemma_fold_stmts_idempotent, optimize_spec, propagate_program};
use crate::semantics::{EvalState, assign_to, bind_params, call_builtin, call_value, eval_expr, eval_list, eval_props, exec_block, exec_stmt, for_loop, step_target, while_loop};
use crate::values::truthy;

verus! {

pub open spec fn depth_kept<T, E>(st: EvalState, r: (EvalState, Result<T, E>)) -> bool {
    r.1 is Ok ==> r.0.frames.len() == st.frames.len()
}

proof fn lemma_bind_params_len(frames: Seq<ConstFrame>, ps: Seq<Seq<char>>, args: Seq<LitView>)
    ensures
        bind_params(frames, ps, args).len() == frames.len(),
    decreases ps.len(),
{
    if ps.len() > 0 && args.len() > 0 {
        lemma_bind_params_len(bind(frames, ps[0], args[0]), ps.drop_first(), args.drop_first());
    }
}

proof fn lemma_builtin_depth(st: EvalState, b: crate::ast::Builtin, recv: Option<LitView>, args: Seq<LitView>)
    ensures
        call_builtin(st, b, recv, args).0.frames == st.frames,
{
}

proof fn lemma_eval_depth(st: EvalState, e: ExprView, fuel: nat)
    ensures
        depth_kept(st, eval_expr(st, e, fuel)),
    decreases fuel, e,
{
    if fuel > 0 {
        match e {
            ExprView::Object(ps) => lemma_props_depth(st, ps, fuel),
            ExprView::Array(es) => lemma_list_depth(st, es, fuel),
            ExprView::BinaryOp(l, op, r) => match crate::semantics::compound_base(op) {
                Some(base) => lemma_eval_depth(
                    st,
                    ExprView::Assignment(l, Box::new(ExprView::BinaryOp(l, base, r))),
                    (fuel - 1) as nat,
                ),
                None => {
                    lemma_eval_depth(st, *l, fuel);
                    let s1 = eval_expr(st, *l, fuel).0;
                    lemma_eval_depth(s1, *r, fuel);
                },
            },
            ExprView::UnaryOp(op, x) => lemma_eval_depth(st, *x, fuel),
            ExprView::FunctionCall(c, args) => {
                lemma_eval_depth(st, *c, fuel);
                let (s1, f) = eval_expr(st, *c, fuel);
                lemma_list_depth(s1, args, fuel);
                let (s2, vs) = eval_list(s1, args, fuel);
                if f is Ok && vs is Ok {
                    lemma_call_depth(s2, f->Ok_0, vs->Ok_0, (fuel - 1) as nat);
                }
            },
            ExprView::Assignment(t, v) => {
                lemma_eval_depth(st, *v, fuel);
                let (s1, a) = eval_expr(st, *v, fuel);
                if a is Ok {
                    lemma_assign_depth(s1, *t, a->Ok_0, fuel);
                }
            },
            ExprView::Index(t, i) => {
                lemma_eval_depth(st, *t, fuel);
                let s1 = eval_expr(st, *t, fuel).0;
                lemma_eval_depth(s1, *i, fuel);
            },
            ExprView::Property(t, n) => lemma_eval_depth(st, *t, fuel),
            ExprView::Increment(t) => lemma_step_depth(st, *t, 1, (fuel - 1) as nat),
            ExprView::Decrement(t) => lemma_step_depth(st, *t, -1, (fuel - 1) as nat),
            _ => {},
        }
    }
}

proof fn lemma_step_depth(st: EvalState, t: ExprView, delta: int, fuel: nat)
    ensures
        depth_kept(st, step_target(st, t, delta, fuel)),
    decreases fuel + 1, t,
{
    lemma_eval_depth(st, t, fuel);
    let (s1, a) = eval_expr(st, t, fuel);
    if a is Ok && a->Ok_0 is Number {
        let n = a->Ok_0->Number_0;
        if crate::number::fit(n + delta) is Some {
            lemma_assign_depth(s1, t, LitView::Number(crate::number::fit(n + delta)->0), fuel);
        }
    }
}

proof fn lemma_assign_depth(st: EvalState, t: ExprView, v: LitView, fuel: nat)
    ensures
        depth_kept(st, assign_to(st, t, v, fuel)),
    decreases fuel, t,
{
    match t {
        ExprView::Identifier(x) => lemma_innermost_bounds(st.frames, x),
        ExprView::Index(at, i) => {
            lemma_eval_depth(st, *at, fuel);
            let s1 = eval_expr(st, *at, fuel).0;
            lemma_eval_depth(s1, *i, fuel);
        },
        ExprView::Property(ot, p) => match *ot {
            ExprView::Identifier(x) => lemma_innermost_bounds(st.frames, x),
            _ => {},
        },
        _ => {},
    }
}

proof fn lemma_list_depth(st: EvalState, es: Seq<ExprView>, fuel: nat)
    ensures
        depth_kept(st, eval_list(st, es, fuel)),
    decreases fuel, es,
{
    if es.len() > 0 {
        lemma_eval_depth(st, es[0], fuel);
        let s1 = eval_expr(st, es[0], fuel).0;
        lemma_list_depth(s1, es.subrange(1, es.len() as int), fuel);
    }
}

proof fn lemma_props_depth(st: EvalState, ps: Seq<(Seq<char>, ExprView)>, fuel: nat)
    ensures
        depth_kept(st, eval_props(st, ps, fuel)),
    decreases fuel, ps,
{
    if ps.len() > 0 {
        lemma_eval_depth(st, ps[0].1, fuel);
        let s1 = eval_expr(st, ps[0].1, fuel).0;
        lemma_props_depth(s1, ps.subrange(1, ps.len() as int), fuel);
    }
}

proof fn lemma_call_depth(st: EvalState, f: LitView, args: Seq<LitView>, fuel: nat)
    ensures
        depth_kept(st, call_value(st, f, args, fuel)),
    decreases fuel, f,
{
    match f {
        LitView::Function(params, body) => {
            if params.len() == args.len() {
                let frames = bind_params(st.frames.push(ConstFrame::empty()), params, args);
                lemma_bind_params_len(st.frames.push(ConstFrame::empty()), params, args);
                let s1 = EvalState { frames, heap: st.heap, output: st.output };
                lemma_exec_depth(s1, *body, fuel);
            }
        },
        LitView::NativeFunction(b, recv) => {
            lemma_builtin_depth(
                st,
                b,
                match recv {
                    Some(r) => Some(*r),
                    None => None,
                },
                args,
            );
        },
        _ => {},
    }
}

proof fn lemma_exec_depth(st: EvalState, s: StmtView, fuel: nat)
    ensures
        depth_kept(st, exec_stmt(st, s, fuel)),
    decreases fuel, s,
{
    if fuel > 0 {
        match s {
            StmtView::Expression(e) => lemma_eval_depth(st, e, fuel),
            StmtView::Return(e) => lemma_eval_depth(st, e, fuel),
            StmtView::If(c, a, b) => {
                lemma_eval_depth(st, c, fuel);
                let s1 = eval_expr(st, c, fuel).0;
                lemma_exec_depth(s1, *a, fuel);
                if let Some(b) = b {
                    lemma_exec_depth(s1, *b, fuel);
                }
            },
            StmtView::While(c, b) => lemma_while_depth(st, c, *b, (fuel - 1) as nat),
            StmtView::For(i, c, u, b) => {
                let s0 = EvalState { frames: st.frames.push(ConstFrame::empty()), heap: st.heap, output: st.output };
                if let Some(i) = i {
                    lemma_exec_depth(s0, *i, fuel);
                }
                let s1 = match i {
                    Some(i) => exec_stmt(s0, *i, fuel).0,
                    None => s0,
                };
                lemma_for_depth(s1, c, u, *b, (fuel - 1) as nat);
            },
            StmtView::Scope(ss) => {
                let s0 = EvalState { frames: st.frames.push(ConstFrame::empty()), heap: st.heap, output: st.output };
                lemma_block_depth(s0, ss, fuel);
            },
            StmtView::Let(n, v) => lemma_eval_depth(st, v, fuel),
            _ => {},
        }
    }
}

proof fn lemma_block_depth(st: EvalState, ss: Seq<StmtView>, fuel: nat)
    ensures
        depth_kept(st, exec_block(st, ss, fuel)),
    decreases fuel, ss,
{
    if ss.len() > 0 {
        lemma_exec_depth(st, ss[0], fuel);
        let s1 = exec_stmt(st, ss[0], fuel).0;
        lemma_block_depth(s1, ss.subrange(1, ss.len() as int), fuel);
    }
}

proof fn lemma_while_depth(st: EvalState, c: ExprView, body: StmtView, fuel: nat)
    ensures
        depth_kept(st, while_loop(st, c, body, fuel)),
    decreases fuel, body,
{
    if fuel > 0 {
        lemma_eval_depth(st, c, (fuel - 1) as nat);
        let s1 = eval_expr(st, c, (fuel - 1) as nat).0;
        lemma_exec_depth(s1, body, (fuel - 1) as nat);
        let s2 = exec_stmt(s1, body, (fuel - 1) as nat).0;
        lemma_while_depth(s2, c, body, (fuel - 1) as nat);
    }
}

proof fn lemma_for_depth(st: EvalState, c: Option<ExprView>, u: Option<ExprView>, body: StmtView, fuel: nat)
    ensures
        depth_kept(st, for_loop(st, c, u, body, fuel)),
    decreases fuel, body,
{
    if fuel > 0 {
        if let Some(c) = c {
            lemma_eval_depth(st, c, (fuel - 1) as nat);
        }
        let s1 = match c {
            Some(c) => eval_expr(st, c, (fuel - 1) as nat).0,
            None => st,
        };
        lemma_exec_depth(s1, body, (fuel - 1) as nat);
        let s2 = exec_stmt(s1, body, (fuel - 1) as nat).0;
        if let Some(u) = u {
            lemma_eval_depth(s2, u, (fuel - 1) as nat);
        }
        let s3 = match u {
            Some(u) => eval_expr(s2, u, (fuel - 1) as nat).0,
            None => s2,
        };
        lemma_for_depth(s3, c, u, body, (fuel - 1) as nat);
    }
}

/// Running a statement that ends without an error leaves as many scope
/// frames as there were before it.
pub proof fn lemma_statement_keeps_scope_depth(st: EvalState, s: StmtView, fuel: nat)
    ensures
        exec_stmt(st, s, fuel).1 is Ok ==> exec_stmt(st, s, fuel).0.frames.len() == st.frames.len(),
{
    lemma_exec_depth(st, s, fuel);
}

/// An `if` whose condition is a falsy literal (zero, the empty string, null,
/// undefined) runs its `else` branch; so does one whose condition is an
/// empty array or object literal.
pub proof fn lemma_falsy_condition_takes_else(st: EvalState, c: ExprView, a: StmtView, b: StmtView, fuel: nat)
    requires
        fuel > 1,
        st.heap.len() < usize::MAX,
        c == ExprView::Literal(LitView::Number(0)) || c == ExprView::Literal(LitView::String(Seq::empty()))
            || c == ExprView::Literal(LitView::Null) || c == ExprView::Literal(LitView::Undefined)
            || c == ExprView::Array(Seq::empty()) || c == ExprView::Object(Seq::empty()),
    ensures
        exec_stmt(st, StmtView::If(c, Box::new(a), Some(Box::new(b))), fuel) == exec_stmt(
            eval_expr(st, c, fuel).0,
            b,
            fuel,
        ),
        eval_expr(st, c, fuel).1 is Ok,
{
    let (s1, v) = eval_expr(st, c, fuel);
    if c == ExprView::Array(Seq::<ExprView>::empty()) {
        assert(eval_list(st, Seq::<ExprView>::empty(), fuel) == (st, Ok::<Seq<LitView>, crate::semantics::RuntimeError>(Seq::<LitView>::empty())));
        assert(s1.heap[st.heap.len() as int] == Seq::<LitView>::empty());
    }
    if c == ExprView::Object(Seq::<(Seq<char>, ExprView)>::empty()) {
        assert(eval_props(st, Seq::<(Seq<char>, ExprView)>::empty(), fuel).1 == Ok::<ConstFrame, crate::semantics::RuntimeError>(ConstFrame::empty()));
    }
    assert(!truthy(v->Ok_0, s1.heap));
}

/// Constant folding is idempotent on the optimizer's output: folding an
/// optimized program once more changes nothing.
pub proof fn lemma_optimized_program_is_folded(prog: Seq<StmtView>)
    ensures
        fold_stmts(optimize_spec(prog)) == optimize_spec(prog),
{
    lemma_fold_stmts_idempotent(propagate_program(prog));
}

} // verus!
