//! The meaning of programs: a big-step evaluator over the mathematical
//! values of the tree. Each function takes the state of the machine (scope
//! frames, array heap, printed lines) and a step budget, and gives the new
//! state with a value or an error. The budget falls by one for every loop
//! iteration and every call; when it runs out, evaluation stops with
//! `OutOfFuel`.
use vstd::prelude::*;
use crate::ast::{BinaryOperator, Builtin, ExprView, LitView, StmtView, UnaryOperator};
use crate::frames::{ConstFrame, bind, find_in, innermost, lookup, rebind};
use crate::number::{fit, neg_op, num_op};
use crate::builtins::split_of;
use crate::values::{HeapView, decimal, kind_name, stringify, truthy, equal_in};

verus! {

#[derive(Debug, Clone, Copy, PartialEq, Eq, Structural)]
pub enum RuntimeError {
    /// A name with no binding in the scope chain.
    Name,
    /// An operation on a value of the wrong kind.
    Type,
    /// A call with the wrong number of arguments.
    Arity,
    /// An array index that is out of bounds or not a number.
    Index,
    /// Arithmetic whose result leaves the 64-bit range, or a division by zero.
    Arithmetic,
    /// The step budget ran out.
    OutOfFuel,
}

/// How a statement ended.
pub enum SignalView {
    Normal,
    Return(LitView),
    Break,
    Continue,
}

pub struct EvalState {
    pub frames: Seq<ConstFrame>,
    pub heap: HeapView,
    pub output: Seq<Seq<char>>,
}

pub open spec fn with_frames(st: EvalState, frames: Seq<ConstFrame>) -> EvalState {
    EvalState { frames, heap: st.heap, output: st.output }
}

pub open spec fn enter_scope(st: EvalState) -> EvalState {
    with_frames(st, st.frames.push(ConstFrame::empty()))
}

pub open spec fn exit_scope(st: EvalState) -> EvalState {
    if st.frames.len() > 0 {
        with_frames(st, st.frames.drop_last())
    } else {
        st
    }
}

/// A fresh array at the end of the heap.
pub open spec fn allocate(st: EvalState, items: Seq<LitView>) -> EvalState {
    EvalState { frames: st.frames, heap: st.heap.push(items), output: st.output }
}

pub open spec fn compound_base(op: BinaryOperator) -> Option<BinaryOperator> {
    match op {
        BinaryOperator::PlusEqual => Some(BinaryOperator::Add),
        BinaryOperator::MinusEqual => Some(BinaryOperator::Sub),
        BinaryOperator::MulEqual => Some(BinaryOperator::Mul),
        BinaryOperator::DivEqual => Some(BinaryOperator::Div),
        BinaryOperator::ModEqual => Some(BinaryOperator::Mod),
        _ => None,
    }
}

pub open spec fn number_result(r: Option<i64>) -> Result<LitView, RuntimeError> {
    match r {
        Some(n) => Ok(LitView::Number(n)),
        None => Err(RuntimeError::Arithmetic),
    }
}

/// A binary operator applied to two evaluated operands.
pub open spec fn binary_value(op: BinaryOperator, a: LitView, b: LitView, heap: HeapView) -> Result<
    LitView,
    RuntimeError,
> {
    match op {
        BinaryOperator::Add => match (a, b) {
            (LitView::Number(x), LitView::Number(y)) => number_result(num_op(op, x, y)),
            (LitView::String(x), LitView::String(y)) => Ok(LitView::String(x + y)),
            (LitView::String(x), LitView::Number(y)) => Ok(LitView::String(x + decimal(y as int))),
            (LitView::Number(x), LitView::String(y)) => Ok(LitView::String(decimal(x as int) + y)),
            _ => Err(RuntimeError::Type),
        },
        BinaryOperator::Sub | BinaryOperator::Mul | BinaryOperator::Div | BinaryOperator::Mod => match (
            a,
            b,
        ) {
            (LitView::Number(x), LitView::Number(y)) => number_result(num_op(op, x, y)),
            _ => Err(RuntimeError::Type),
        },
        BinaryOperator::Equal => Ok(LitView::Boolean(equal_in(a, b, heap))),
        BinaryOperator::NotEqual => Ok(LitView::Boolean(!equal_in(a, b, heap))),
        BinaryOperator::GreaterThan | BinaryOperator::LessThan | BinaryOperator::GreaterThanOrEqual
        | BinaryOperator::LessThanOrEqual => match (a, b) {
            (LitView::Number(x), LitView::Number(y)) => Ok(
                LitView::Boolean(
                    match op {
                        BinaryOperator::GreaterThan => x > y,
                        BinaryOperator::LessThan => x < y,
                        BinaryOperator::GreaterThanOrEqual => x >= y,
                        _ => x <= y,
                    },
                ),
            ),
            _ => Err(RuntimeError::Type),
        },
        BinaryOperator::BinaryAnd => Ok(LitView::Boolean(truthy(a, heap) && truthy(b, heap))),
        BinaryOperator::BinaryOr => Ok(LitView::Boolean(truthy(a, heap) || truthy(b, heap))),
        _ => Err(RuntimeError::Type),
    }
}

pub open spec fn unary_value(op: UnaryOperator, a: LitView, heap: HeapView) -> Result<
    LitView,
    RuntimeError,
> {
    match op {
        UnaryOperator::Negate => match a {
            LitView::Number(x) => number_result(neg_op(x)),
            _ => Err(RuntimeError::Type),
        },
        UnaryOperator::Not => Ok(LitView::Boolean(!truthy(a, heap))),
    }
}

pub open spec fn array_method(name: Seq<char>) -> Option<Builtin> {
    if name == "push"@ {
        Some(Builtin::ArrayPush)
    } else if name == "pop"@ {
        Some(Builtin::ArrayPop)
    } else if name == "join"@ {
        Some(Builtin::ArrayJoin)
    } else if name == "reverse"@ {
        Some(Builtin::ArrayReverse)
    } else {
        None
    }
}

/// `target.name`: an object's property (undefined where missing), an
/// array's length, or a method bound to its receiver.
pub open spec fn property_value(a: LitView, name: Seq<char>, heap: HeapView) -> Result<
    LitView,
    RuntimeError,
> {
    match a {
        LitView::Object(ps) => match find_in(ps, name) {
            Some(i) => Ok(ps[i].1),
            None => Ok(LitView::Undefined),
        },
        LitView::Array(h) => if h >= heap.len() {
            Err(RuntimeError::Type)
        } else if name == "length"@ {
            number_result(fit(heap[h as int].len() as int))
        } else {
            match array_method(name) {
                Some(b) => Ok(LitView::NativeFunction(b, Some(Box::new(a)))),
                None => Err(RuntimeError::Type),
            }
        },
        LitView::String(s) => if name == "split"@ {
            Ok(LitView::NativeFunction(Builtin::StringSplit, Some(Box::new(a))))
        } else {
            Err(RuntimeError::Type)
        },
        _ => Err(RuntimeError::Type),
    }
}

/// `target[index]`.
pub open spec fn index_value(a: LitView, k: LitView, heap: HeapView) -> Result<LitView, RuntimeError> {
    match a {
        LitView::Array(h) => if h >= heap.len() {
            Err(RuntimeError::Type)
        } else {
            match k {
                LitView::Number(n) => if 0 <= n < heap[h as int].len() {
                    Ok(heap[h as int][n as int])
                } else {
                    Err(RuntimeError::Index)
                },
                _ => Err(RuntimeError::Index),
            }
        },
        _ => Err(RuntimeError::Type),
    }
}

/// An object with property `p` set to `v`: replaced in place, or added last.
pub open spec fn set_prop(ps: ConstFrame, p: Seq<char>, v: LitView) -> ConstFrame {
    match find_in(ps, p) {
        Some(i) => ps.update(i, (p, v)),
        None => ps.push((p, v)),
    }
}

/// Binds the parameters to the arguments in order, in the innermost frame.
pub open spec fn bind_params(frames: Seq<ConstFrame>, params: Seq<Seq<char>>, args: Seq<LitView>) -> Seq<
    ConstFrame,
>
    decreases params.len(),
{
    if params.len() == 0 || args.len() == 0 {
        frames
    } else {
        bind_params(bind(frames, params[0], args[0]), params.drop_first(), args.drop_first())
    }
}

pub open spec fn max_of(ns: Seq<i64>) -> i64
    decreases ns.len(),
{
    if ns.len() <= 1 {
        if ns.len() == 1 {
            ns[0]
        } else {
            0
        }
    } else {
        let m = max_of(ns.drop_last());
        if ns.last() > m {
            ns.last()
        } else {
            m
        }
    }
}

pub open spec fn all_numbers(vs: Seq<LitView>) -> bool {
    forall|i: int| 0 <= i < vs.len() ==> #[trigger] vs[i] is Number
}

pub open spec fn numbers_of(vs: Seq<LitView>) -> Seq<i64> {
    vs.map_values(|v: LitView| v->Number_0)
}

/// The integer square root: the largest `r` with `r * r <= n`.
pub open spec fn isqrt(n: int) -> int {
    choose|r: int| is_root(n, r)
}

pub open spec fn is_root(n: int, r: int) -> bool {
    0 <= r && r * r <= n && n < (r + 1) * (r + 1)
}

/// The texts joined with `sep` between each two.
pub open spec fn join_texts(parts: Seq<Seq<char>>, sep: Seq<char>) -> Seq<char>
    decreases parts.len(),
{
    if parts.len() == 0 {
        Seq::empty()
    } else if parts.len() == 1 {
        parts[0]
    } else {
        join_texts(parts.drop_last(), sep) + sep + parts.last()
    }
}

pub open spec fn strings_of(parts: Seq<Seq<char>>) -> Seq<LitView> {
    parts.map_values(|p: Seq<char>| LitView::String(p))
}

/// A call of a host intrinsic, bound to `recv` where it came from a property.
pub open spec fn call_builtin(
    st: EvalState,
    b: Builtin,
    recv: Option<LitView>,
    args: Seq<LitView>,
) -> (EvalState, Result<LitView, RuntimeError>) {
    match b {
        Builtin::ConsoleLog => if args.len() != 1 {
            (st, Err(RuntimeError::Arity))
        } else {
            (
                EvalState {
                    frames: st.frames,
                    heap: st.heap,
                    output: st.output.push(stringify(args[0])),
                },
                Ok(LitView::Undefined),
            )
        },
        Builtin::IntrinsicsDump => (
            EvalState {
                frames: st.frames,
                heap: st.heap,
                output: st.output + args.map_values(|v: LitView| stringify(v)),
            },
            Ok(LitView::Undefined),
        ),
        Builtin::IntrinsicsTypeof => if args.len() != 1 {
            (st, Err(RuntimeError::Arity))
        } else {
            (st, Ok(LitView::String(kind_name(args[0]))))
        },
        Builtin::ObjectKeys => if args.len() != 1 {
            (st, Err(RuntimeError::Arity))
        } else {
            match args[0] {
                LitView::Object(ps) => (
                    allocate(st, ps.map_values(|kv: (Seq<char>, LitView)| LitView::String(kv.0))),
                    Ok(LitView::Array(st.heap.len() as usize)),
                ),
                _ => (st, Err(RuntimeError::Type)),
            }
        },
        Builtin::MathSqrt => if args.len() != 1 {
            (st, Err(RuntimeError::Arity))
        } else {
            match args[0] {
                LitView::Number(n) => if n < 0 {
                    (st, Err(RuntimeError::Arithmetic))
                } else {
                    (st, Ok(LitView::Number(isqrt(n as int) as i64)))
                },
                _ => (st, Err(RuntimeError::Type)),
            }
        },
        Builtin::MathMax => if args.len() < 2 {
            (st, Err(RuntimeError::Arity))
        } else if !all_numbers(args) {
            (st, Err(RuntimeError::Type))
        } else {
            (st, Ok(LitView::Number(max_of(numbers_of(args)))))
        },
        Builtin::StringSplit => match recv {
            Some(LitView::String(s)) => if args.len() > 1 {
                (st, Err(RuntimeError::Arity))
            } else {
                let sep = if args.len() == 0 {
                    Some(" "@)
                } else {
                    match args[0] {
                        LitView::String(x) => Some(x),
                        _ => None,
                    }
                };
                match sep {
                    Some(sep) => (
                        allocate(st, strings_of(split_of(s, sep))),
                        Ok(LitView::Array(st.heap.len() as usize)),
                    ),
                    None => (st, Err(RuntimeError::Type)),
                }
            },
            _ => (st, Err(RuntimeError::Type)),
        },
        _ => match recv {
            Some(LitView::Array(h)) => if h >= st.heap.len() {
                (st, Err(RuntimeError::Type))
            } else {
                call_array_method(st, b, h, args)
            },
            _ => (st, Err(RuntimeError::Type)),
        },
    }
}

pub open spec fn with_array(st: EvalState, h: usize, items: Seq<LitView>) -> EvalState {
    EvalState { frames: st.frames, heap: st.heap.update(h as int, items), output: st.output }
}

pub open spec fn call_array_method(st: EvalState, b: Builtin, h: usize, args: Seq<LitView>) -> (
    EvalState,
    Result<LitView, RuntimeError>,
) {
    let items = st.heap[h as int];
    match b {
        Builtin::ArrayPush => if args.len() != 1 {
            (st, Err(RuntimeError::Arity))
        } else {
            match fit(items.len() + 1int) {
                Some(n) => (with_array(st, h, items.push(args[0])), Ok(LitView::Number(n))),
                None => (st, Err(RuntimeError::Arithmetic)),
            }
        },
        Builtin::ArrayPop => if args.len() != 0 {
            (st, Err(RuntimeError::Arity))
        } else if items.len() == 0 {
            (st, Ok(LitView::Undefined))
        } else {
            (with_array(st, h, items.drop_last()), Ok(items.last()))
        },
        Builtin::ArrayJoin => if args.len() > 1 {
            (st, Err(RuntimeError::Arity))
        } else {
            let sep = if args.len() == 0 {
                Some(","@)
            } else {
                match args[0] {
                    LitView::String(x) => Some(x),
                    _ => None,
                }
            };
            match sep {
                Some(sep) => (
                    st,
                    Ok(LitView::String(join_texts(items.map_values(|v: LitView| stringify(v)), sep))),
                ),
                None => (st, Err(RuntimeError::Type)),
            }
        },
        Builtin::ArrayReverse => if args.len() != 0 {
            (st, Err(RuntimeError::Arity))
        } else {
            (with_array(st, h, items.reverse()), Ok(LitView::Array(h)))
        },
        _ => (st, Err(RuntimeError::Type)),
    }
}

/// Evaluates an expression.
pub open spec fn eval_expr(st: EvalState, e: ExprView, fuel: nat) -> (EvalState, Result<LitView, RuntimeError>)
    decreases fuel, e,
{
    if fuel == 0 {
        (st, Err(RuntimeError::OutOfFuel))
    } else {
        match e {
            ExprView::Literal(l) => (st, Ok(l)),
            ExprView::Identifier(x) => match lookup(st.frames, x) {
                Some(v) => (st, Ok(v)),
                None => (st, Err(RuntimeError::Name)),
            },
            ExprView::Object(ps) => {
                let (s1, r) = eval_props(st, ps, fuel);
                match r {
                    Ok(vs) => (s1, Ok(LitView::Object(vs))),
                    Err(x) => (s1, Err(x)),
                }
            },
            ExprView::Array(es) => {
                let (s1, r) = eval_list(st, es, fuel);
                match r {
                    Ok(vs) => (allocate(s1, vs), Ok(LitView::Array(s1.heap.len() as usize))),
                    Err(x) => (s1, Err(x)),
                }
            },
            ExprView::BinaryOp(l, op, r) => match compound_base(op) {
                Some(base) => eval_expr(
                    st,
                    ExprView::Assignment(l, Box::new(ExprView::BinaryOp(l, base, r))),
                    (fuel - 1) as nat,
                ),
                None => {
                    let (s1, a) = eval_expr(st, *l, fuel);
                    match a {
                        Err(x) => (s1, Err(x)),
                        Ok(a) => {
                            let (s2, b) = eval_expr(s1, *r, fuel);
                            match b {
                                Err(x) => (s2, Err(x)),
                                Ok(b) => (s2, binary_value(op, a, b, s2.heap)),
                            }
                        },
                    }
                },
            },
            ExprView::UnaryOp(op, x) => {
                let (s1, a) = eval_expr(st, *x, fuel);
                match a {
                    Err(err) => (s1, Err(err)),
                    Ok(a) => (s1, unary_value(op, a, s1.heap)),
                }
            },
            ExprView::FunctionCall(c, args) => {
                let (s1, f) = eval_expr(st, *c, fuel);
                match f {
                    Err(x) => (s1, Err(x)),
                    Ok(f) => {
                        let (s2, vs) = eval_list(s1, args, fuel);
                        match vs {
                            Err(x) => (s2, Err(x)),
                            Ok(vs) => call_value(s2, f, vs, (fuel - 1) as nat),
                        }
                    },
                }
            },
            ExprView::Assignment(t, v) => {
                let (s1, a) = eval_expr(st, *v, fuel);
                match a {
                    Err(x) => (s1, Err(x)),
                    Ok(a) => assign_to(s1, *t, a, fuel),
                }
            },
            ExprView::Index(t, i) => {
                let (s1, a) = eval_expr(st, *t, fuel);
                match a {
                    Err(x) => (s1, Err(x)),
                    Ok(a) => {
                        let (s2, k) = eval_expr(s1, *i, fuel);
                        match k {
                            Err(x) => (s2, Err(x)),
                            Ok(k) => (s2, index_value(a, k, s2.heap)),
                        }
                    },
                }
            },
            ExprView::Property(t, n) => {
                let (s1, a) = eval_expr(st, *t, fuel);
                match a {
                    Err(x) => (s1, Err(x)),
                    Ok(a) => (s1, property_value(a, n, s1.heap)),
                }
            },
            ExprView::Increment(t) => step_target(st, *t, 1, (fuel - 1) as nat),
            ExprView::Decrement(t) => step_target(st, *t, -1, (fuel - 1) as nat),
        }
    }
}

/// `target++` and `target--`: the target is read, must be a number, and is
/// written back moved by `delta`; the old value is the result.
pub open spec fn step_target(st: EvalState, t: ExprView, delta: int, fuel: nat) -> (
    EvalState,
    Result<LitView, RuntimeError>,
)
    decreases fuel + 1, t,
{
    let (s1, a) = eval_expr(st, t, fuel);
    match a {
        Err(x) => (s1, Err(x)),
        Ok(LitView::Number(n)) => match fit(n + delta) {
            None => (s1, Err(RuntimeError::Arithmetic)),
            Some(m) => {
                let (s2, r) = assign_to(s1, t, LitView::Number(m), fuel);
                match r {
                    Err(x) => (s2, Err(x)),
                    Ok(_) => (s2, Ok(LitView::Number(n))),
                }
            },
        },
        Ok(_) => (s1, Err(RuntimeError::Type)),
    }
}

/// Stores `v` into an assignment target: a bound name (in the frame that
/// binds it), an array element, or a property of an object held by a name.
pub open spec fn assign_to(st: EvalState, t: ExprView, v: LitView, fuel: nat) -> (
    EvalState,
    Result<LitView, RuntimeError>,
)
    decreases fuel, t,
{
    match t {
        ExprView::Identifier(x) => if innermost(st.frames, x) is Some {
            (with_frames(st, rebind(st.frames, x, v)), Ok(v))
        } else {
            (st, Err(RuntimeError::Name))
        },
        ExprView::Index(at, i) => {
            let (s1, a) = eval_expr(st, *at, fuel);
            match a {
                Err(x) => (s1, Err(x)),
                Ok(a) => {
                    let (s2, k) = eval_expr(s1, *i, fuel);
                    match k {
                        Err(x) => (s2, Err(x)),
                        Ok(k) => match index_value(a, k, s2.heap) {
                            Err(x) => (s2, Err(x)),
                            Ok(_) => {
                                let h = a->Array_0;
                                let n = k->Number_0;
                                (
                                    with_array(s2, h, s2.heap[h as int].update(n as int, v)),
                                    Ok(v),
                                )
                            },
                        },
                    }
                },
            }
        },
        ExprView::Property(ot, p) => match *ot {
            ExprView::Identifier(x) => match lookup(st.frames, x) {
                Some(LitView::Object(ps)) => (
                    with_frames(st, rebind(st.frames, x, LitView::Object(set_prop(ps, p, v)))),
                    Ok(v),
                ),
                Some(_) => (st, Err(RuntimeError::Type)),
                None => (st, Err(RuntimeError::Name)),
            },
            _ => (st, Err(RuntimeError::Type)),
        },
        _ => (st, Err(RuntimeError::Type)),
    }
}

/// Evaluates expressions left to right.
pub open spec fn eval_list(st: EvalState, es: Seq<ExprView>, fuel: nat) -> (
    EvalState,
    Result<Seq<LitView>, RuntimeError>,
)
    decreases fuel, es,
{
    if es.len() == 0 {
        (st, Ok(Seq::empty()))
    } else {
        let (s1, a) = eval_expr(st, es[0], fuel);
        match a {
            Err(x) => (s1, Err(x)),
            Ok(a) => {
                let (s2, rest) = eval_list(s1, es.subrange(1, es.len() as int), fuel);
                match rest {
                    Err(x) => (s2, Err(x)),
                    Ok(vs) => (s2, Ok(seq![a] + vs)),
                }
            },
        }
    }
}

pub open spec fn eval_props(st: EvalState, ps: Seq<(Seq<char>, ExprView)>, fuel: nat) -> (
    EvalState,
    Result<ConstFrame, RuntimeError>,
)
    decreases fuel, ps,
{
    if ps.len() == 0 {
        (st, Ok(Seq::empty()))
    } else {
        let (s1, a) = eval_expr(st, ps[0].1, fuel);
        match a {
            Err(x) => (s1, Err(x)),
            Ok(a) => {
                let (s2, rest) = eval_props(s1, ps.subrange(1, ps.len() as int), fuel);
                match rest {
                    Err(x) => (s2, Err(x)),
                    Ok(vs) => (s2, Ok(seq![(ps[0].0, a)] + vs)),
                }
            },
        }
    }
}

/// Calls a function value: a user function runs its body in a new frame
/// holding its parameters; a native one runs the intrinsic.
pub open spec fn call_value(st: EvalState, f: LitView, args: Seq<LitView>, fuel: nat) -> (
    EvalState,
    Result<LitView, RuntimeError>,
)
    decreases fuel, f,
{
    match f {
        LitView::Function(params, body) => if params.len() != args.len() {
            (st, Err(RuntimeError::Arity))
        } else {
            let s1 = with_frames(st, bind_params(st.frames.push(ConstFrame::empty()), params, args));
            let (s2, r) = exec_stmt(s1, *body, fuel);
            match r {
                Err(x) => (s2, Err(x)),
                Ok(SignalView::Return(v)) => (exit_scope(s2), Ok(v)),
                Ok(_) => (exit_scope(s2), Ok(LitView::Undefined)),
            }
        },
        LitView::NativeFunction(b, recv) => call_builtin(
            st,
            b,
            match recv {
                Some(r) => Some(*r),
                None => None,
            },
            args,
        ),
        _ => (st, Err(RuntimeError::Type)),
    }
}

/// Runs a statement.
pub open spec fn exec_stmt(st: EvalState, s: StmtView, fuel: nat) -> (
    EvalState,
    Result<SignalView, RuntimeError>,
)
    decreases fuel, s,
{
    if fuel == 0 {
        (st, Err(RuntimeError::OutOfFuel))
    } else {
        match s {
            StmtView::Expression(e) => {
                let (s1, a) = eval_expr(st, e, fuel);
                match a {
                    Err(x) => (s1, Err(x)),
                    Ok(_) => (s1, Ok(SignalView::Normal)),
                }
            },
            StmtView::Return(e) => {
                let (s1, a) = eval_expr(st, e, fuel);
                match a {
                    Err(x) => (s1, Err(x)),
                    Ok(a) => (s1, Ok(SignalView::Return(a))),
                }
            },
            StmtView::Continue => (st, Ok(SignalView::Continue)),
            StmtView::Break => (st, Ok(SignalView::Break)),
            StmtView::If(c, a, b) => {
                let (s1, v) = eval_expr(st, c, fuel);
                match v {
                    Err(x) => (s1, Err(x)),
                    Ok(v) => if truthy(v, s1.heap) {
                        exec_stmt(s1, *a, fuel)
                    } else {
                        match b {
                            Some(b) => exec_stmt(s1, *b, fuel),
                            None => (s1, Ok(SignalView::Normal)),
                        }
                    },
                }
            },
            StmtView::While(c, b) => while_loop(st, c, *b, (fuel - 1) as nat),
            StmtView::For(i, c, u, b) => {
                let s0 = enter_scope(st);
                let (s1, r) = match i {
                    Some(i) => exec_stmt(s0, *i, fuel),
                    None => (s0, Ok(SignalView::Normal)),
                };
                match r {
                    Err(x) => (s1, Err(x)),
                    Ok(SignalView::Return(v)) => (exit_scope(s1), Ok(SignalView::Return(v))),
                    Ok(_) => {
                        let (s2, r2) = for_loop(s1, c, u, *b, (fuel - 1) as nat);
                        match r2 {
                            Err(x) => (s2, Err(x)),
                            Ok(sig) => (exit_scope(s2), Ok(sig)),
                        }
                    },
                }
            },
            StmtView::Function(n, params, b) => (
                with_frames(st, bind(st.frames, n, LitView::Function(params, b))),
                Ok(SignalView::Normal),
            ),
            StmtView::Scope(ss) => {
                let (s1, r) = exec_block(enter_scope(st), ss, fuel);
                match r {
                    Err(x) => (s1, Err(x)),
                    Ok(sig) => (exit_scope(s1), Ok(sig)),
                }
            },
            StmtView::Let(n, v) => {
                let (s1, a) = eval_expr(st, v, fuel);
                match a {
                    Err(x) => (s1, Err(x)),
                    Ok(a) => (with_frames(s1, bind(s1.frames, n, a)), Ok(SignalView::Normal)),
                }
            },
        }
    }
}

/// Runs statements in order until one ends other than normally.
pub open spec fn exec_block(st: EvalState, ss: Seq<StmtView>, fuel: nat) -> (
    EvalState,
    Result<SignalView, RuntimeError>,
)
    decreases fuel, ss,
{
    if ss.len() == 0 {
        (st, Ok(SignalView::Normal))
    } else {
        let (s1, r) = exec_stmt(st, ss[0], fuel);
        match r {
            Err(x) => (s1, Err(x)),
            Ok(SignalView::Normal) => exec_block(s1, ss.subrange(1, ss.len() as int), fuel),
            Ok(sig) => (s1, Ok(sig)),
        }
    }
}

/// The iterations of `while (c) body`. `break` ends the loop, `continue`
/// goes on with the next test, `return` leaves it with its value.
pub open spec fn while_loop(st: EvalState, c: ExprView, body: StmtView, fuel: nat) -> (
    EvalState,
    Result<SignalView, RuntimeError>,
)
    decreases fuel, body,
{
    if fuel == 0 {
        (st, Err(RuntimeError::OutOfFuel))
    } else {
        let (s1, v) = eval_expr(st, c, (fuel - 1) as nat);
        match v {
            Err(x) => (s1, Err(x)),
            Ok(v) => if !truthy(v, s1.heap) {
                (s1, Ok(SignalView::Normal))
            } else {
                let (s2, r) = exec_stmt(s1, body, (fuel - 1) as nat);
                match r {
                    Err(x) => (s2, Err(x)),
                    Ok(SignalView::Return(a)) => (s2, Ok(SignalView::Return(a))),
                    Ok(SignalView::Break) => (s2, Ok(SignalView::Normal)),
                    Ok(_) => while_loop(s2, c, body, (fuel - 1) as nat),
                }
            },
        }
    }
}

/// The iterations of a `for` loop after its initializer: test (true when
/// absent), body, update.
pub open spec fn for_loop(
    st: EvalState,
    c: Option<ExprView>,
    u: Option<ExprView>,
    body: StmtView,
    fuel: nat,
) -> (EvalState, Result<SignalView, RuntimeError>)
    decreases fuel, body,
{
    if fuel == 0 {
        (st, Err(RuntimeError::OutOfFuel))
    } else {
        let (s1, t) = match c {
            Some(c) => {
                let (s1, v) = eval_expr(st, c, (fuel - 1) as nat);
                match v {
                    Err(x) => (s1, Err(x)),
                    Ok(v) => (s1, Ok(truthy(v, s1.heap))),
                }
            },
            None => (st, Ok(true)),
        };
        match t {
            Err(x) => (s1, Err(x)),
            Ok(false) => (s1, Ok(SignalView::Normal)),
            Ok(true) => {
                let (s2, r) = exec_stmt(s1, body, (fuel - 1) as nat);
                match r {
                    Err(x) => (s2, Err(x)),
                    Ok(SignalView::Return(a)) => (s2, Ok(SignalView::Return(a))),
                    Ok(SignalView::Break) => (s2, Ok(SignalView::Normal)),
                    Ok(_) => {
                        let (s3, r3) = match u {
                            Some(u) => {
                                let (s3, w) = eval_expr(s2, u, (fuel - 1) as nat);
                                match w {
                                    Err(x) => (s3, Err(x)),
                                    Ok(_) => (s3, Ok(())),
                                }
                            },
                            None => (s2, Ok(())),
                        };
                        match r3 {
                            Err(x) => (s3, Err(x)),
                            Ok(_) => for_loop(s3, c, u, body, (fuel - 1) as nat),
                        }
                    },
                }
            },
        }
    }
}

} // verus!
