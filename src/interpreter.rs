//! The tree-walking evaluator.
use vstd::prelude::*;
use crate::ast::{AST, BinaryOperator, ExprView, Expression, LitView, Literal, Statement, UnaryOperator, all_exprs, all_lit_props, all_props, all_stmts, clone_expression, clone_literal, clone_names, clone_statement, expr_view, lemma_all_lit_props_push, lemma_exprs_view_len, lemma_props_view_len, lemma_stmts_view_len, lit_view, names_view, stmt_view};
use crate::builtins::{Builtins, globals, name_is};
use crate::frames::ConstFrame;
use crate::number::{checked_num_op, checked_neg};
use crate::scope::{Scope, find_binding, lemma_frame_views_agree, scope_frame_view};
use crate::semantics::{EvalState, RuntimeError, SignalView, assign_to, binary_value, bind_params, call_value, compound_base, eval_expr, eval_list, eval_props, exec_block, exec_stmt, for_loop, index_value, property_value, set_prop, step_target, unary_value, while_loop};
use crate::values::{heap_view, to_decimal, truthy_value, equal_in_heap};

verus! {

broadcast use vstd::std_specs::vec::group_vec_axioms;

/// How a statement ended: normally, or with a signal for an enclosing loop
/// or call.
#[derive(Debug, PartialEq)]
pub enum Flow {
    Normal,
    Return(Literal),
    Break,
    Continue,
}

pub open spec fn flow_view(f: Flow) -> SignalView {
    match f {
        Flow::Normal => SignalView::Normal,
        Flow::Return(v) => SignalView::Return(lit_view(v)),
        Flow::Break => SignalView::Break,
        Flow::Continue => SignalView::Continue,
    }
}

pub open spec fn lits_view(v: Seq<Literal>) -> Seq<LitView> {
    v.map_values(|l: Literal| lit_view(l))
}

pub open spec fn texts_view(v: Seq<String>) -> Seq<Seq<char>> {
    v.map_values(|s: String| s@)
}

pub open spec fn value_res(r: Result<Literal, RuntimeError>) -> Result<LitView, RuntimeError> {
    match r {
        Ok(v) => Ok(lit_view(v)),
        Err(x) => Err(x),
    }
}

pub open spec fn values_res(r: Result<Vec<Literal>, RuntimeError>) -> Result<Seq<LitView>, RuntimeError> {
    match r {
        Ok(v) => Ok(lits_view(v@)),
        Err(x) => Err(x),
    }
}

pub open spec fn flow_res(r: Result<Flow, RuntimeError>) -> Result<SignalView, RuntimeError> {
    match r {
        Ok(f) => Ok(flow_view(f)),
        Err(x) => Err(x),
    }
}

pub struct Interpreter {
    pub scope: Scope,
    pub builtins: Builtins,
    pub ast: AST,
    pub heap: Vec<Vec<Literal>>,
    pub output: Vec<String>,
}

impl Interpreter {
    /// The state of the machine: scope frames, array heap, printed lines.
    pub open spec fn state(&self) -> EvalState {
        EvalState {
            frames: self.scope.frames(),
            heap: heap_view(self.heap@),
            output: texts_view(self.output@),
        }
    }
}

fn number_literal(n: i64) -> (r: Literal)
    ensures
        lit_view(r) == LitView::Number(n),
{
    let r = Literal::Number(n);
    assert(lit_view(r) == LitView::Number(n));
    r
}

fn bool_literal(b: bool) -> (r: Literal)
    ensures
        lit_view(r) == LitView::Boolean(b),
{
    let r = Literal::Boolean(b);
    assert(lit_view(r) == LitView::Boolean(b));
    r
}

fn string_literal(s: String) -> (r: Literal)
    ensures
        lit_view(r) == LitView::String(s@),
{
    let r = Literal::String(s);
    assert(lit_view(r) == LitView::String(s@));
    r
}

fn undefined_value() -> (r: Literal)
    ensures
        lit_view(r) == LitView::Undefined,
{
    let r = Literal::Undefined;
    assert(lit_view(r) == LitView::Undefined);
    r
}

fn array_value(h: usize) -> (r: Literal)
    ensures
        lit_view(r) == LitView::Array(h),
{
    let r = Literal::Array(h);
    assert(lit_view(r) == LitView::Array(h));
    r
}

fn compound_base_of(op: BinaryOperator) -> (r: Option<BinaryOperator>)
    ensures
        r == compound_base(op),
{
    match op {
        BinaryOperator::PlusEqual => Some(BinaryOperator::Add),
        BinaryOperator::MinusEqual => Some(BinaryOperator::Sub),
        BinaryOperator::MulEqual => Some(BinaryOperator::Mul),
        BinaryOperator::DivEqual => Some(BinaryOperator::Div),
        BinaryOperator::ModEqual => Some(BinaryOperator::Mod),
        _ => None,
    }
}

fn number_or_error(r: Option<i64>) -> (res: Result<Literal, RuntimeError>)
    ensures
        value_res(res) == crate::semantics::number_result(r),
{
    match r {
        Some(n) => Ok(number_literal(n)),
        None => Err(RuntimeError::Arithmetic),
    }
}

impl Interpreter {
    /// A binary operator applied to two evaluated operands.
    pub fn apply_binary(&self, op: BinaryOperator, a: &Literal, b: &Literal) -> (r: Result<Literal, RuntimeError>)
        ensures
            value_res(r) == binary_value(op, lit_view(*a), lit_view(*b), heap_view(self.heap@)),
    {
        match op {
            BinaryOperator::Add => match (a, b) {
                (Literal::Number(x), Literal::Number(y)) => number_or_error(checked_num_op(op, *x, *y)),
                (Literal::String(x), Literal::String(y)) => Ok(string_literal(x.clone().concat(y.as_str()))),
                (Literal::String(x), Literal::Number(y)) => {
                    let d = to_decimal(*y);
                    Ok(string_literal(x.clone().concat(d.as_str())))
                },
                (Literal::Number(x), Literal::String(y)) => {
                    let d = to_decimal(*x);
                    Ok(string_literal(d.concat(y.as_str())))
                },
                _ => Err(RuntimeError::Type),
            },
            BinaryOperator::Sub | BinaryOperator::Mul | BinaryOperator::Div | BinaryOperator::Mod => match (a, b) {
                (Literal::Number(x), Literal::Number(y)) => number_or_error(checked_num_op(op, *x, *y)),
                _ => Err(RuntimeError::Type),
            },
            BinaryOperator::Equal => Ok(bool_literal(equal_in_heap(a, b, &self.heap))),
            BinaryOperator::NotEqual => Ok(bool_literal(!equal_in_heap(a, b, &self.heap))),
            BinaryOperator::GreaterThan | BinaryOperator::LessThan | BinaryOperator::GreaterThanOrEqual
            | BinaryOperator::LessThanOrEqual => match (a, b) {
                (Literal::Number(x), Literal::Number(y)) => Ok(
                    bool_literal(
                        match op {
                            BinaryOperator::GreaterThan => *x > *y,
                            BinaryOperator::LessThan => *x < *y,
                            BinaryOperator::GreaterThanOrEqual => *x >= *y,
                            _ => *x <= *y,
                        },
                    ),
                ),
                _ => Err(RuntimeError::Type),
            },
            BinaryOperator::BinaryAnd => {
                let l = truthy_value(a, &self.heap);
                let r = truthy_value(b, &self.heap);
                Ok(bool_literal(l && r))
            },
            BinaryOperator::BinaryOr => {
                let l = truthy_value(a, &self.heap);
                let r = truthy_value(b, &self.heap);
                Ok(bool_literal(l || r))
            },
            _ => Err(RuntimeError::Type),
        }
    }

    pub fn apply_unary(&self, op: UnaryOperator, a: &Literal) -> (r: Result<Literal, RuntimeError>)
        ensures
            value_res(r) == unary_value(op, lit_view(*a), heap_view(self.heap@)),
    {
        match op {
            UnaryOperator::Negate => match a {
                Literal::Number(x) => number_or_error(checked_neg(*x)),
                _ => Err(RuntimeError::Type),
            },
            UnaryOperator::Not => Ok(bool_literal(!truthy_value(a, &self.heap))),
        }
    }

    /// `a[k]`: the handle and position it reads, where it is valid.
    fn locate_index(&self, a: &Literal, k: &Literal) -> (r: Result<(usize, usize), RuntimeError>)
        ensures
            match r {
                Ok((h, n)) => {
                    &&& h < self.heap@.len()
                    &&& n < self.heap@[h as int]@.len()
                    &&& n <= i64::MAX
                    &&& lit_view(*a) == LitView::Array(h)
                    &&& lit_view(*k) == LitView::Number(n as i64)
                    &&& index_value(lit_view(*a), lit_view(*k), heap_view(self.heap@)) == Ok::<
                        LitView,
                        RuntimeError,
                    >(lit_view(self.heap@[h as int]@[n as int]))
                },
                Err(x) => index_value(lit_view(*a), lit_view(*k), heap_view(self.heap@)) == Err::<
                    LitView,
                    RuntimeError,
                >(x),
            },
    {
        match a {
            Literal::Array(h) => {
                if *h >= self.heap.len() {
                    return Err(RuntimeError::Type);
                }
                match k {
                    Literal::Number(n) => {
                        if *n >= 0 && (*n as u64) < (self.heap[*h].len() as u64) {
                            Ok((*h, *n as usize))
                        } else {
                            Err(RuntimeError::Index)
                        }
                    },
                    _ => Err(RuntimeError::Index),
                }
            },
            _ => Err(RuntimeError::Type),
        }
    }

    /// `target.name`.
    pub fn property_of(&self, a: &Literal, name: &String) -> (r: Result<Literal, RuntimeError>)
        ensures
            value_res(r) == property_value(lit_view(*a), name@, heap_view(self.heap@)),
    {
        match a {
            Literal::Object(ps) => {
                proof {
                    lemma_frame_views_agree(ps@);
                }
                match find_binding(ps, name) {
                    Some(i) => Ok(clone_literal(&ps[i].1)),
                    None => Ok(undefined_value()),
                }
            },
            Literal::Array(h) => {
                if *h >= self.heap.len() {
                    return Err(RuntimeError::Type);
                }
                let len = self.heap[*h].len();
                if name_is(name, "length") {
                    if len as u64 > i64::MAX as u64 {
                        Err(RuntimeError::Arithmetic)
                    } else {
                        Ok(number_literal(len as i64))
                    }
                } else {
                    self.builtins.array_builtin(array_value(*h), name)
                }
            },
            Literal::String(s) => self.builtins.string_builtin(string_literal(s.clone()), name),
            _ => Err(RuntimeError::Type),
        }
    }
}

fn set_property(ps: Vec<(String, Literal)>, p: &String, v: Literal) -> (r: Vec<(String, Literal)>)
    ensures
        all_lit_props(r@) == set_prop(all_lit_props(ps@), p@, lit_view(v)),
{
    proof {
        lemma_frame_views_agree(ps@);
    }
    let ghost pv = all_lit_props(ps@);
    let mut ps = ps;
    match find_binding(&ps, p) {
        Some(i) => {
            let ghost before = ps@;
            ps.set(i, (p.clone(), v));
            proof {
                lemma_frame_views_agree(ps@);
                assert(scope_frame_view(ps@) =~= scope_frame_view(before).update(
                    i as int,
                    (p@, lit_view(v)),
                ));
            }
            ps
        },
        None => {
            let ghost before = ps@;
            let kv = (p.clone(), v);
            let ghost kvg = kv;
            ps.push(kv);
            proof {
                lemma_all_lit_props_push(before, kvg);
            }
            ps
        },
    }
}

impl Interpreter {
    /// Evaluates an expression.
    #[verifier::rlimit(100)]
    pub fn eval_expression(&mut self, e: &Expression, fuel: u64) -> (r: Result<Literal, RuntimeError>)
        ensures
            (final(self).state(), value_res(r)) == eval_expr(old(self).state(), expr_view(*e), fuel as nat),
            final(self).ast == old(self).ast,
        decreases fuel, e,
    {
        if fuel == 0 {
            return Err(RuntimeError::OutOfFuel);
        }
        match e {
            Expression::Literal(l) => Ok(clone_literal(l)),
            Expression::Identifier(x) => match self.scope.get(x) {
                Some(v) => Ok(v),
                None => Err(RuntimeError::Name),
            },
            Expression::Object { properties } => {
                let vs = match self.eval_properties(properties, fuel) {
                    Ok(vs) => vs,
                    Err(x) => {
                        return Err(x);
                    },
                };
                Ok(Literal::Object(vs))
            },
            Expression::Array { elements } => {
                let vs = match self.eval_list(elements, fuel) {
                    Ok(vs) => vs,
                    Err(x) => {
                        return Err(x);
                    },
                };
                let h = self.heap.len();
                let ghost hv = heap_view(self.heap@);
                self.heap.push(vs);
                assert(heap_view(self.heap@) =~= hv.push(lits_view(vs@)));
                Ok(array_value(h))
            },
            Expression::BinaryOp { left, op, right } => match compound_base_of(*op) {
                Some(base) => {
                    let sum = Expression::BinaryOp {
                        left: Box::new(clone_expression(left)),
                        op: base,
                        right: Box::new(clone_expression(right)),
                    };
                    assert(expr_view(sum) == ExprView::BinaryOp(
                        Box::new(expr_view(**left)),
                        base,
                        Box::new(expr_view(**right)),
                    ));
                    let ghost sum_view = expr_view(sum);
                    let desugared = Expression::Assignment {
                        target: Box::new(clone_expression(left)),
                        value: Box::new(sum),
                    };
                    assert(expr_view(desugared) == ExprView::Assignment(
                        Box::new(expr_view(**left)),
                        Box::new(sum_view),
                    ));
                    self.eval_expression(&desugared, fuel - 1)
                },
                None => {
                    let a = match self.eval_expression(left, fuel) {
                        Ok(a) => a,
                        Err(x) => {
                            return Err(x);
                        },
                    };
                    let b = match self.eval_expression(right, fuel) {
                        Ok(b) => b,
                        Err(x) => {
                            return Err(x);
                        },
                    };
                    self.apply_binary(*op, &a, &b)
                },
            },
            Expression::UnaryOp { op, expr } => {
                let a = match self.eval_expression(expr, fuel) {
                    Ok(a) => a,
                    Err(x) => {
                        return Err(x);
                    },
                };
                self.apply_unary(*op, &a)
            },
            Expression::FunctionCall { callee, args } => {
                let f = match self.eval_expression(callee, fuel) {
                    Ok(f) => f,
                    Err(x) => {
                        return Err(x);
                    },
                };
                let vs = match self.eval_list(args, fuel) {
                    Ok(vs) => vs,
                    Err(x) => {
                        return Err(x);
                    },
                };
                self.call_function(&f, vs, fuel - 1)
            },
            Expression::Assignment { target, value } => {
                let a = match self.eval_expression(value, fuel) {
                    Ok(a) => a,
                    Err(x) => {
                        return Err(x);
                    },
                };
                self.assign(target, a, fuel)
            },
            Expression::Index { target, index } => {
                let a = match self.eval_expression(target, fuel) {
                    Ok(a) => a,
                    Err(x) => {
                        return Err(x);
                    },
                };
                let k = match self.eval_expression(index, fuel) {
                    Ok(k) => k,
                    Err(x) => {
                        return Err(x);
                    },
                };
                match self.locate_index(&a, &k) {
                    Ok((h, n)) => Ok(clone_literal(&self.heap[h][n])),
                    Err(x) => Err(x),
                }
            },
            Expression::Property { target, name } => {
                let a = match self.eval_expression(target, fuel) {
                    Ok(a) => a,
                    Err(x) => {
                        return Err(x);
                    },
                };
                self.property_of(&a, name)
            },
            Expression::Increment { target } => self.step(target, 1, fuel - 1),
            Expression::Decrement { target } => self.step(target, -1, fuel - 1),
        }
    }

    /// `target++` (`delta` 1) and `target--` (`delta` -1).
    fn step(&mut self, t: &Expression, delta: i64, fuel: u64) -> (r: Result<Literal, RuntimeError>)
        requires
            delta == 1 || delta == -1,
        ensures
            (final(self).state(), value_res(r)) == step_target(old(self).state(), expr_view(*t), delta as int, fuel as nat),
            final(self).ast == old(self).ast,
        decreases fuel + 1, t,
    {
        let a = match self.eval_expression(t, fuel) {
            Ok(a) => a,
            Err(x) => {
                return Err(x);
            },
        };
        match a {
            Literal::Number(n) => {
                let moved = n as i128 + delta as i128;
                if moved < i64::MIN as i128 || moved > i64::MAX as i128 {
                    return Err(RuntimeError::Arithmetic);
                }
                match self.assign(t, number_literal(moved as i64), fuel) {
                    Ok(_) => Ok(number_literal(n)),
                    Err(x) => Err(x),
                }
            },
            _ => Err(RuntimeError::Type),
        }
    }

    fn assign_name(&mut self, x: &String, v: Literal, fuel: u64) -> (r: Result<Literal, RuntimeError>)
        ensures
            (final(self).state(), value_res(r)) == assign_to(
                old(self).state(),
                ExprView::Identifier(x@),
                lit_view(v),
                fuel as nat,
            ),
            final(self).ast == old(self).ast,
    {
        if self.scope.assign(x.clone(), clone_literal(&v)) {
            Ok(v)
        } else {
            Err(RuntimeError::Name)
        }
    }

    fn assign_property(&mut self, t: &Expression, target: &Box<Expression>, name: &String, v: Literal, fuel: u64) -> (r: Result<Literal, RuntimeError>)
        requires
            *t == (Expression::Property { target: *target, name: *name }),
        ensures
            (final(self).state(), value_res(r)) == assign_to(old(self).state(), expr_view(*t), lit_view(v), fuel as nat),
            final(self).ast == old(self).ast,
    {
        match &**target {
                Expression::Identifier(x) => match self.scope.get(x) {
                    Some(Literal::Object(ps)) => {
                        assert(lit_view(Literal::Object(ps)) == LitView::Object(all_lit_props(ps@)));
                        let updated = set_property(ps, name, clone_literal(&v));
                        let obj = Literal::Object(updated);
                        assert(lit_view(obj) == LitView::Object(all_lit_props(updated@)));
                        let _ = self.scope.assign(x.clone(), obj);
                        Ok(v)
                    },
                    Some(other) => {
                        assert(!(lit_view(other) is Object));
                        Err(RuntimeError::Type)
                    },
                    None => Err(RuntimeError::Name),
                },
                _ => {
                    assert(!(expr_view(**target) is Identifier));
                    Err(RuntimeError::Type)
                },
            }
    }

    /// Stores `v` into an assignment target.
    fn assign(&mut self, t: &Expression, v: Literal, fuel: u64) -> (r: Result<Literal, RuntimeError>)
        ensures
            (final(self).state(), value_res(r)) == assign_to(old(self).state(), expr_view(*t), lit_view(v), fuel as nat),
            final(self).ast == old(self).ast,
        decreases fuel, t,
    {
        match t {
            Expression::Identifier(x) => self.assign_name(x, v, fuel),
            Expression::Index { target, index } => {
                let a = match self.eval_expression(target, fuel) {
                    Ok(a) => a,
                    Err(x) => {
                        return Err(x);
                    },
                };
                let k = match self.eval_expression(index, fuel) {
                    Ok(k) => k,
                    Err(x) => {
                        return Err(x);
                    },
                };
                match self.locate_index(&a, &k) {
                    Ok((h, n)) => {
                        let ghost hv = heap_view(self.heap@);
                        let mut arr = self.take_array(h);
                        arr.set(n, clone_literal(&v));
                        self.heap.set(h, arr);
                        assert(heap_view(self.heap@) =~~= hv.update(
                            h as int,
                            hv[h as int].update(n as int, lit_view(v)),
                        ));
                        Ok(v)
                    },
                    Err(x) => Err(x),
                }
            },
            Expression::Property { target, name } => self.assign_property(t, target, name, v, fuel),
            _ => Err(RuntimeError::Type),
        }
    }

    /// Evaluates expressions left to right.
    fn eval_list(&mut self, es: &Vec<Expression>, fuel: u64) -> (r: Result<Vec<Literal>, RuntimeError>)
        ensures
            (final(self).state(), values_res(r)) == eval_list(old(self).state(), all_exprs(es@), fuel as nat),
            final(self).ast == old(self).ast,
        decreases fuel, es,
    {
        let ghost xs = all_exprs(es@);
        let ghost st0 = self.state();
        proof {
            lemma_exprs_view_len(es@, es@.len() as int);
            assert(xs.subrange(0, xs.len() as int) =~= xs);
        }
        let mut out: Vec<Literal> = Vec::new();
        let mut i: usize = 0;
        while i < es.len()
            invariant
                i <= es@.len(),
                xs == all_exprs(es@),
                xs.len() == es@.len(),
                forall|k: int| 0 <= k < es@.len() ==> #[trigger] xs[k] == expr_view(es@[k]),
                self.ast == old(self).ast,
                st0 == old(self).state(),
                eval_list(st0, xs, fuel as nat) == ({
                    let (s, rest) = eval_list(self.state(), xs.subrange(i as int, xs.len() as int), fuel as nat);
                    (s, match rest {
                        Ok(vs) => Ok(lits_view(out@) + vs),
                        Err(x) => Err(x),
                    })
                }),
            decreases es@.len() - i,
        {
            let ghost sub = xs.subrange(i as int, xs.len() as int);
            assert(sub[0] == expr_view(es@[i as int]));
            assert(sub.subrange(1, sub.len() as int) =~= xs.subrange(i + 1, xs.len() as int));
            assert(decreases_to!(es@ => es@[i as int]));
            let v = match self.eval_expression(&es[i], fuel) {
                Ok(v) => v,
                Err(x) => {
                    return Err(x);
                },
            };
            let ghost before = out@;
            out.push(v);
            proof {
                assert(lits_view(out@) =~= lits_view(before).push(lit_view(v)));
                let rest = eval_list(self.state(), xs.subrange(i + 1, xs.len() as int), fuel as nat).1;
                if rest is Ok {
                    assert(lits_view(before) + (seq![lit_view(v)] + rest->Ok_0) =~= lits_view(out@) + rest->Ok_0);
                }
            }
            i = i + 1;
        }
        assert(lits_view(out@) + Seq::<LitView>::empty() =~= lits_view(out@));
        Ok(out)
    }

    /// Evaluates the values of an object literal left to right.
    fn eval_properties(&mut self, ps: &Vec<(String, Expression)>, fuel: u64) -> (r: Result<
        Vec<(String, Literal)>,
        RuntimeError,
    >)
        ensures
            (final(self).state(), match r {
                Ok(vs) => Ok(all_lit_props(vs@)),
                Err(x) => Err(x),
            }) == eval_props(old(self).state(), all_props(ps@), fuel as nat),
            final(self).ast == old(self).ast,
        decreases fuel, ps,
    {
        let ghost xs = all_props(ps@);
        let ghost st0 = self.state();
        proof {
            lemma_props_view_len(ps@, ps@.len() as int);
            assert(xs.subrange(0, xs.len() as int) =~= xs);
        }
        let mut out: Vec<(String, Literal)> = Vec::new();
        assert(all_lit_props(out@) =~= ConstFrame::empty());
        let mut i: usize = 0;
        while i < ps.len()
            invariant
                i <= ps@.len(),
                xs == all_props(ps@),
                xs.len() == ps@.len(),
                forall|k: int| 0 <= k < ps@.len() ==> #[trigger] xs[k] == (ps@[k].0@, expr_view(ps@[k].1)),
                self.ast == old(self).ast,
                st0 == old(self).state(),
                eval_props(st0, xs, fuel as nat) == ({
                    let (s, rest) = eval_props(self.state(), xs.subrange(i as int, xs.len() as int), fuel as nat);
                    (s, match rest {
                        Ok(vs) => Ok(all_lit_props(out@) + vs),
                        Err(x) => Err(x),
                    })
                }),
            decreases ps@.len() - i,
        {
            let ghost sub = xs.subrange(i as int, xs.len() as int);
            assert(sub[0] == (ps@[i as int].0@, expr_view(ps@[i as int].1)));
            assert(sub.subrange(1, sub.len() as int) =~= xs.subrange(i + 1, xs.len() as int));
            assert(decreases_to!(ps@ => ps@[i as int]));
            assert(decreases_to!(ps@[i as int] => ps@[i as int].1));
            let v = match self.eval_expression(&ps[i].1, fuel) {
                Ok(v) => v,
                Err(x) => {
                    return Err(x);
                },
            };
            let ghost before = out@;
            let kv = (ps[i].0.clone(), v);
            out.push(kv);
            proof {
                lemma_all_lit_props_push(before, kv);
                let rest = eval_props(self.state(), xs.subrange(i + 1, xs.len() as int), fuel as nat).1;
                if rest is Ok {
                    assert(all_lit_props(before) + (seq![(kv.0@, lit_view(kv.1))] + rest->Ok_0) =~= all_lit_props(out@) + rest->Ok_0);
                }
            }
            i = i + 1;
        }
        assert(all_lit_props(out@) + ConstFrame::empty() =~= all_lit_props(out@));
        Ok(out)
    }

    /// Calls a function value with evaluated arguments.
    pub fn call_function(&mut self, f: &Literal, args: Vec<Literal>, fuel: u64) -> (r: Result<Literal, RuntimeError>)
        ensures
            (final(self).state(), value_res(r)) == call_value(old(self).state(), lit_view(*f), lits_view(args@), fuel as nat),
            final(self).ast == old(self).ast,
        decreases fuel, f,
    {
        match f {
            Literal::Function { args: params, body } => {
                if params.len() != args.len() {
                    return Err(RuntimeError::Arity);
                }
                self.scope.enter();
                let ghost pv = names_view(params@);
                let ghost av = lits_view(args@);
                let ghost target = bind_params(self.scope.frames(), pv, av);
                let mut i: usize = 0;
                assert(pv.subrange(0, pv.len() as int) =~= pv);
                assert(av.subrange(0, av.len() as int) =~= av);
                while i < params.len()
                    invariant
                        i <= params@.len() == args@.len(),
                        pv == names_view(params@),
                        av == lits_view(args@),
                        self.ast == old(self).ast,
                        self.heap == old(self).heap,
                        self.output == old(self).output,
                        target == bind_params(
                            self.scope.frames(),
                            pv.subrange(i as int, pv.len() as int),
                            av.subrange(i as int, av.len() as int),
                        ),
                    decreases params@.len() - i,
                {
                    let ghost ps = pv.subrange(i as int, pv.len() as int);
                    let ghost xs = av.subrange(i as int, av.len() as int);
                    assert(ps.drop_first() =~= pv.subrange(i + 1, pv.len() as int));
                    assert(xs.drop_first() =~= av.subrange(i + 1, av.len() as int));
                    self.scope.set(params[i].clone(), clone_literal(&args[i]));
                    i = i + 1;
                }
                assert(decreases_to!(*f => **body));
                let r = match self.exec_statement(body, fuel) {
                    Ok(r) => r,
                    Err(x) => {
                        return Err(x);
                    },
                };
                self.scope.exit();
                match r {
                    Flow::Return(v) => Ok(v),
                    _ => Ok(undefined_value()),
                }
            },
            Literal::NativeFunction(nf) => self.call_builtin(nf.builtin, &nf.receiver, &args),
            _ => Err(RuntimeError::Type),
        }
    }

    /// Runs a statement.
    pub fn exec_statement(&mut self, s: &Statement, fuel: u64) -> (r: Result<Flow, RuntimeError>)
        ensures
            (final(self).state(), flow_res(r)) == exec_stmt(old(self).state(), stmt_view(*s), fuel as nat),
            final(self).ast == old(self).ast,
        decreases fuel, s,
    {
        if fuel == 0 {
            return Err(RuntimeError::OutOfFuel);
        }
        match s {
            Statement::Expression(e) => match self.eval_expression(e, fuel) {
                Ok(_) => Ok(Flow::Normal),
                Err(x) => Err(x),
            },
            Statement::Return(e) => match self.eval_expression(e, fuel) {
                Ok(v) => Ok(Flow::Return(v)),
                Err(x) => Err(x),
            },
            Statement::Continue => Ok(Flow::Continue),
            Statement::Break => Ok(Flow::Break),
            Statement::If { condition, consequence, alternative } => {
                let v = match self.eval_expression(condition, fuel) {
                    Ok(v) => v,
                    Err(x) => {
                        return Err(x);
                    },
                };
                if truthy_value(&v, &self.heap) {
                    self.exec_statement(consequence, fuel)
                } else {
                    match alternative {
                        Some(b) => self.exec_statement(b, fuel),
                        None => Ok(Flow::Normal),
                    }
                }
            },
            Statement::While { condition, body } => self.run_while(condition, body, fuel - 1),
            Statement::For { init, condition, update, body } => {
                self.scope.enter();
                let r = match init {
                    Some(i) => match self.exec_statement(i, fuel) {
                        Ok(r) => r,
                        Err(x) => {
                            return Err(x);
                        },
                    },
                    None => Flow::Normal,
                };
                match r {
                    Flow::Return(v) => {
                        self.scope.exit();
                        Ok(Flow::Return(v))
                    },
                    _ => {
                        let r2 = match self.run_for(condition, update, body, fuel - 1) {
                            Ok(r2) => r2,
                            Err(x) => {
                                return Err(x);
                            },
                        };
                        self.scope.exit();
                        Ok(r2)
                    },
                }
            },
            Statement::Function { name, args, body } => {
                let f = Literal::Function { args: clone_names(args), body: Box::new(clone_statement(body)) };
                self.scope.set(name.clone(), f);
                Ok(Flow::Normal)
            },
            Statement::Scope { statements } => {
                self.scope.enter();
                let r = match self.exec_block(statements, fuel) {
                    Ok(r) => r,
                    Err(x) => {
                        return Err(x);
                    },
                };
                self.scope.exit();
                Ok(r)
            },
            Statement::Let { name, value } => {
                let v = match self.eval_expression(value, fuel) {
                    Ok(v) => v,
                    Err(x) => {
                        return Err(x);
                    },
                };
                self.scope.set(name.clone(), v);
                Ok(Flow::Normal)
            },
        }
    }

    /// Runs statements in order until one ends other than normally.
    pub fn exec_block(&mut self, ss: &Vec<Statement>, fuel: u64) -> (r: Result<Flow, RuntimeError>)
        ensures
            (final(self).state(), flow_res(r)) == exec_block(old(self).state(), all_stmts(ss@), fuel as nat),
            final(self).ast == old(self).ast,
        decreases fuel, ss,
    {
        let ghost xs = all_stmts(ss@);
        let ghost st0 = self.state();
        proof {
            lemma_stmts_view_len(ss@, ss@.len() as int);
            assert(xs.subrange(0, xs.len() as int) =~= xs);
        }
        let mut i: usize = 0;
        while i < ss.len()
            invariant
                i <= ss@.len(),
                xs == all_stmts(ss@),
                xs.len() == ss@.len(),
                forall|k: int| 0 <= k < ss@.len() ==> #[trigger] xs[k] == stmt_view(ss@[k]),
                self.ast == old(self).ast,
                st0 == old(self).state(),
                exec_block(st0, xs, fuel as nat) == exec_block(self.state(), xs.subrange(i as int, xs.len() as int), fuel as nat),
            decreases ss@.len() - i,
        {
            let ghost sub = xs.subrange(i as int, xs.len() as int);
            assert(sub[0] == stmt_view(ss@[i as int]));
            assert(sub.subrange(1, sub.len() as int) =~= xs.subrange(i + 1, xs.len() as int));
            assert(decreases_to!(ss@ => ss@[i as int]));
            let r = match self.exec_statement(&ss[i], fuel) {
                Ok(r) => r,
                Err(x) => {
                    return Err(x);
                },
            };
            match r {
                Flow::Normal => {},
                other => {
                    return Ok(other);
                },
            }
            i = i + 1;
        }
        Ok(Flow::Normal)
    }

    fn run_while(&mut self, c: &Expression, body: &Statement, fuel: u64) -> (r: Result<Flow, RuntimeError>)
        ensures
            (final(self).state(), flow_res(r)) == while_loop(old(self).state(), expr_view(*c), stmt_view(*body), fuel as nat),
            final(self).ast == old(self).ast,
        decreases fuel, body,
    {
        let ghost goal = while_loop(self.state(), expr_view(*c), stmt_view(*body), fuel as nat);
        let mut f = fuel;
        loop
            invariant
                f <= fuel,
                self.ast == old(self).ast,
                goal == while_loop(self.state(), expr_view(*c), stmt_view(*body), f as nat),
                goal == while_loop(old(self).state(), expr_view(*c), stmt_view(*body), fuel as nat),
            decreases f,
        {
            if f == 0 {
                return Err(RuntimeError::OutOfFuel);
            }
            let v = match self.eval_expression(c, f - 1) {
                Ok(v) => v,
                Err(x) => {
                    return Err(x);
                },
            };
            if !truthy_value(&v, &self.heap) {
                return Ok(Flow::Normal);
            }
            let r = match self.exec_statement(body, f - 1) {
                Ok(r) => r,
                Err(x) => {
                    return Err(x);
                },
            };
            match r {
                Flow::Return(v) => {
                    return Ok(Flow::Return(v));
                },
                Flow::Break => {
                    return Ok(Flow::Normal);
                },
                _ => {},
            }
            f = f - 1;
        }
    }

    fn run_for(
        &mut self,
        c: &Option<Box<Expression>>,
        u: &Option<Box<Expression>>,
        body: &Statement,
        fuel: u64,
    ) -> (r: Result<Flow, RuntimeError>)
        ensures
            (final(self).state(), flow_res(r)) == for_loop(
                old(self).state(),
                opt_expr_view(*c),
                opt_expr_view(*u),
                stmt_view(*body),
                fuel as nat,
            ),
            final(self).ast == old(self).ast,
        decreases fuel, body,
    {
        let ghost goal = for_loop(self.state(), opt_expr_view(*c), opt_expr_view(*u), stmt_view(*body), fuel as nat);
        let mut f = fuel;
        loop
            invariant
                f <= fuel,
                self.ast == old(self).ast,
                goal == for_loop(self.state(), opt_expr_view(*c), opt_expr_view(*u), stmt_view(*body), f as nat),
                goal == for_loop(
                    old(self).state(),
                    opt_expr_view(*c),
                    opt_expr_view(*u),
                    stmt_view(*body),
                    fuel as nat,
                ),
            decreases f,
        {
            if f == 0 {
                return Err(RuntimeError::OutOfFuel);
            }
            let go = match c {
                Some(c) => {
                    let v = match self.eval_expression(c, f - 1) {
                        Ok(v) => v,
                        Err(x) => {
                            return Err(x);
                        },
                    };
                    truthy_value(&v, &self.heap)
                },
                None => true,
            };
            if !go {
                return Ok(Flow::Normal);
            }
            let r = match self.exec_statement(body, f - 1) {
                Ok(r) => r,
                Err(x) => {
                    return Err(x);
                },
            };
            match r {
                Flow::Return(v) => {
                    return Ok(Flow::Return(v));
                },
                Flow::Break => {
                    return Ok(Flow::Normal);
                },
                _ => {},
            }
            match u {
                Some(u) => match self.eval_expression(u, f - 1) {
                    Ok(_) => {},
                    Err(x) => {
                        return Err(x);
                    },
                },
                None => {},
            }
            f = f - 1;
        }
    }
}

/// The state a fresh interpreter starts in: the global objects installed,
/// nothing allocated, nothing printed.
pub open spec fn initial_eval_state() -> EvalState {
    EvalState { frames: seq![globals()], heap: Seq::empty(), output: Seq::empty() }
}

impl Interpreter {
    /// An interpreter for a program, with the global objects installed.
    pub fn new(ast: AST) -> (r: Self)
        ensures
            r.state() == initial_eval_state(),
            r.ast@ == ast@,
    {
        let mut scope = Scope::new();
        let builtins = Builtins::new();
        builtins.load(&mut scope);
        let r = Interpreter { scope, builtins, ast, heap: Vec::new(), output: Vec::new() };
        assert(heap_view(r.heap@) =~= Seq::<Seq<LitView>>::empty());
        assert(texts_view(r.output@) =~= Seq::<Seq<char>>::empty());
        r
    }

    /// Runs the program's statements in order with a step budget; the lines
    /// printed stay in the interpreter.
    pub fn run_with_fuel(&mut self, fuel: u64) -> (r: Result<(), RuntimeError>)
        ensures
            final(self).state() == exec_block(old(self).state(), old(self).ast@, fuel as nat).0,
            match r {
                Ok(_) => exec_block(old(self).state(), old(self).ast@, fuel as nat).1 is Ok,
                Err(x) => exec_block(old(self).state(), old(self).ast@, fuel as nat).1 == Err::<
                    SignalView,
                    RuntimeError,
                >(x),
            },
            final(self).ast@ == old(self).ast@,
    {
        let mut stmts: Vec<Statement> = Vec::new();
        core::mem::swap(&mut stmts, &mut self.ast.statements);
        let r = self.exec_block(&stmts, fuel);
        core::mem::swap(&mut stmts, &mut self.ast.statements);
        match r {
            Ok(_) => Ok(()),
            Err(x) => Err(x),
        }
    }

    /// Runs the program with the largest step budget.
    pub fn run(&mut self) -> (r: Result<(), RuntimeError>)
        ensures
            final(self).state() == exec_block(old(self).state(), old(self).ast@, u64::MAX as nat).0,
            match r {
                Ok(_) => exec_block(old(self).state(), old(self).ast@, u64::MAX as nat).1 is Ok,
                Err(x) => exec_block(old(self).state(), old(self).ast@, u64::MAX as nat).1 == Err::<
                    SignalView,
                    RuntimeError,
                >(x),
            },
    {
        self.run_with_fuel(u64::MAX)
    }

    /// The lines printed so far.
    pub fn printed(&self) -> (r: Vec<String>)
        ensures
            texts_view(r@) == self.state().output,
    {
        let mut out: Vec<String> = Vec::new();
        let mut i: usize = 0;
        while i < self.output.len()
            invariant
                i <= self.output@.len(),
                out@ == self.output@.subrange(0, i as int),
            decreases self.output@.len() - i,
        {
            out.push(self.output[i].clone());
            i = i + 1;
            assert(out@ =~= self.output@.subrange(0, i as int));
        }
        assert(out@ =~= self.output@);
        out
    }
}

pub open spec fn opt_expr_view(e: Option<Box<Expression>>) -> Option<ExprView> {
    match e {
        Some(x) => Some(expr_view(*x)),
        None => None,
    }
}

} // verus!
