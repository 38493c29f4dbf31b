//! Whether two pieces of code, or two values read as code, are the same
//! tree: equality of their mathematical values.
use vstd::prelude::*;
use crate::ast::{
    Expression, Literal, Statement, all_exprs, all_lit_props, all_props, all_stmts, expr_view,
    lemma_exprs_view_len, lemma_lit_props_view_len, lemma_props_view_len, lemma_stmts_view_len,
    lit_view, names_view, stmt_view,
};

verus! {

broadcast use vstd::std_specs::vec::group_vec_axioms;

pub fn same_names(a: &Vec<String>, b: &Vec<String>) -> (r: bool)
    ensures
        r == (names_view(a@) == names_view(b@)),
{
    if a.len() != b.len() {
        assert(names_view(a@).len() != names_view(b@).len());
        return false;
    }
    let mut i: usize = 0;
    while i < a.len()
        invariant
            a@.len() == b@.len(),
            i <= a@.len(),
            forall|k: int| 0 <= k < i ==> a@[k]@ == b@[k]@,
        decreases a@.len() - i,
    {
        if a[i] != b[i] {
            assert(names_view(a@)[i as int] != names_view(b@)[i as int]);
            return false;
        }
        i = i + 1;
    }
    assert(names_view(a@) =~= names_view(b@));
    true
}

pub fn same_literal(a: &Literal, b: &Literal) -> (r: bool)
    ensures
        r == (lit_view(*a) == lit_view(*b)),
    decreases a,
{
    match (a, b) {
        (Literal::Number(x), Literal::Number(y)) => *x == *y,
        (Literal::String(x), Literal::String(y)) => *x == *y,
        (Literal::Null, Literal::Null) => true,
        (Literal::Boolean(x), Literal::Boolean(y)) => *x == *y,
        (Literal::Undefined, Literal::Undefined) => true,
        (Literal::Array(x), Literal::Array(y)) => *x == *y,
        (Literal::Object(x), Literal::Object(y)) => same_lit_props(x, y),
        (Literal::Function { args: p, body: s }, Literal::Function { args: q, body: t }) => {
            same_names(p, q) && same_statement(s, t)
        },
        (Literal::NativeFunction(f), Literal::NativeFunction(g)) => {
            if f.builtin != g.builtin {
                return false;
            }
            match (&f.receiver, &g.receiver) {
                (Some(x), Some(y)) => same_literal(x, y),
                (None, None) => true,
                _ => false,
            }
        },
        _ => false,
    }
}

pub fn same_lit_props(a: &Vec<(String, Literal)>, b: &Vec<(String, Literal)>) -> (r: bool)
    ensures
        r == (all_lit_props(a@) == all_lit_props(b@)),
    decreases a,
{
    proof {
        lemma_lit_props_view_len(a@, a@.len() as int);
        lemma_lit_props_view_len(b@, b@.len() as int);
    }
    if a.len() != b.len() {
        return false;
    }
    let mut i: usize = 0;
    while i < a.len()
        invariant
            a@.len() == b@.len(),
            i <= a@.len(),
            all_lit_props(a@).len() == a@.len(),
            all_lit_props(b@).len() == b@.len(),
            forall|k: int| 0 <= k < a@.len() ==> #[trigger] all_lit_props(a@)[k] == (a@[k].0@, lit_view(a@[k].1)),
            forall|k: int| 0 <= k < b@.len() ==> #[trigger] all_lit_props(b@)[k] == (b@[k].0@, lit_view(b@[k].1)),
            forall|k: int| 0 <= k < i ==> all_lit_props(a@)[k] == all_lit_props(b@)[k],
        decreases a@.len() - i,
    {
        assert(decreases_to!(a@ => a@[i as int]));
        assert(decreases_to!(a@[i as int] => a@[i as int].1));
        if a[i].0 != b[i].0 || !same_literal(&a[i].1, &b[i].1) {
            assert(all_lit_props(a@)[i as int] != all_lit_props(b@)[i as int]);
            return false;
        }
        i = i + 1;
    }
    assert(all_lit_props(a@) =~= all_lit_props(b@));
    true
}

pub fn same_expression(a: &Expression, b: &Expression) -> (r: bool)
    ensures
        r == (expr_view(*a) == expr_view(*b)),
    decreases a,
{
    match (a, b) {
        (Expression::Literal(x), Expression::Literal(y)) => same_literal(x, y),
        (Expression::Identifier(x), Expression::Identifier(y)) => *x == *y,
        (Expression::Object { properties: x }, Expression::Object { properties: y }) => same_properties(x, y),
        (Expression::Array { elements: x }, Expression::Array { elements: y }) => same_expressions(x, y),
        (
            Expression::BinaryOp { left: l1, op: o1, right: r1 },
            Expression::BinaryOp { left: l2, op: o2, right: r2 },
        ) => *o1 == *o2 && same_expression(l1, l2) && same_expression(r1, r2),
        (Expression::UnaryOp { op: o1, expr: x }, Expression::UnaryOp { op: o2, expr: y }) => {
            *o1 == *o2 && same_expression(x, y)
        },
        (
            Expression::FunctionCall { callee: c1, args: a1 },
            Expression::FunctionCall { callee: c2, args: a2 },
        ) => same_expression(c1, c2) && same_expressions(a1, a2),
        (
            Expression::Assignment { target: t1, value: v1 },
            Expression::Assignment { target: t2, value: v2 },
        ) => same_expression(t1, t2) && same_expression(v1, v2),
        (Expression::Index { target: t1, index: i1 }, Expression::Index { target: t2, index: i2 }) => {
            same_expression(t1, t2) && same_expression(i1, i2)
        },
        (Expression::Property { target: t1, name: n1 }, Expression::Property { target: t2, name: n2 }) => {
            *n1 == *n2 && same_expression(t1, t2)
        },
        (Expression::Increment { target: x }, Expression::Increment { target: y }) => same_expression(x, y),
        (Expression::Decrement { target: x }, Expression::Decrement { target: y }) => same_expression(x, y),
        _ => false,
    }
}

pub fn same_expressions(a: &Vec<Expression>, b: &Vec<Expression>) -> (r: bool)
    ensures
        r == (all_exprs(a@) == all_exprs(b@)),
    decreases a,
{
    proof {
        lemma_exprs_view_len(a@, a@.len() as int);
        lemma_exprs_view_len(b@, b@.len() as int);
    }
    if a.len() != b.len() {
        return false;
    }
    let mut i: usize = 0;
    while i < a.len()
        invariant
            a@.len() == b@.len(),
            i <= a@.len(),
            all_exprs(a@).len() == a@.len(),
            all_exprs(b@).len() == b@.len(),
            forall|k: int| 0 <= k < a@.len() ==> #[trigger] all_exprs(a@)[k] == expr_view(a@[k]),
            forall|k: int| 0 <= k < b@.len() ==> #[trigger] all_exprs(b@)[k] == expr_view(b@[k]),
            forall|k: int| 0 <= k < i ==> all_exprs(a@)[k] == all_exprs(b@)[k],
        decreases a@.len() - i,
    {
        assert(decreases_to!(a@ => a@[i as int]));
        if !same_expression(&a[i], &b[i]) {
            assert(all_exprs(a@)[i as int] != all_exprs(b@)[i as int]);
            return false;
        }
        i = i + 1;
    }
    assert(all_exprs(a@) =~= all_exprs(b@));
    true
}

pub fn same_properties(a: &Vec<(String, Expression)>, b: &Vec<(String, Expression)>) -> (r: bool)
    ensures
        r == (all_props(a@) == all_props(b@)),
    decreases a,
{
    proof {
        lemma_props_view_len(a@, a@.len() as int);
        lemma_props_view_len(b@, b@.len() as int);
    }
    if a.len() != b.len() {
        return false;
    }
    let mut i: usize = 0;
    while i < a.len()
        invariant
            a@.len() == b@.len(),
            i <= a@.len(),
            all_props(a@).len() == a@.len(),
            all_props(b@).len() == b@.len(),
            forall|k: int| 0 <= k < a@.len() ==> #[trigger] all_props(a@)[k] == (a@[k].0@, expr_view(a@[k].1)),
            forall|k: int| 0 <= k < b@.len() ==> #[trigger] all_props(b@)[k] == (b@[k].0@, expr_view(b@[k].1)),
            forall|k: int| 0 <= k < i ==> all_props(a@)[k] == all_props(b@)[k],
        decreases a@.len() - i,
    {
        assert(decreases_to!(a@ => a@[i as int]));
        assert(decreases_to!(a@[i as int] => a@[i as int].1));
        if a[i].0 != b[i].0 || !same_expression(&a[i].1, &b[i].1) {
            assert(all_props(a@)[i as int] != all_props(b@)[i as int]);
            return false;
        }
        i = i + 1;
    }
    assert(all_props(a@) =~= all_props(b@));
    true
}

pub fn same_statement(a: &Statement, b: &Statement) -> (r: bool)
    ensures
        r == (stmt_view(*a) == stmt_view(*b)),
    decreases a,
{
    match (a, b) {
        (Statement::Expression(x), Statement::Expression(y)) => same_expression(x, y),
        (Statement::Return(x), Statement::Return(y)) => same_expression(x, y),
        (Statement::Continue, Statement::Continue) => true,
        (Statement::Break, Statement::Break) => true,
        (
            Statement::If { condition: c1, consequence: s1, alternative: e1 },
            Statement::If { condition: c2, consequence: s2, alternative: e2 },
        ) => {
            if !same_expression(c1, c2) || !same_statement(s1, s2) {
                return false;
            }
            match (e1, e2) {
                (Some(x), Some(y)) => same_statement(x, y),
                (None, None) => true,
                _ => false,
            }
        },
        (Statement::While { condition: c1, body: b1 }, Statement::While { condition: c2, body: b2 }) => {
            same_expression(c1, c2) && same_statement(b1, b2)
        },
        (
            Statement::For { init: i1, condition: c1, update: u1, body: b1 },
            Statement::For { init: i2, condition: c2, update: u2, body: b2 },
        ) => {
            let inits = match (i1, i2) {
                (Some(x), Some(y)) => same_statement(x, y),
                (None, None) => true,
                _ => false,
            };
            let conds = match (c1, c2) {
                (Some(x), Some(y)) => same_expression(x, y),
                (None, None) => true,
                _ => false,
            };
            let updates = match (u1, u2) {
                (Some(x), Some(y)) => same_expression(x, y),
                (None, None) => true,
                _ => false,
            };
            inits && conds && updates && same_statement(b1, b2)
        },
        (
            Statement::Function { name: n1, args: a1, body: b1 },
            Statement::Function { name: n2, args: a2, body: b2 },
        ) => *n1 == *n2 && same_names(a1, a2) && same_statement(b1, b2),
        (Statement::Scope { statements: x }, Statement::Scope { statements: y }) => same_statements(x, y),
        (Statement::Let { name: n1, value: v1 }, Statement::Let { name: n2, value: v2 }) => {
            *n1 == *n2 && same_expression(v1, v2)
        },
        _ => false,
    }
}

pub fn same_statements(a: &Vec<Statement>, b: &Vec<Statement>) -> (r: bool)
    ensures
        r == (all_stmts(a@) == all_stmts(b@)),
    decreases a,
{
    proof {
        lemma_stmts_view_len(a@, a@.len() as int);
        lemma_stmts_view_len(b@, b@.len() as int);
    }
    if a.len() != b.len() {
        return false;
    }
    let mut i: usize = 0;
    while i < a.len()
        invariant
            a@.len() == b@.len(),
            i <= a@.len(),
            all_stmts(a@).len() == a@.len(),
            all_stmts(b@).len() == b@.len(),
            forall|k: int| 0 <= k < a@.len() ==> #[trigger] all_stmts(a@)[k] == stmt_view(a@[k]),
            forall|k: int| 0 <= k < b@.len() ==> #[trigger] all_stmts(b@)[k] == stmt_view(b@[k]),
            forall|k: int| 0 <= k < i ==> all_stmts(a@)[k] == all_stmts(b@)[k],
        decreases a@.len() - i,
    {
        assert(decreases_to!(a@ => a@[i as int]));
        if !same_statement(&a[i], &b[i]) {
            assert(all_stmts(a@)[i as int] != all_stmts(b@)[i as int]);
            return false;
        }
        i = i + 1;
    }
    assert(all_stmts(a@) =~= all_stmts(b@));
    true
}

} // verus!
