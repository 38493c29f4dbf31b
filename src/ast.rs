use vstd::prelude::*;

verus! {

broadcast use vstd::std_specs::vec::group_vec_axioms;

#[derive(Debug, Clone, Copy, PartialEq, Eq, Structural)]
pub enum BinaryOperator {
    Add,
    Sub,
    Mul,
    Div,
    Mod,
    BinaryAnd,
    BinaryOr,
    GreaterThan,
    LessThan,
    GreaterThanOrEqual,
    LessThanOrEqual,
    Equal,
    NotEqual,
    PlusEqual,
    MinusEqual,
    MulEqual,
    DivEqual,
    ModEqual,
}

#[derive(Debug, Clone, Copy, PartialEq, Eq, Structural)]
pub enum UnaryOperator {
    Negate,
    Not,
}

/// The host intrinsics a native function value can stand for.
#[derive(Debug, Clone, Copy, PartialEq, Eq, Structural)]
pub enum Builtin {
    ConsoleLog,
    IntrinsicsDump,
    IntrinsicsTypeof,
    ObjectKeys,
    MathSqrt,
    MathMax,
    ArrayPush,
    ArrayPop,
    ArrayJoin,
    ArrayReverse,
    StringSplit,
}

/// A host callback, with the receiver it was bound to when it came from a
/// property access (`arr.push` binds `arr`).
#[derive(Debug, PartialEq)]
pub struct NativeFn {
    pub builtin: Builtin,
    pub receiver: Option<Box<Literal>>,
}

/// A value of the language. Arrays are handles into the interpreter's heap,
/// so that every binding holding the same handle sees the same elements.
#[derive(Debug, PartialEq)]
pub enum Literal {
    Number(i64),
    String(String),
    Null,
    Boolean(bool),
    Undefined,
    Array(usize),
    Object(Vec<(String, Literal)>),
    Function { args: Vec<String>, body: Box<Statement> },
    NativeFunction(NativeFn),
}

#[derive(Debug, PartialEq)]
pub enum Expression {
    Literal(Literal),
    Identifier(String),
    Object { properties: Vec<(String, Expression)> },
    Array { elements: Vec<Expression> },
    BinaryOp { left: Box<Expression>, op: BinaryOperator, right: Box<Expression> },
    UnaryOp { op: UnaryOperator, expr: Box<Expression> },
    FunctionCall { callee: Box<Expression>, args: Vec<Expression> },
    Assignment { target: Box<Expression>, value: Box<Expression> },
    Index { target: Box<Expression>, index: Box<Expression> },
    Property { target: Box<Expression>, name: String },
    Increment { target: Box<Expression> },
    Decrement { target: Box<Expression> },
}

#[derive(Debug, PartialEq)]
pub enum Statement {
    Expression(Box<Expression>),
    Return(Box<Expression>),
    Continue,
    Break,
    If {
        condition: Box<Expression>,
        consequence: Box<Statement>,
        alternative: Option<Box<Statement>>,
    },
    While { condition: Box<Expression>, body: Box<Statement> },
    For {
        init: Option<Box<Statement>>,
        condition: Option<Box<Expression>>,
        update: Option<Box<Expression>>,
        body: Box<Statement>,
    },
    Function { name: String, args: Vec<String>, body: Box<Statement> },
    Scope { statements: Vec<Statement> },
    Let { name: String, value: Box<Expression> },
}

/// A parsed program: its top-level statements in order.
#[derive(Debug)]
pub struct AST {
    pub statements: Vec<Statement>,
}

// The mathematical model of the tree: text as sequences of characters.
pub enum LitView {
    Number(i64),
    String(Seq<char>),
    Null,
    Boolean(bool),
    Undefined,
    Array(usize),
    Object(Seq<(Seq<char>, LitView)>),
    Function(Seq<Seq<char>>, Box<StmtView>),
    NativeFunction(Builtin, Option<Box<LitView>>),
}

pub enum ExprView {
    Literal(LitView),
    Identifier(Seq<char>),
    Object(Seq<(Seq<char>, ExprView)>),
    Array(Seq<ExprView>),
    BinaryOp(Box<ExprView>, BinaryOperator, Box<ExprView>),
    UnaryOp(UnaryOperator, Box<ExprView>),
    FunctionCall(Box<ExprView>, Seq<ExprView>),
    Assignment(Box<ExprView>, Box<ExprView>),
    Index(Box<ExprView>, Box<ExprView>),
    Property(Box<ExprView>, Seq<char>),
    Increment(Box<ExprView>),
    Decrement(Box<ExprView>),
}

pub enum StmtView {
    Expression(ExprView),
    Return(ExprView),
    Continue,
    Break,
    If(ExprView, Box<StmtView>, Option<Box<StmtView>>),
    While(ExprView, Box<StmtView>),
    For(Option<Box<StmtView>>, Option<ExprView>, Option<ExprView>, Box<StmtView>),
    Function(Seq<char>, Seq<Seq<char>>, Box<StmtView>),
    Scope(Seq<StmtView>),
    Let(Seq<char>, ExprView),
}

pub open spec fn names_view(v: Seq<String>) -> Seq<Seq<char>> {
    v.map_values(|s: String| s@)
}

pub open spec fn lit_view(l: Literal) -> LitView
    decreases l,
{
    match l {
        Literal::Number(n) => LitView::Number(n),
        Literal::String(s) => LitView::String(s@),
        Literal::Null => LitView::Null,
        Literal::Boolean(b) => LitView::Boolean(b),
        Literal::Undefined => LitView::Undefined,
        Literal::Array(h) => LitView::Array(h),
        Literal::Object(props) => LitView::Object(lit_props_view(props@, props@.len() as int)),
        Literal::Function { args, body } => LitView::Function(names_view(args@), Box::new(stmt_view(*body))),
        Literal::NativeFunction(f) => LitView::NativeFunction(
            f.builtin,
            match f.receiver {
                Some(r) => Some(Box::new(lit_view(*r))),
                None => None,
            },
        ),
    }
}

pub open spec fn lit_props_view(v: Seq<(String, Literal)>, n: int) -> Seq<(Seq<char>, LitView)>
    decreases v, n,
{
    if n <= 0 || n > v.len() {
        Seq::empty()
    } else {
        lit_props_view(v, n - 1).push((v[n - 1].0@, lit_view(v[n - 1].1)))
    }
}

pub open spec fn expr_view(e: Expression) -> ExprView
    decreases e,
{
    match e {
        Expression::Literal(l) => ExprView::Literal(lit_view(l)),
        Expression::Identifier(s) => ExprView::Identifier(s@),
        Expression::Object { properties } => ExprView::Object(
            props_view(properties@, properties@.len() as int),
        ),
        Expression::Array { elements } => ExprView::Array(exprs_view(elements@, elements@.len() as int)),
        Expression::BinaryOp { left, op, right } => ExprView::BinaryOp(
            Box::new(expr_view(*left)),
            op,
            Box::new(expr_view(*right)),
        ),
        Expression::UnaryOp { op, expr } => ExprView::UnaryOp(op, Box::new(expr_view(*expr))),
        Expression::FunctionCall { callee, args } => ExprView::FunctionCall(
            Box::new(expr_view(*callee)),
            exprs_view(args@, args@.len() as int),
        ),
        Expression::Assignment { target, value } => ExprView::Assignment(
            Box::new(expr_view(*target)),
            Box::new(expr_view(*value)),
        ),
        Expression::Index { target, index } => ExprView::Index(
            Box::new(expr_view(*target)),
            Box::new(expr_view(*index)),
        ),
        Expression::Property { target, name } => ExprView::Property(Box::new(expr_view(*target)), name@),
        Expression::Increment { target } => ExprView::Increment(Box::new(expr_view(*target))),
        Expression::Decrement { target } => ExprView::Decrement(Box::new(expr_view(*target))),
    }
}

pub open spec fn exprs_view(v: Seq<Expression>, n: int) -> Seq<ExprView>
    decreases v, n,
{
    if n <= 0 || n > v.len() {
        Seq::empty()
    } else {
        exprs_view(v, n - 1).push(expr_view(v[n - 1]))
    }
}

pub open spec fn props_view(v: Seq<(String, Expression)>, n: int) -> Seq<(Seq<char>, ExprView)>
    decreases v, n,
{
    if n <= 0 || n > v.len() {
        Seq::empty()
    } else {
        props_view(v, n - 1).push((v[n - 1].0@, expr_view(v[n - 1].1)))
    }
}

pub open spec fn stmt_view(s: Statement) -> StmtView
    decreases s,
{
    match s {
        Statement::Expression(e) => StmtView::Expression(expr_view(*e)),
        Statement::Return(e) => StmtView::Return(expr_view(*e)),
        Statement::Continue => StmtView::Continue,
        Statement::Break => StmtView::Break,
        Statement::If { condition, consequence, alternative } => StmtView::If(
            expr_view(*condition),
            Box::new(stmt_view(*consequence)),
            match alternative {
                Some(a) => Some(Box::new(stmt_view(*a))),
                None => None,
            },
        ),
        Statement::While { condition, body } => StmtView::While(
            expr_view(*condition),
            Box::new(stmt_view(*body)),
        ),
        Statement::For { init, condition, update, body } => StmtView::For(
            match init {
                Some(i) => Some(Box::new(stmt_view(*i))),
                None => None,
            },
            match condition {
                Some(c) => Some(expr_view(*c)),
                None => None,
            },
            match update {
                Some(u) => Some(expr_view(*u)),
                None => None,
            },
            Box::new(stmt_view(*body)),
        ),
        Statement::Function { name, args, body } => StmtView::Function(
            name@,
            names_view(args@),
            Box::new(stmt_view(*body)),
        ),
        Statement::Scope { statements } => StmtView::Scope(
            stmts_view(statements@, statements@.len() as int),
        ),
        Statement::Let { name, value } => StmtView::Let(name@, expr_view(*value)),
    }
}

pub open spec fn stmts_view(v: Seq<Statement>, n: int) -> Seq<StmtView>
    decreases v, n,
{
    if n <= 0 || n > v.len() {
        Seq::empty()
    } else {
        stmts_view(v, n - 1).push(stmt_view(v[n - 1]))
    }
}

impl View for Literal {
    type V = LitView;

    open spec fn view(&self) -> LitView {
        lit_view(*self)
    }
}

impl View for Expression {
    type V = ExprView;

    open spec fn view(&self) -> ExprView {
        expr_view(*self)
    }
}

impl View for Statement {
    type V = StmtView;

    open spec fn view(&self) -> StmtView {
        stmt_view(*self)
    }
}

impl View for AST {
    type V = Seq<StmtView>;

    open spec fn view(&self) -> Seq<StmtView> {
        stmts_view(self.statements@, self.statements@.len() as int)
    }
}

pub open spec fn all_stmts(v: Seq<Statement>) -> Seq<StmtView> {
    stmts_view(v, v.len() as int)
}

pub open spec fn all_exprs(v: Seq<Expression>) -> Seq<ExprView> {
    exprs_view(v, v.len() as int)
}

pub open spec fn all_props(v: Seq<(String, Expression)>) -> Seq<(Seq<char>, ExprView)> {
    props_view(v, v.len() as int)
}

pub open spec fn all_lit_props(v: Seq<(String, Literal)>) -> Seq<(Seq<char>, LitView)> {
    lit_props_view(v, v.len() as int)
}

pub proof fn lemma_stmts_view_len(v: Seq<Statement>, n: int)
    requires
        0 <= n <= v.len(),
    ensures
        stmts_view(v, n).len() == n,
        forall|i: int| 0 <= i < n ==> #[trigger] stmts_view(v, n)[i] == stmt_view(v[i]),
    decreases n,
{
    if n > 0 {
        lemma_stmts_view_len(v, n - 1);
    }
}

pub proof fn lemma_exprs_view_len(v: Seq<Expression>, n: int)
    requires
        0 <= n <= v.len(),
    ensures
        exprs_view(v, n).len() == n,
        forall|i: int| 0 <= i < n ==> #[trigger] exprs_view(v, n)[i] == expr_view(v[i]),
    decreases n,
{
    if n > 0 {
        lemma_exprs_view_len(v, n - 1);
    }
}

pub proof fn lemma_props_view_len(v: Seq<(String, Expression)>, n: int)
    requires
        0 <= n <= v.len(),
    ensures
        props_view(v, n).len() == n,
        forall|i: int|
            0 <= i < n ==> #[trigger] props_view(v, n)[i] == (v[i].0@, expr_view(v[i].1)),
    decreases n,
{
    if n > 0 {
        lemma_props_view_len(v, n - 1);
    }
}

pub proof fn lemma_lit_props_view_len(v: Seq<(String, Literal)>, n: int)
    requires
        0 <= n <= v.len(),
    ensures
        lit_props_view(v, n).len() == n,
        forall|i: int|
            0 <= i < n ==> #[trigger] lit_props_view(v, n)[i] == (v[i].0@, lit_view(v[i].1)),
    decreases n,
{
    if n > 0 {
        lemma_lit_props_view_len(v, n - 1);
    }
}

proof fn lemma_exprs_view_prefix(v: Seq<Expression>, e: Expression, k: int)
    requires
        0 <= k <= v.len(),
    ensures
        exprs_view(v.push(e), k) == exprs_view(v, k),
    decreases k,
{
    if k > 0 {
        lemma_exprs_view_prefix(v, e, k - 1);
        assert(v.push(e)[k - 1] == v[k - 1]);
    }
}

pub proof fn lemma_all_exprs_push(v: Seq<Expression>, e: Expression)
    ensures
        all_exprs(v.push(e)) == all_exprs(v).push(expr_view(e)),
{
    lemma_exprs_view_prefix(v, e, v.len() as int);
    assert(v.push(e)[v.len() as int] == e);
}

proof fn lemma_props_view_prefix(v: Seq<(String, Expression)>, e: (String, Expression), k: int)
    requires
        0 <= k <= v.len(),
    ensures
        props_view(v.push(e), k) == props_view(v, k),
    decreases k,
{
    if k > 0 {
        lemma_props_view_prefix(v, e, k - 1);
        assert(v.push(e)[k - 1] == v[k - 1]);
    }
}

pub proof fn lemma_all_props_push(v: Seq<(String, Expression)>, e: (String, Expression))
    ensures
        all_props(v.push(e)) == all_props(v).push((e.0@, expr_view(e.1))),
{
    lemma_props_view_prefix(v, e, v.len() as int);
    assert(v.push(e)[v.len() as int] == e);
}

proof fn lemma_stmts_view_prefix(v: Seq<Statement>, e: Statement, k: int)
    requires
        0 <= k <= v.len(),
    ensures
        stmts_view(v.push(e), k) == stmts_view(v, k),
    decreases k,
{
    if k > 0 {
        lemma_stmts_view_prefix(v, e, k - 1);
        assert(v.push(e)[k - 1] == v[k - 1]);
    }
}

pub proof fn lemma_all_stmts_push(v: Seq<Statement>, e: Statement)
    ensures
        all_stmts(v.push(e)) == all_stmts(v).push(stmt_view(e)),
{
    lemma_stmts_view_prefix(v, e, v.len() as int);
    assert(v.push(e)[v.len() as int] == e);
}

proof fn lemma_lit_props_view_prefix(v: Seq<(String, Literal)>, e: (String, Literal), k: int)
    requires
        0 <= k <= v.len(),
    ensures
        lit_props_view(v.push(e), k) == lit_props_view(v, k),
    decreases k,
{
    if k > 0 {
        lemma_lit_props_view_prefix(v, e, k - 1);
        assert(v.push(e)[k - 1] == v[k - 1]);
    }
}

pub proof fn lemma_all_lit_props_push(v: Seq<(String, Literal)>, e: (String, Literal))
    ensures
        all_lit_props(v.push(e)) == all_lit_props(v).push((e.0@, lit_view(e.1))),
{
    lemma_lit_props_view_prefix(v, e, v.len() as int);
    assert(v.push(e)[v.len() as int] == e);
}

pub proof fn lemma_all_exprs_remove_first(v: Seq<Expression>)
    requires
        v.len() > 0,
    ensures
        all_exprs(v) == seq![expr_view(v[0])] + all_exprs(v.remove(0)),
{
    lemma_exprs_view_len(v, v.len() as int);
    lemma_exprs_view_len(v.remove(0), v.len() - 1);
    assert(all_exprs(v) =~= seq![expr_view(v[0])] + all_exprs(v.remove(0)));
}

pub proof fn lemma_all_props_remove_first(v: Seq<(String, Expression)>)
    requires
        v.len() > 0,
    ensures
        all_props(v) == seq![(v[0].0@, expr_view(v[0].1))] + all_props(v.remove(0)),
{
    lemma_props_view_len(v, v.len() as int);
    lemma_props_view_len(v.remove(0), v.len() - 1);
    assert(all_props(v) =~= seq![(v[0].0@, expr_view(v[0].1))] + all_props(v.remove(0)));
}

pub proof fn lemma_all_stmts_remove_first(v: Seq<Statement>)
    requires
        v.len() > 0,
    ensures
        all_stmts(v) == seq![stmt_view(v[0])] + all_stmts(v.remove(0)),
{
    lemma_stmts_view_len(v, v.len() as int);
    lemma_stmts_view_len(v.remove(0), v.len() - 1);
    assert(all_stmts(v) =~= seq![stmt_view(v[0])] + all_stmts(v.remove(0)));
}

pub fn clone_names(v: &Vec<String>) -> (r: Vec<String>)
    ensures
        names_view(r@) == names_view(v@),
{
    let mut out: Vec<String> = Vec::new();
    let mut i: usize = 0;
    while i < v.len()
        invariant
            i <= v@.len(),
            out@ == v@.subrange(0, i as int),
        decreases v@.len() - i,
    {
        out.push(v[i].clone());
        i = i + 1;
        assert(out@ =~= v@.subrange(0, i as int));
    }
    assert(v@.subrange(0, v@.len() as int) =~= v@);
    out
}

pub fn clone_literal(l: &Literal) -> (r: Literal)
    ensures
        lit_view(r) == lit_view(*l),
    decreases l,
{
    match l {
        Literal::Number(n) => Literal::Number(*n),
        Literal::String(s) => Literal::String(s.clone()),
        Literal::Null => Literal::Null,
        Literal::Boolean(b) => Literal::Boolean(*b),
        Literal::Undefined => Literal::Undefined,
        Literal::Array(h) => Literal::Array(*h),
        Literal::Object(props) => Literal::Object(clone_literal_props(props)),
        Literal::Function { args, body } => Literal::Function {
            args: clone_names(args),
            body: Box::new(clone_statement(body)),
        },
        Literal::NativeFunction(f) => {
            let receiver = match &f.receiver {
                Some(r) => Some(Box::new(clone_literal(r))),
                None => None,
            };
            Literal::NativeFunction(NativeFn { builtin: f.builtin, receiver })
        },
    }
}

pub fn clone_expression(e: &Expression) -> (r: Expression)
    ensures
        expr_view(r) == expr_view(*e),
    decreases e,
{
    match e {
        Expression::Literal(l) => Expression::Literal(clone_literal(l)),
        Expression::Identifier(s) => Expression::Identifier(s.clone()),
        Expression::Object { properties } => Expression::Object {
            properties: clone_properties(properties),
        },
        Expression::Array { elements } => Expression::Array { elements: clone_expressions(elements) },
        Expression::BinaryOp { left, op, right } => Expression::BinaryOp {
            left: Box::new(clone_expression(left)),
            op: *op,
            right: Box::new(clone_expression(right)),
        },
        Expression::UnaryOp { op, expr } => Expression::UnaryOp {
            op: *op,
            expr: Box::new(clone_expression(expr)),
        },
        Expression::FunctionCall { callee, args } => Expression::FunctionCall {
            callee: Box::new(clone_expression(callee)),
            args: clone_expressions(args),
        },
        Expression::Assignment { target, value } => Expression::Assignment {
            target: Box::new(clone_expression(target)),
            value: Box::new(clone_expression(value)),
        },
        Expression::Index { target, index } => Expression::Index {
            target: Box::new(clone_expression(target)),
            index: Box::new(clone_expression(index)),
        },
        Expression::Property { target, name } => Expression::Property {
            target: Box::new(clone_expression(target)),
            name: name.clone(),
        },
        Expression::Increment { target } => Expression::Increment {
            target: Box::new(clone_expression(target)),
        },
        Expression::Decrement { target } => Expression::Decrement {
            target: Box::new(clone_expression(target)),
        },
    }
}

pub fn clone_expressions(v: &Vec<Expression>) -> (r: Vec<Expression>)
    ensures
        all_exprs(r@) == all_exprs(v@),
    decreases v,
{
    let mut out: Vec<Expression> = Vec::new();
    let mut i: usize = 0;
    while i < v.len()
        invariant
            i <= v@.len(),
            all_exprs(out@) == all_exprs(v@.subrange(0, i as int)),
        decreases v@.len() - i,
    {
        let ghost before = out@;
        assert(decreases_to!(v => v@[i as int]));
        let x = clone_expression(&v[i]);
        out.push(x);
        proof {
            lemma_all_exprs_push(before, x);
            lemma_exprs_view_len(v@.subrange(0, i + 1), i + 1);
            lemma_exprs_view_len(v@.subrange(0, i as int), i as int);
            lemma_exprs_view_len(out@, out@.len() as int);
            assert(all_exprs(out@) =~= all_exprs(v@.subrange(0, i + 1)));
        }
        i = i + 1;
    }
    assert(v@.subrange(0, v@.len() as int) =~= v@);
    out
}

pub fn clone_statement(s: &Statement) -> (r: Statement)
    ensures
        stmt_view(r) == stmt_view(*s),
    decreases s,
{
    match s {
        Statement::Expression(e) => Statement::Expression(Box::new(clone_expression(e))),
        Statement::Return(e) => Statement::Return(Box::new(clone_expression(e))),
        Statement::Continue => Statement::Continue,
        Statement::Break => Statement::Break,
        Statement::If { condition, consequence, alternative } => Statement::If {
            condition: Box::new(clone_expression(condition)),
            consequence: Box::new(clone_statement(consequence)),
            alternative: match alternative {
                Some(a) => Some(Box::new(clone_statement(a))),
                None => None,
            },
        },
        Statement::While { condition, body } => Statement::While {
            condition: Box::new(clone_expression(condition)),
            body: Box::new(clone_statement(body)),
        },
        Statement::For { init, condition, update, body } => Statement::For {
            init: match init {
                Some(i) => Some(Box::new(clone_statement(i))),
                None => None,
            },
            condition: match condition {
                Some(c) => Some(Box::new(clone_expression(c))),
                None => None,
            },
            update: match update {
                Some(u) => Some(Box::new(clone_expression(u))),
                None => None,
            },
            body: Box::new(clone_statement(body)),
        },
        Statement::Function { name, args, body } => Statement::Function {
            name: name.clone(),
            args: clone_names(args),
            body: Box::new(clone_statement(body)),
        },
        Statement::Scope { statements } => Statement::Scope { statements: clone_statements(statements) },
        Statement::Let { name, value } => Statement::Let {
            name: name.clone(),
            value: Box::new(clone_expression(value)),
        },
    }
}

pub fn clone_statements(v: &Vec<Statement>) -> (r: Vec<Statement>)
    ensures
        all_stmts(r@) == all_stmts(v@),
    decreases v,
{
    let mut out: Vec<Statement> = Vec::new();
    let mut i: usize = 0;
    while i < v.len()
        invariant
            i <= v@.len(),
            all_stmts(out@) == all_stmts(v@.subrange(0, i as int)),
        decreases v@.len() - i,
    {
        let ghost before = out@;
        assert(decreases_to!(v => v@[i as int]));
        let x = clone_statement(&v[i]);
        out.push(x);
        proof {
            lemma_all_stmts_push(before, x);
            lemma_stmts_view_len(v@.subrange(0, i + 1), i + 1);
            lemma_stmts_view_len(v@.subrange(0, i as int), i as int);
            lemma_stmts_view_len(out@, out@.len() as int);
            assert(all_stmts(out@) =~= all_stmts(v@.subrange(0, i + 1)));
        }
        i = i + 1;
    }
    assert(v@.subrange(0, v@.len() as int) =~= v@);
    out
}

pub fn clone_literal_props(props: &Vec<(String, Literal)>) -> (r: Vec<(String, Literal)>)
    ensures
        all_lit_props(r@) == all_lit_props(props@),
    decreases props,
{
    let mut out: Vec<(String, Literal)> = Vec::new();
    let mut i: usize = 0;
    while i < props.len()
        invariant
            i <= props@.len(),
            all_lit_props(out@) == all_lit_props(props@.subrange(0, i as int)),
        decreases props@.len() - i,
    {
        let ghost before = out@;
        assert(decreases_to!(props@ => props@[i as int]));
        assert(decreases_to!(props@[i as int] => props@[i as int].1));
        let v = clone_literal(&props[i].1);
        let kv = (props[i].0.clone(), v);
        out.push(kv);
        proof {
            lemma_all_lit_props_push(before, kv);
            lemma_lit_props_view_len(props@.subrange(0, i + 1), i + 1);
            lemma_lit_props_view_len(props@.subrange(0, i as int), i as int);
            lemma_lit_props_view_len(out@, out@.len() as int);
            assert(all_lit_props(out@) =~= all_lit_props(props@.subrange(0, i + 1)));
        }
        i = i + 1;
    }
    assert(props@.subrange(0, props@.len() as int) =~= props@);
    out
}

pub fn clone_properties(props: &Vec<(String, Expression)>) -> (r: Vec<(String, Expression)>)
    ensures
        all_props(r@) == all_props(props@),
    decreases props,
{
    let mut out: Vec<(String, Expression)> = Vec::new();
    let mut i: usize = 0;
    while i < props.len()
        invariant
            i <= props@.len(),
            all_props(out@) == all_props(props@.subrange(0, i as int)),
        decreases props@.len() - i,
    {
        let ghost before = out@;
        assert(decreases_to!(props@ => props@[i as int]));
        assert(decreases_to!(props@[i as int] => props@[i as int].1));
        let v = clone_expression(&props[i].1);
        let kv = (props[i].0.clone(), v);
        out.push(kv);
        proof {
            lemma_all_props_push(before, kv);
            lemma_props_view_len(props@.subrange(0, i + 1), i + 1);
            lemma_props_view_len(props@.subrange(0, i as int), i as int);
            lemma_props_view_len(out@, out@.len() as int);
            assert(all_props(out@) =~= all_props(props@.subrange(0, i + 1)));
        }
        i = i + 1;
    }
    assert(props@.subrange(0, props@.len() as int) =~= props@);
    out
}

} // verus!
