use vstd::prelude::*;
use crate::token::{Symbol, Token, TokenView, tokens_view};
use crate::ast::{
    AST, BinaryOperator, ExprView, LitView, lit_view, Expression, Literal, StmtView, Statement, UnaryOperator,
    all_exprs, all_props, all_stmts, expr_view, lemma_all_exprs_push, lemma_all_props_push,
    lemma_all_stmts_push, names_view, stmt_view,
};
use crate::grammar::{
    Expected, Failure, at_sym, infix_op, left, parse_block, parse_expr_semi, parse_expression, parse_for,
    parse_guarded, parse_infix, parse_items, parse_list, parse_object, parse_param_items,
    parse_params, parse_postfix, parse_prefix, parse_program, parse_props, parse_spec,
    parse_statement, parse_tail, tok, undefined_expr,
};

verus! {

/// Where the parser stopped: the position of the token it could not
/// accept, what it wanted there, and the token it found.
#[derive(Debug, Clone, PartialEq)]
pub struct ParseError {
    pub position: usize,
    pub expected: Expected,
    pub found: Token,
}

/// A failed parse names the token at its position.
pub open spec fn names_found<T>(ts: Seq<TokenView>, r: Result<T, ParseError>) -> bool {
    r is Err ==> r->Err_0.found@ == tok(ts, r->Err_0.position as int)
}

pub open spec fn expr_res(r: Result<(Expression, usize), ParseError>) -> Result<(ExprView, int), Failure> {
    match r {
        Ok((e, q)) => Ok((expr_view(e), q as int)),
        Err(x) => Err((x.position as int, x.expected)),
    }
}

pub open spec fn exprs_res(r: Result<(Vec<Expression>, usize), ParseError>) -> Result<
    (Seq<ExprView>, int),
    Failure,
> {
    match r {
        Ok((es, q)) => Ok((all_exprs(es@), q as int)),
        Err(x) => Err((x.position as int, x.expected)),
    }
}

pub open spec fn props_res(r: Result<(Vec<(String, Expression)>, usize), ParseError>) -> Result<
    (Seq<(Seq<char>, ExprView)>, int),
    Failure,
> {
    match r {
        Ok((ps, q)) => Ok((all_props(ps@), q as int)),
        Err(x) => Err((x.position as int, x.expected)),
    }
}

pub open spec fn stmt_res(r: Result<(Statement, usize), ParseError>) -> Result<(StmtView, int), Failure> {
    match r {
        Ok((s, q)) => Ok((stmt_view(s), q as int)),
        Err(x) => Err((x.position as int, x.expected)),
    }
}

pub open spec fn stmts_res(r: Result<(Vec<Statement>, usize), ParseError>) -> Result<
    (Seq<StmtView>, int),
    Failure,
> {
    match r {
        Ok((ss, q)) => Ok((all_stmts(ss@), q as int)),
        Err(x) => Err((x.position as int, x.expected)),
    }
}

pub open spec fn names_res(r: Result<(Vec<String>, usize), ParseError>) -> Result<
    (Seq<Seq<char>>, int),
    Failure,
> {
    match r {
        Ok((ns, q)) => Ok((names_view(ns@), q as int)),
        Err(x) => Err((x.position as int, x.expected)),
    }
}

pub open spec fn guarded_res(r: Result<(Expression, Statement, usize), ParseError>) -> Result<
    (ExprView, StmtView, int),
    Failure,
> {
    match r {
        Ok((c, s, q)) => Ok((expr_view(c), stmt_view(s), q as int)),
        Err(x) => Err((x.position as int, x.expected)),
    }
}

pub open spec fn program_res(r: Result<AST, ParseError>) -> Result<Seq<StmtView>, Failure> {
    match r {
        Ok(ast) => Ok(ast@),
        Err(x) => Err((x.position as int, x.expected)),
    }
}

/// Whether a parse result that succeeded ended after `p` and within `n` tokens.
pub open spec fn advanced<T>(r: Result<(T, usize), ParseError>, p: int, n: int) -> bool {
    r is Ok ==> p < r->Ok_0.1 <= n
}

pub open spec fn within<T>(r: Result<(T, usize), ParseError>, p: int, n: int) -> bool {
    r is Ok ==> p <= r->Ok_0.1 <= n
}

fn copy_token(t: &Token) -> (r: Token)
    ensures
        r@ == t@,
{
    match t {
        Token::Identifier(s) => Token::Identifier(s.clone()),
        Token::StringLiteral(s) => Token::StringLiteral(s.clone()),
        Token::Number(n) => Token::Number(*n),
        Token::Sym(s) => Token::Sym(*s),
    }
}

fn undefined_literal() -> (r: Expression)
    ensures
        expr_view(r) == undefined_expr(),
{
    let r = Expression::Literal(Literal::Undefined);
    assert(lit_view(Literal::Undefined) == LitView::Undefined);
    r
}

pub struct Parser {
    tokens: Vec<Token>,
}

impl Parser {
    /// The tokens being parsed.
    pub closed spec fn toks(&self) -> Seq<TokenView> {
        tokens_view(self.tokens@)
    }

    pub closed spec fn wf(&self) -> bool {
        self.tokens@.len() <= usize::MAX
    }

    pub fn new(tokens: Vec<Token>) -> (r: Self)
        ensures
            r.toks() == tokens_view(tokens@),
            r.wf(),
    {
        let n = tokens.len();
        Parser { tokens }
    }

    fn fail<T>(&self, p: usize, expected: Expected) -> (r: Result<T, ParseError>)
        ensures
            r is Err,
            r->Err_0.position == p,
            r->Err_0.expected == expected,
            names_found(self.toks(), r),
    {
        let found = if p < self.tokens.len() {
            copy_token(&self.tokens[p])
        } else {
            Token::Sym(Symbol::EOF)
        };
        Err(ParseError { position: p, expected, found })
    }

    fn len(&self) -> (r: usize)
        ensures
            r == self.toks().len(),
    {
        self.tokens.len()
    }

    fn at(&self, p: usize, s: Symbol) -> (r: bool)
        ensures
            r == at_sym(self.toks(), p as int, s),
    {
        if p < self.tokens.len() {
            self.tokens[p].is_sym(s)
        } else {
            s == Symbol::EOF
        }
    }

    fn name_at(&self, p: usize) -> (r: Option<String>)
        ensures
            r is Some <==> tok(self.toks(), p as int) is Identifier,
            r is Some ==> tok(self.toks(), p as int) == TokenView::Identifier(r->0@),
    {
        if p < self.tokens.len() {
            match &self.tokens[p] {
                Token::Identifier(n) => Some(n.clone()),
                _ => None,
            }
        } else {
            None
        }
    }

    fn infix_at(&self, p: usize) -> (r: Option<BinaryOperator>)
        requires
            self.wf(),
            p < self.toks().len(),
        ensures
            r == infix_op(self.toks()[p as int]),
    {
        match &self.tokens[p] {
            Token::Sym(s) => match s {
                Symbol::Plus => Some(BinaryOperator::Add),
                Symbol::Minus => Some(BinaryOperator::Sub),
                Symbol::Star => Some(BinaryOperator::Mul),
                Symbol::Slash => Some(BinaryOperator::Div),
                Symbol::Percent => Some(BinaryOperator::Mod),
                Symbol::AmpAmp => Some(BinaryOperator::BinaryAnd),
                Symbol::PipePipe => Some(BinaryOperator::BinaryOr),
                Symbol::EqualEqual => Some(BinaryOperator::Equal),
                Symbol::BangEqual => Some(BinaryOperator::NotEqual),
                Symbol::Greater => Some(BinaryOperator::GreaterThan),
                Symbol::GreaterEqual => Some(BinaryOperator::GreaterThanOrEqual),
                Symbol::Less => Some(BinaryOperator::LessThan),
                Symbol::LessEqual => Some(BinaryOperator::LessThanOrEqual),
                Symbol::PlusEqual => Some(BinaryOperator::PlusEqual),
                Symbol::MinusEqual => Some(BinaryOperator::MinusEqual),
                Symbol::StarEqual => Some(BinaryOperator::MulEqual),
                Symbol::SlashEqual => Some(BinaryOperator::DivEqual),
                Symbol::PercentEqual => Some(BinaryOperator::ModEqual),
                _ => None,
            },
            _ => None,
        }
    }

    fn expression(&self, p: usize) -> (r: Result<(Expression, usize), ParseError>)
        requires
            self.wf(),
            p <= self.toks().len(),
        ensures
            expr_res(r) == parse_expression(self.toks(), p as int),
            names_found(self.toks(), r),
            advanced(r, p as int, self.toks().len() as int),
        decreases left(self.toks(), p as int), 3int,
    {
        if p >= self.tokens.len() {
            return self.fail(p, Expected::Expression);
        }
        let (e, q) = match self.prefix(p) {
            Ok(v) => v,
            Err(x) => {
                return Err(x);
            },
        };
        let (e2, q2) = match self.postfix(q, e) {
            Ok(v) => v,
            Err(x) => {
                return Err(x);
            },
        };
        self.tail(q2, e2)
    }

    fn prefix(&self, p: usize) -> (r: Result<(Expression, usize), ParseError>)
        requires
            self.wf(),
            p < self.toks().len(),
        ensures
            expr_res(r) == parse_prefix(self.toks(), p as int),
            names_found(self.toks(), r),
            advanced(r, p as int, self.toks().len() as int),
        decreases left(self.toks(), p as int), 2int,
    {
        proof {
            assert(self.toks()[p as int] == self.tokens@[p as int]@);
        }
        match &self.tokens[p] {
            Token::Number(n) => {
                let r = Ok((Expression::Literal(Literal::Number(*n)), p + 1));
                assert(lit_view(Literal::Number(*n)) == LitView::Number(*n));
                r
            },
            Token::StringLiteral(s) => {
                let t = s.clone();
                assert(lit_view(Literal::String(t)) == LitView::String(t@));
                let r = Ok((Expression::Literal(Literal::String(t)), p + 1));
                r
            },
            Token::Identifier(s) => {
                let r = Ok((Expression::Identifier(s.clone()), p + 1));
                r
            },
            Token::Sym(Symbol::True) => {
                assert(lit_view(Literal::Boolean(true)) == LitView::Boolean(true));
                Ok((Expression::Literal(Literal::Boolean(true)), p + 1))
            },
            Token::Sym(Symbol::False) => {
                assert(lit_view(Literal::Boolean(false)) == LitView::Boolean(false));
                Ok((Expression::Literal(Literal::Boolean(false)), p + 1))
            },
            Token::Sym(Symbol::Null) => {
                assert(lit_view(Literal::Null) == LitView::Null);
                Ok((Expression::Literal(Literal::Null), p + 1))
            },
            Token::Sym(Symbol::Undefined) => Ok((undefined_literal(), p + 1)),
            Token::Sym(Symbol::LeftParen) => {
                let (e, q) = match self.expression(p + 1) {
            Ok(v) => v,
            Err(x) => {
                return Err(x);
            },
        };
                if self.at(q, Symbol::RightParen) {
                    Ok((e, q + 1))
                } else {
                    self.fail(q, Expected::Sym(Symbol::RightParen))
                }
            },
            Token::Sym(Symbol::LeftBracket) => {
                let (es, q) = match self.list(p + 1, Symbol::RightBracket) {
            Ok(v) => v,
            Err(x) => {
                return Err(x);
            },
        };
                Ok((Expression::Array { elements: es }, q))
            },
            Token::Sym(Symbol::LeftBrace) => {
                let (ps, q) = match self.object(p + 1) {
            Ok(v) => v,
            Err(x) => {
                return Err(x);
            },
        };
                Ok((Expression::Object { properties: ps }, q))
            },
            Token::Sym(Symbol::Minus) => {
                let (e, q) = match self.expression(p + 1) {
            Ok(v) => v,
            Err(x) => {
                return Err(x);
            },
        };
                Ok((Expression::UnaryOp { op: UnaryOperator::Negate, expr: Box::new(e) }, q))
            },
            Token::Sym(Symbol::Bang) => {
                let (e, q) = match self.expression(p + 1) {
            Ok(v) => v,
            Err(x) => {
                return Err(x);
            },
        };
                Ok((Expression::UnaryOp { op: UnaryOperator::Not, expr: Box::new(e) }, q))
            },
            _ => self.fail(p, Expected::Expression),
        }
    }

    fn list(&self, p: usize, close: Symbol) -> (r: Result<(Vec<Expression>, usize), ParseError>)
        requires
            self.wf(),
            p <= self.toks().len(),
            close != Symbol::EOF,
        ensures
            exprs_res(r) == parse_list(self.toks(), p as int, close),
            names_found(self.toks(), r),
            advanced(r, p as int, self.toks().len() as int),
        decreases left(self.toks(), p as int), 5int,
    {
        if self.at(p, close) {
            let v: Vec<Expression> = Vec::new();
            assert(all_exprs(v@) =~= Seq::<ExprView>::empty());
            Ok((v, p + 1))
        } else {
            let v: Vec<Expression> = Vec::new();
            assert(all_exprs(v@) =~= Seq::<ExprView>::empty());
            self.items(p, close, v)
        }
    }

    fn items(&self, p: usize, close: Symbol, acc: Vec<Expression>) -> (r: Result<
        (Vec<Expression>, usize),
        ParseError,
    >)
        requires
            self.wf(),
            p <= self.toks().len(),
            close != Symbol::EOF,
        ensures
            exprs_res(r) == parse_items(self.toks(), p as int, close, all_exprs(acc@)),
            names_found(self.toks(), r),
            advanced(r, p as int, self.toks().len() as int),
        decreases left(self.toks(), p as int), 4int,
    {
        if p >= self.tokens.len() {
            return self.fail(p, Expected::Expression);
        }
        let (e, q) = match self.expression(p) {
            Ok(v) => v,
            Err(x) => {
                return Err(x);
            },
        };
        let ghost ev = expr_view(e);
        let mut acc = acc;
        let ghost old_acc = acc@;
        acc.push(e);
        proof {
            lemma_all_exprs_push(old_acc, e);
        }
        if self.at(q, close) {
            Ok((acc, q + 1))
        } else if self.at(q, Symbol::Comma) {
            self.items(q + 1, close, acc)
        } else {
            self.fail(q, Expected::Sym(close))
        }
    }

    fn object(&self, p: usize) -> (r: Result<(Vec<(String, Expression)>, usize), ParseError>)
        requires
            self.wf(),
            p <= self.toks().len(),
        ensures
            props_res(r) == parse_object(self.toks(), p as int),
            names_found(self.toks(), r),
            advanced(r, p as int, self.toks().len() as int),
        decreases left(self.toks(), p as int), 5int,
    {
        let v: Vec<(String, Expression)> = Vec::new();
        assert(all_props(v@) =~= Seq::<(Seq<char>, ExprView)>::empty());
        if self.at(p, Symbol::RightBrace) {
            Ok((v, p + 1))
        } else {
            self.props(p, v)
        }
    }

    fn props(&self, p: usize, acc: Vec<(String, Expression)>) -> (r: Result<
        (Vec<(String, Expression)>, usize),
        ParseError,
    >)
        requires
            self.wf(),
            p <= self.toks().len(),
        ensures
            props_res(r) == parse_props(self.toks(), p as int, all_props(acc@)),
            names_found(self.toks(), r),
            advanced(r, p as int, self.toks().len() as int),
        decreases left(self.toks(), p as int), 4int,
    {
        if p >= self.tokens.len() {
            return self.fail(p, Expected::Key);
        }
        let key = match &self.tokens[p] {
            Token::StringLiteral(s) => s.clone(),
            Token::Identifier(s) => s.clone(),
            _ => {
                return self.fail(p, Expected::Key);
            },
        };
        if !self.at(p + 1, Symbol::Colon) {
            return self.fail(p + 1, Expected::Sym(Symbol::Colon));
        }
        let (v, q) = match self.expression(p + 2) {
            Ok(v) => v,
            Err(x) => {
                return Err(x);
            },
        };
        let mut acc = acc;
        let ghost old_acc = acc@;
        let ghost kv = (key, v);
        acc.push((key, v));
        proof {
            lemma_all_props_push(old_acc, kv);
        }
        if self.at(q, Symbol::RightBrace) {
            Ok((acc, q + 1))
        } else if self.at(q, Symbol::Comma) {
            self.props(q + 1, acc)
        } else {
            self.fail(q, Expected::Sym(Symbol::RightBrace))
        }
    }

    fn postfix(&self, p: usize, e: Expression) -> (r: Result<(Expression, usize), ParseError>)
        requires
            self.wf(),
            p <= self.toks().len(),
        ensures
            expr_res(r) == parse_postfix(self.toks(), p as int, expr_view(e)),
            names_found(self.toks(), r),
            within(r, p as int, self.toks().len() as int),
        decreases left(self.toks(), p as int), 1int,
    {
        if p >= self.tokens.len() {
            return Ok((e, p));
        }
        match &self.tokens[p] {
            Token::Sym(Symbol::LeftBracket) => {
                let (i, q) = match self.expression(p + 1) {
            Ok(v) => v,
            Err(x) => {
                return Err(x);
            },
        };
                if self.at(q, Symbol::RightBracket) {
                    self.postfix(q + 1, Expression::Index { target: Box::new(e), index: Box::new(i) })
                } else {
                    self.fail(q, Expected::Sym(Symbol::RightBracket))
                }
            },
            Token::Sym(Symbol::Dot) => match self.name_at(p + 1) {
                Some(n) => self.postfix(p + 2, Expression::Property { target: Box::new(e), name: n }),
                None => self.fail(p + 1, Expected::Identifier),
            },
            Token::Sym(Symbol::LeftParen) => {
                let (args, q) = match self.list(p + 1, Symbol::RightParen) {
            Ok(v) => v,
            Err(x) => {
                return Err(x);
            },
        };
                self.postfix(q, Expression::FunctionCall { callee: Box::new(e), args })
            },
            Token::Sym(Symbol::PlusPlus) => self.postfix(p + 1, Expression::Increment { target: Box::new(e) }),
            Token::Sym(Symbol::MinusMinus) => self.postfix(p + 1, Expression::Decrement { target: Box::new(e) }),
            _ => Ok((e, p)),
        }
    }

    fn tail(&self, p: usize, e: Expression) -> (r: Result<(Expression, usize), ParseError>)
        requires
            self.wf(),
            p <= self.toks().len(),
        ensures
            expr_res(r) == parse_tail(self.toks(), p as int, expr_view(e)),
            names_found(self.toks(), r),
            within(r, p as int, self.toks().len() as int),
        decreases left(self.toks(), p as int), 1int,
    {
        if p >= self.tokens.len() {
            Ok((e, p))
        } else if self.at(p, Symbol::Equal) {
            let (v, q) = match self.expression(p + 1) {
            Ok(v) => v,
            Err(x) => {
                return Err(x);
            },
        };
            Ok((Expression::Assignment { target: Box::new(e), value: Box::new(v) }, q))
        } else {
            self.infix(p, e)
        }
    }

    fn infix(&self, p: usize, e: Expression) -> (r: Result<(Expression, usize), ParseError>)
        requires
            self.wf(),
            p <= self.toks().len(),
        ensures
            expr_res(r) == parse_infix(self.toks(), p as int, expr_view(e)),
            names_found(self.toks(), r),
            within(r, p as int, self.toks().len() as int),
        decreases left(self.toks(), p as int), 0int,
    {
        if p >= self.tokens.len() {
            return Ok((e, p));
        }
        match self.infix_at(p) {
            None => Ok((e, p)),
            Some(op) => {
                let (rhs, q) = match self.expression(p + 1) {
            Ok(v) => v,
            Err(x) => {
                return Err(x);
            },
        };
                self.infix(q, Expression::BinaryOp { left: Box::new(e), op, right: Box::new(rhs) })
            },
        }
    }

    fn params(&self, p: usize) -> (r: Result<(Vec<String>, usize), ParseError>)
        requires
            self.wf(),
            p <= self.toks().len(),
        ensures
            names_res(r) == parse_params(self.toks(), p as int),
            names_found(self.toks(), r),
            advanced(r, p as int, self.toks().len() as int),
    {
        let v: Vec<String> = Vec::new();
        assert(names_view(v@) =~= Seq::<Seq<char>>::empty());
        if self.at(p, Symbol::RightParen) {
            Ok((v, p + 1))
        } else {
            self.param_items(p, v)
        }
    }

    fn param_items(&self, p: usize, acc: Vec<String>) -> (r: Result<(Vec<String>, usize), ParseError>)
        requires
            self.wf(),
            p <= self.toks().len(),
        ensures
            names_res(r) == parse_param_items(self.toks(), p as int, names_view(acc@)),
            names_found(self.toks(), r),
            advanced(r, p as int, self.toks().len() as int),
        decreases left(self.toks(), p as int),
    {
        if p >= self.tokens.len() {
            return self.fail(p, Expected::Identifier);
        }
        match self.name_at(p) {
            Some(n) => {
                let mut acc = acc;
                let ghost old_acc = acc@;
                acc.push(n);
                assert(names_view(acc@) =~= names_view(old_acc).push(n@));
                if self.at(p + 1, Symbol::RightParen) {
                    Ok((acc, p + 2))
                } else if self.at(p + 1, Symbol::Comma) {
                    self.param_items(p + 2, acc)
                } else {
                    self.fail(p + 1, Expected::Sym(Symbol::RightParen))
                }
            },
            None => self.fail(p, Expected::Identifier),
        }
    }

    fn block(&self, p: usize, acc: Vec<Statement>) -> (r: Result<(Vec<Statement>, usize), ParseError>)
        requires
            self.wf(),
            p <= self.toks().len(),
        ensures
            stmts_res(r) == parse_block(self.toks(), p as int, all_stmts(acc@)),
            names_found(self.toks(), r),
            advanced(r, p as int, self.toks().len() as int),
        decreases left(self.toks(), p as int), 7int,
    {
        if p >= self.tokens.len() || self.at(p, Symbol::EOF) {
            self.fail(p, Expected::Sym(Symbol::RightBrace))
        } else if self.at(p, Symbol::RightBrace) {
            Ok((acc, p + 1))
        } else {
            let (st, q) = match self.statement(p) {
                Ok(v) => v,
                Err(x) => {
                    return Err(x);
                },
            };
            let mut acc = acc;
            let ghost old_acc = acc@;
            acc.push(st);
            proof {
                lemma_all_stmts_push(old_acc, st);
            }
            self.block(q, acc)
        }
    }

    fn expr_semi(&self, p: usize) -> (r: Result<(Expression, usize), ParseError>)
        requires
            self.wf(),
            p <= self.toks().len(),
        ensures
            expr_res(r) == parse_expr_semi(self.toks(), p as int),
            names_found(self.toks(), r),
            advanced(r, p as int, self.toks().len() as int),
        decreases left(self.toks(), p as int), 4int,
    {
        let (e, q) = match self.expression(p) {
            Ok(v) => v,
            Err(x) => {
                return Err(x);
            },
        };
        if self.at(q, Symbol::Semicolon) {
            Ok((e, q + 1))
        } else {
            self.fail(q, Expected::Sym(Symbol::Semicolon))
        }
    }

    fn guarded(&self, p: usize) -> (r: Result<(Expression, Statement, usize), ParseError>)
        requires
            self.wf(),
            p <= self.toks().len(),
        ensures
            guarded_res(r) == parse_guarded(self.toks(), p as int),
            names_found(self.toks(), r),
            r is Ok ==> p < r->Ok_0.2 <= self.toks().len(),
        decreases left(self.toks(), p as int), 5int,
    {
        if p >= self.tokens.len() || !self.at(p, Symbol::LeftParen) {
            return self.fail(p, Expected::Sym(Symbol::LeftParen));
        }
        let (c, q) = match self.expression(p + 1) {
            Ok(v) => v,
            Err(x) => {
                return Err(x);
            },
        };
        if !self.at(q, Symbol::RightParen) {
            return self.fail(q, Expected::Sym(Symbol::RightParen));
        }
        let (st, q1) = match self.statement(q + 1) {
            Ok(v) => v,
            Err(x) => {
                return Err(x);
            },
        };
        Ok((c, st, q1))
    }

    fn for_rest(&self, p: usize) -> (r: Result<(Statement, usize), ParseError>)
        requires
            self.wf(),
            p <= self.toks().len(),
        ensures
            stmt_res(r) == parse_for(self.toks(), p as int),
            names_found(self.toks(), r),
            advanced(r, p as int, self.toks().len() as int),
        decreases left(self.toks(), p as int), 7int,
    {
        if p >= self.tokens.len() {
            return self.fail(p, Expected::Expression);
        }
        let (init, q0) = if self.at(p, Symbol::Semicolon) {
            (None, p + 1)
        } else {
            match self.statement(p) {
                Ok((st, q)) => (Some(Box::new(st)), q),
                Err(x) => {
                    return Err(x);
                },
            }
        };
        let (condition, q1) = if self.at(q0, Symbol::Semicolon) {
            (None, q0 + 1)
        } else {
            match self.expr_semi(q0) {
                Ok((c, q)) => (Some(Box::new(c)), q),
                Err(x) => {
                    return Err(x);
                },
            }
        };
        let (update, q2) = if self.at(q1, Symbol::RightParen) {
            (None, q1)
        } else {
            match self.expression(q1) {
                Ok((u, q)) => (Some(Box::new(u)), q),
                Err(x) => {
                    return Err(x);
                },
            }
        };
        if !self.at(q2, Symbol::RightParen) {
            return self.fail(q2, Expected::Sym(Symbol::RightParen));
        }
        let (body, q3) = match self.statement(q2 + 1) {
            Ok(v) => v,
            Err(x) => {
                return Err(x);
            },
        };
        Ok((Statement::For { init, condition, update, body: Box::new(body) }, q3))
    }

    fn statement(&self, p: usize) -> (r: Result<(Statement, usize), ParseError>)
        requires
            self.wf(),
            p <= self.toks().len(),
        ensures
            stmt_res(r) == parse_statement(self.toks(), p as int),
            names_found(self.toks(), r),
            advanced(r, p as int, self.toks().len() as int),
        decreases left(self.toks(), p as int), 6int,
    {
        if p >= self.tokens.len() {
            return self.fail(p, Expected::Expression);
        }
        proof {
            assert(self.toks()[p as int] == self.tokens@[p as int]@);
        }
        match &self.tokens[p] {
            Token::Sym(Symbol::Return) => {
                if self.at(p + 1, Symbol::Semicolon) {
                    Ok((Statement::Return(Box::new(undefined_literal())), p + 2))
                } else {
                    let (e, q) = match self.expr_semi(p + 1) {
                        Ok(v) => v,
                        Err(x) => {
                            return Err(x);
                        },
                    };
                    Ok((Statement::Return(Box::new(e)), q))
                }
            },
            Token::Sym(Symbol::If) => {
                let (c, st, q) = match self.guarded(p + 1) {
                    Ok(v) => v,
                    Err(x) => {
                        return Err(x);
                    },
                };
                if self.at(q, Symbol::Else) {
                    let (a, q1) = match self.statement(q + 1) {
                        Ok(v) => v,
                        Err(x) => {
                            return Err(x);
                        },
                    };
                    Ok(
                        (
                            Statement::If {
                                condition: Box::new(c),
                                consequence: Box::new(st),
                                alternative: Some(Box::new(a)),
                            },
                            q1,
                        ),
                    )
                } else {
                    Ok(
                        (
                            Statement::If {
                                condition: Box::new(c),
                                consequence: Box::new(st),
                                alternative: None,
                            },
                            q,
                        ),
                    )
                }
            },
            Token::Sym(Symbol::Let) | Token::Sym(Symbol::Var) => match self.name_at(p + 1) {
                Some(n) => {
                    if self.at(p + 2, Symbol::Semicolon) {
                        Ok((Statement::Let { name: n, value: Box::new(undefined_literal()) }, p + 3))
                    } else if !self.at(p + 2, Symbol::Equal) {
                        self.fail(p + 2, Expected::Sym(Symbol::Equal))
                    } else {
                        let (v, q) = match self.expr_semi(p + 3) {
                            Ok(v) => v,
                            Err(x) => {
                                return Err(x);
                            },
                        };
                        Ok((Statement::Let { name: n, value: Box::new(v) }, q))
                    }
                },
                None => self.fail(p + 1, Expected::Identifier),
            },
            Token::Sym(Symbol::While) => {
                let (c, st, q) = match self.guarded(p + 1) {
                    Ok(v) => v,
                    Err(x) => {
                        return Err(x);
                    },
                };
                Ok((Statement::While { condition: Box::new(c), body: Box::new(st) }, q))
            },
            Token::Sym(Symbol::For) => {
                if !self.at(p + 1, Symbol::LeftParen) {
                    self.fail(p + 1, Expected::Sym(Symbol::LeftParen))
                } else {
                    self.for_rest(p + 2)
                }
            },
            Token::Sym(Symbol::Function) => match self.name_at(p + 1) {
                Some(n) => {
                    if !self.at(p + 2, Symbol::LeftParen) {
                        return self.fail(p + 2, Expected::Sym(Symbol::LeftParen));
                    }
                    let (params, q) = match self.params(p + 3) {
                        Ok(v) => v,
                        Err(x) => {
                            return Err(x);
                        },
                    };
                    if !self.at(q, Symbol::LeftBrace) {
                        return self.fail(q, Expected::Sym(Symbol::LeftBrace));
                    }
                    let empty: Vec<Statement> = Vec::new();
                    assert(all_stmts(empty@) =~= Seq::<StmtView>::empty());
                    let (body, q1) = match self.block(q + 1, empty) {
                        Ok(v) => v,
                        Err(x) => {
                            return Err(x);
                        },
                    };
                    let ghost body_view = all_stmts(body@);
                    let scope = Statement::Scope { statements: body };
                    assert(stmt_view(scope) == StmtView::Scope(body_view));
                    Ok((Statement::Function { name: n, args: params, body: Box::new(scope) }, q1))
                },
                None => self.fail(p + 1, Expected::Identifier),
            },
            Token::Sym(Symbol::Break) => {
                if self.at(p + 1, Symbol::Semicolon) {
                    Ok((Statement::Break, p + 2))
                } else {
                    self.fail(p + 1, Expected::Sym(Symbol::Semicolon))
                }
            },
            Token::Sym(Symbol::Continue) => {
                if self.at(p + 1, Symbol::Semicolon) {
                    Ok((Statement::Continue, p + 2))
                } else {
                    self.fail(p + 1, Expected::Sym(Symbol::Semicolon))
                }
            },
            Token::Sym(Symbol::LeftBrace) => {
                let empty: Vec<Statement> = Vec::new();
                assert(all_stmts(empty@) =~= Seq::<StmtView>::empty());
                let (ss, q) = match self.block(p + 1, empty) {
                    Ok(v) => v,
                    Err(x) => {
                        return Err(x);
                    },
                };
                Ok((Statement::Scope { statements: ss }, q))
            },
            _ => {
                let (e, q) = match self.expr_semi(p) {
                    Ok(v) => v,
                    Err(x) => {
                        return Err(x);
                    },
                };
                Ok((Statement::Expression(Box::new(e)), q))
            },
        }
    }

    /// Parses the whole token sequence into a program.
    pub fn parse(&self) -> (r: Result<AST, ParseError>)
        requires
            self.wf(),
        ensures
            program_res(r) == parse_spec(self.toks()),
            names_found(self.toks(), r),
    {
        let mut statements: Vec<Statement> = Vec::new();
        let mut p: usize = 0;
        assert(all_stmts(statements@) =~= Seq::<StmtView>::empty());
        while p < self.tokens.len() && !self.at(p, Symbol::EOF)
            invariant
                self.wf(),
                p <= self.toks().len(),
                parse_spec(self.toks()) == parse_program(self.toks(), p as int, all_stmts(statements@)),
            decreases self.toks().len() - p,
        {
            let (st, q) = match self.statement(p) {
                Ok(v) => v,
                Err(x) => {
                    return Err(x);
                },
            };
            let ghost old_stmts = statements@;
            statements.push(st);
            proof {
                lemma_all_stmts_push(old_stmts, st);
            }
            p = q;
        }
        Ok(AST { statements })
    }
}

impl AST {
    /// Parses a token sequence into a program.
    pub fn new(tokens: Vec<Token>) -> (r: Result<AST, ParseError>)
        ensures
            program_res(r) == parse_spec(tokens_view(tokens@)),
            names_found(tokens_view(tokens@), r),
    {
        let parser = Parser::new(tokens);
        parser.parse()
    }
}

} // verus!
