//! The grammar of the language, as a recursive-descent parse over the
//! mathematical values of tokens. Each function takes the position of the
//! next token and gives what it parsed with the position after it, or the
//! position of the token it could not accept.
//!
//! Binary operators are right-associative with no precedence: an operator
//! takes the whole expression after it as its right operand.
use vstd::prelude::*;
use crate::token::{Symbol, TokenView};
use crate::ast::{BinaryOperator, ExprView, LitView, StmtView, UnaryOperator};

verus! {

/// What the parser wanted where it stopped.
#[derive(Debug, Clone, Copy, PartialEq, Eq, Structural)]
pub enum Expected {
    /// This punctuation or keyword.
    Sym(Symbol),
    /// The start of an expression.
    Expression,
    /// A name.
    Identifier,
    /// A property name: a name or a string literal.
    Key,
}

/// Where the parser stopped, and what it wanted there.
pub type Failure = (int, Expected);

/// The token at `p`; past the end every position reads as the end of the stream.
pub open spec fn tok(ts: Seq<TokenView>, p: int) -> TokenView {
    if 0 <= p < ts.len() {
        ts[p]
    } else {
        TokenView::Sym(Symbol::EOF)
    }
}

/// How many tokens are left from `p` on.
pub open spec fn left(ts: Seq<TokenView>, p: int) -> nat {
    if p < ts.len() {
        (ts.len() - p) as nat
    } else {
        0
    }
}

pub open spec fn at_sym(ts: Seq<TokenView>, p: int, s: Symbol) -> bool {
    tok(ts, p) == TokenView::Sym(s)
}

pub open spec fn infix_op(t: TokenView) -> Option<BinaryOperator> {
    match t {
        TokenView::Sym(Symbol::Plus) => Some(BinaryOperator::Add),
        TokenView::Sym(Symbol::Minus) => Some(BinaryOperator::Sub),
        TokenView::Sym(Symbol::Star) => Some(BinaryOperator::Mul),
        TokenView::Sym(Symbol::Slash) => Some(BinaryOperator::Div),
        TokenView::Sym(Symbol::Percent) => Some(BinaryOperator::Mod),
        TokenView::Sym(Symbol::AmpAmp) => Some(BinaryOperator::BinaryAnd),
        TokenView::Sym(Symbol::PipePipe) => Some(BinaryOperator::BinaryOr),
        TokenView::Sym(Symbol::EqualEqual) => Some(BinaryOperator::Equal),
        TokenView::Sym(Symbol::BangEqual) => Some(BinaryOperator::NotEqual),
        TokenView::Sym(Symbol::Greater) => Some(BinaryOperator::GreaterThan),
        TokenView::Sym(Symbol::GreaterEqual) => Some(BinaryOperator::GreaterThanOrEqual),
        TokenView::Sym(Symbol::Less) => Some(BinaryOperator::LessThan),
        TokenView::Sym(Symbol::LessEqual) => Some(BinaryOperator::LessThanOrEqual),
        TokenView::Sym(Symbol::PlusEqual) => Some(BinaryOperator::PlusEqual),
        TokenView::Sym(Symbol::MinusEqual) => Some(BinaryOperator::MinusEqual),
        TokenView::Sym(Symbol::StarEqual) => Some(BinaryOperator::MulEqual),
        TokenView::Sym(Symbol::SlashEqual) => Some(BinaryOperator::DivEqual),
        TokenView::Sym(Symbol::PercentEqual) => Some(BinaryOperator::ModEqual),
        _ => None,
    }
}

pub open spec fn undefined_expr() -> ExprView {
    ExprView::Literal(LitView::Undefined)
}

// In the functions below, a branch that would step back to a position at or
// before the one it started from is reported as an error there. Parsing only
// moves forward, so that branch is never taken; it keeps each definition total.

/// An expression: a prefix, then postfixes, then an assignment or a chain of
/// infix operators.
pub open spec fn parse_expression(ts: Seq<TokenView>, p: int) -> Result<(ExprView, int), Failure>
    decreases left(ts, p), 3int,
{
    if p < 0 || p >= ts.len() {
        Err((p, Expected::Expression))
    } else {
        match parse_prefix(ts, p) {
            Err(x) => Err(x),
            Ok((e, q)) => if q <= p {
                Err((p, Expected::Expression))
            } else {
                match parse_postfix(ts, q, e) {
                    Err(x) => Err(x),
                    Ok((e2, q2)) => if q2 <= p {
                        Err((p, Expected::Expression))
                    } else {
                        parse_tail(ts, q2, e2)
                    },
                }
            },
        }
    }
}

pub open spec fn parse_prefix(ts: Seq<TokenView>, p: int) -> Result<(ExprView, int), Failure>
    decreases left(ts, p), 2int,
{
    if p < 0 || p >= ts.len() {
        Err((p, Expected::Expression))
    } else {
        match ts[p] {
            TokenView::Number(n) => Ok((ExprView::Literal(LitView::Number(n)), p + 1)),
            TokenView::StringLiteral(s) => Ok((ExprView::Literal(LitView::String(s)), p + 1)),
            TokenView::Identifier(s) => Ok((ExprView::Identifier(s), p + 1)),
            TokenView::Sym(Symbol::True) => Ok((ExprView::Literal(LitView::Boolean(true)), p + 1)),
            TokenView::Sym(Symbol::False) => Ok((ExprView::Literal(LitView::Boolean(false)), p + 1)),
            TokenView::Sym(Symbol::Null) => Ok((ExprView::Literal(LitView::Null), p + 1)),
            TokenView::Sym(Symbol::Undefined) => Ok((undefined_expr(), p + 1)),
            TokenView::Sym(Symbol::LeftParen) => match parse_expression(ts, p + 1) {
                Err(x) => Err(x),
                Ok((e, q)) => if at_sym(ts, q, Symbol::RightParen) {
                    Ok((e, q + 1))
                } else {
                    Err((q, Expected::Sym(Symbol::RightParen)))
                },
            },
            TokenView::Sym(Symbol::LeftBracket) => match parse_list(ts, p + 1, Symbol::RightBracket) {
                Err(x) => Err(x),
                Ok((es, q)) => Ok((ExprView::Array(es), q)),
            },
            TokenView::Sym(Symbol::LeftBrace) => match parse_object(ts, p + 1) {
                Err(x) => Err(x),
                Ok((ps, q)) => Ok((ExprView::Object(ps), q)),
            },
            TokenView::Sym(Symbol::Minus) => match parse_expression(ts, p + 1) {
                Err(x) => Err(x),
                Ok((e, q)) => Ok((ExprView::UnaryOp(UnaryOperator::Negate, Box::new(e)), q)),
            },
            TokenView::Sym(Symbol::Bang) => match parse_expression(ts, p + 1) {
                Err(x) => Err(x),
                Ok((e, q)) => Ok((ExprView::UnaryOp(UnaryOperator::Not, Box::new(e)), q)),
            },
            _ => Err((p, Expected::Expression)),
        }
    }
}

/// A comma-separated list of expressions closed by `close`, after its opening token.
pub open spec fn parse_list(ts: Seq<TokenView>, p: int, close: Symbol) -> Result<
    (Seq<ExprView>, int),
    Failure,
>
    decreases left(ts, p), 5int,
{
    if at_sym(ts, p, close) {
        Ok((Seq::empty(), p + 1))
    } else {
        parse_items(ts, p, close, Seq::empty())
    }
}

pub open spec fn parse_items(
    ts: Seq<TokenView>,
    p: int,
    close: Symbol,
    acc: Seq<ExprView>,
) -> Result<(Seq<ExprView>, int), Failure>
    decreases left(ts, p), 4int,
{
    if p < 0 || p >= ts.len() {
        Err((p, Expected::Expression))
    } else {
        match parse_expression(ts, p) {
            Err(x) => Err(x),
            Ok((e, q)) => if q <= p {
                Err((p, Expected::Expression))
            } else if at_sym(ts, q, close) {
                Ok((acc.push(e), q + 1))
            } else if at_sym(ts, q, Symbol::Comma) {
                parse_items(ts, q + 1, close, acc.push(e))
            } else {
                Err((q, Expected::Sym(close)))
            },
        }
    }
}

/// The properties of an object literal, after its `{`.
pub open spec fn parse_object(ts: Seq<TokenView>, p: int) -> Result<
    (Seq<(Seq<char>, ExprView)>, int),
    Failure,
>
    decreases left(ts, p), 5int,
{
    if at_sym(ts, p, Symbol::RightBrace) {
        Ok((Seq::empty(), p + 1))
    } else {
        parse_props(ts, p, Seq::empty())
    }
}

pub open spec fn parse_props(
    ts: Seq<TokenView>,
    p: int,
    acc: Seq<(Seq<char>, ExprView)>,
) -> Result<(Seq<(Seq<char>, ExprView)>, int), Failure>
    decreases left(ts, p), 4int,
{
    if p < 0 || p >= ts.len() {
        Err((p, Expected::Key))
    } else {
        let key = match ts[p] {
            TokenView::StringLiteral(s) => Some(s),
            TokenView::Identifier(s) => Some(s),
            _ => None,
        };
        match key {
            None => Err((p, Expected::Key)),
            Some(k) => if !at_sym(ts, p + 1, Symbol::Colon) {
                Err((p + 1, Expected::Sym(Symbol::Colon)))
            } else {
                match parse_expression(ts, p + 2) {
                    Err(x) => Err(x),
                    Ok((v, q)) => if q <= p {
                        Err((p, Expected::Expression))
                    } else if at_sym(ts, q, Symbol::RightBrace) {
                        Ok((acc.push((k, v)), q + 1))
                    } else if at_sym(ts, q, Symbol::Comma) {
                        parse_props(ts, q + 1, acc.push((k, v)))
                    } else {
                        Err((q, Expected::Sym(Symbol::RightBrace)))
                    },
                }
            },
        }
    }
}

/// Index, property, call, increment and decrement suffixes, as many as follow.
pub open spec fn parse_postfix(ts: Seq<TokenView>, p: int, e: ExprView) -> Result<
    (ExprView, int),
    Failure,
>
    decreases left(ts, p), 1int,
{
    if p < 0 || p >= ts.len() {
        Ok((e, p))
    } else {
        match ts[p] {
            TokenView::Sym(Symbol::LeftBracket) => match parse_expression(ts, p + 1) {
                Err(x) => Err(x),
                Ok((i, q)) => if q <= p {
                    Err((p, Expected::Expression))
                } else if at_sym(ts, q, Symbol::RightBracket) {
                    parse_postfix(ts, q + 1, ExprView::Index(Box::new(e), Box::new(i)))
                } else {
                    Err((q, Expected::Sym(Symbol::RightBracket)))
                },
            },
            TokenView::Sym(Symbol::Dot) => match tok(ts, p + 1) {
                TokenView::Identifier(n) => parse_postfix(
                    ts,
                    p + 2,
                    ExprView::Property(Box::new(e), n),
                ),
                _ => Err((p + 1, Expected::Identifier)),
            },
            TokenView::Sym(Symbol::LeftParen) => match parse_list(ts, p + 1, Symbol::RightParen) {
                Err(x) => Err(x),
                Ok((args, q)) => if q <= p {
                    Err((p, Expected::Expression))
                } else {
                    parse_postfix(ts, q, ExprView::FunctionCall(Box::new(e), args))
                },
            },
            TokenView::Sym(Symbol::PlusPlus) => parse_postfix(
                ts,
                p + 1,
                ExprView::Increment(Box::new(e)),
            ),
            TokenView::Sym(Symbol::MinusMinus) => parse_postfix(
                ts,
                p + 1,
                ExprView::Decrement(Box::new(e)),
            ),
            _ => Ok((e, p)),
        }
    }
}

/// After the postfixes: `= value`, or a chain of infix operators.
pub open spec fn parse_tail(ts: Seq<TokenView>, p: int, e: ExprView) -> Result<(ExprView, int), Failure>
    decreases left(ts, p), 1int,
{
    if p < 0 || p >= ts.len() {
        Ok((e, p))
    } else if at_sym(ts, p, Symbol::Equal) {
        match parse_expression(ts, p + 1) {
            Err(x) => Err(x),
            Ok((v, q)) => Ok((ExprView::Assignment(Box::new(e), Box::new(v)), q)),
        }
    } else {
        parse_infix(ts, p, e)
    }
}

pub open spec fn parse_infix(ts: Seq<TokenView>, p: int, e: ExprView) -> Result<(ExprView, int), Failure>
    decreases left(ts, p), 0int,
{
    if p < 0 || p >= ts.len() {
        Ok((e, p))
    } else {
        match infix_op(ts[p]) {
            None => Ok((e, p)),
            Some(op) => match parse_expression(ts, p + 1) {
                Err(x) => Err(x),
                Ok((r, q)) => if q <= p {
                    Err((p, Expected::Expression))
                } else {
                    parse_infix(ts, q, ExprView::BinaryOp(Box::new(e), op, Box::new(r)))
                },
            },
        }
    }
}

/// The parameter names of a function, after its `(`.
pub open spec fn parse_params(ts: Seq<TokenView>, p: int) -> Result<(Seq<Seq<char>>, int), Failure> {
    if at_sym(ts, p, Symbol::RightParen) {
        Ok((Seq::empty(), p + 1))
    } else {
        parse_param_items(ts, p, Seq::empty())
    }
}

pub open spec fn parse_param_items(ts: Seq<TokenView>, p: int, acc: Seq<Seq<char>>) -> Result<
    (Seq<Seq<char>>, int),
    Failure,
>
    decreases left(ts, p),
{
    if p < 0 || p >= ts.len() {
        Err((p, Expected::Identifier))
    } else {
        match ts[p] {
            TokenView::Identifier(n) => if at_sym(ts, p + 1, Symbol::RightParen) {
                Ok((acc.push(n), p + 2))
            } else if at_sym(ts, p + 1, Symbol::Comma) {
                parse_param_items(ts, p + 2, acc.push(n))
            } else {
                Err((p + 1, Expected::Sym(Symbol::RightParen)))
            },
            _ => Err((p, Expected::Identifier)),
        }
    }
}

/// The statements of a block up to its `}`, after its `{`.
pub open spec fn parse_block(ts: Seq<TokenView>, p: int, acc: Seq<StmtView>) -> Result<
    (Seq<StmtView>, int),
    Failure,
>
    decreases left(ts, p), 7int,
{
    if p < 0 || p >= ts.len() || at_sym(ts, p, Symbol::EOF) {
        Err((p, Expected::Sym(Symbol::RightBrace)))
    } else if at_sym(ts, p, Symbol::RightBrace) {
        Ok((acc, p + 1))
    } else {
        match parse_statement(ts, p) {
            Err(x) => Err(x),
            Ok((s, q)) => if q <= p {
                Err((p, Expected::Expression))
            } else {
                parse_block(ts, q, acc.push(s))
            },
        }
    }
}

/// `expr ;`, with the position after the `;`.
pub open spec fn parse_expr_semi(ts: Seq<TokenView>, p: int) -> Result<(ExprView, int), Failure>
    decreases left(ts, p), 4int,
{
    match parse_expression(ts, p) {
        Err(x) => Err(x),
        Ok((e, q)) => if at_sym(ts, q, Symbol::Semicolon) {
            Ok((e, q + 1))
        } else {
            Err((q, Expected::Sym(Symbol::Semicolon)))
        },
    }
}

/// `( cond ) body` of `if` and `while`, after the keyword.
pub open spec fn parse_guarded(ts: Seq<TokenView>, p: int) -> Result<(ExprView, StmtView, int), Failure>
    decreases left(ts, p), 5int,
{
    if p < 0 || p >= ts.len() {
        Err((p, Expected::Sym(Symbol::LeftParen)))
    } else if !at_sym(ts, p, Symbol::LeftParen) {
        Err((p, Expected::Sym(Symbol::LeftParen)))
    } else {
        match parse_expression(ts, p + 1) {
            Err(x) => Err(x),
            Ok((c, q)) => if q <= p {
                Err((p, Expected::Expression))
            } else if !at_sym(ts, q, Symbol::RightParen) {
                Err((q, Expected::Sym(Symbol::RightParen)))
            } else {
                match parse_statement(ts, q + 1) {
                    Err(x) => Err(x),
                    Ok((s, q1)) => Ok((c, s, q1)),
                }
            },
        }
    }
}

/// `for ( [init] ; [cond] ; [update] ) body`, after `for (`.
pub open spec fn parse_for(ts: Seq<TokenView>, p: int) -> Result<(StmtView, int), Failure>
    decreases left(ts, p), 7int,
{
    if p < 0 || p >= ts.len() {
        Err((p, Expected::Expression))
    } else {
        let init: Result<(Option<Box<StmtView>>, int), Failure> = if at_sym(ts, p, Symbol::Semicolon) {
            Ok((None, p + 1))
        } else {
            match parse_statement(ts, p) {
                Err(x) => Err(x),
                Ok((s, q)) => Ok((Some(Box::new(s)), q)),
            }
        };
        match init {
            Err(x) => Err(x),
            Ok((init, q0)) => if q0 <= p {
                Err((p, Expected::Expression))
            } else {
                let cond: Result<(Option<ExprView>, int), Failure> = if at_sym(ts, q0, Symbol::Semicolon) {
                    Ok((None, q0 + 1))
                } else {
                    match parse_expr_semi(ts, q0) {
                        Err(x) => Err(x),
                        Ok((c, q)) => Ok((Some(c), q)),
                    }
                };
                match cond {
                    Err(x) => Err(x),
                    Ok((cond, q1)) => if q1 <= p {
                        Err((p, Expected::Expression))
                    } else {
                        let update: Result<(Option<ExprView>, int), Failure> = if at_sym(
                            ts,
                            q1,
                            Symbol::RightParen,
                        ) {
                            Ok((None, q1))
                        } else {
                            match parse_expression(ts, q1) {
                                Err(x) => Err(x),
                                Ok((u, q)) => Ok((Some(u), q)),
                            }
                        };
                        match update {
                            Err(x) => Err(x),
                            Ok((update, q2)) => if q2 <= p {
                                Err((p, Expected::Expression))
                            } else if !at_sym(ts, q2, Symbol::RightParen) {
                                Err((q2, Expected::Sym(Symbol::RightParen)))
                            } else {
                                match parse_statement(ts, q2 + 1) {
                                    Err(x) => Err(x),
                                    Ok((body, q3)) => Ok(
                                        (StmtView::For(init, cond, update, Box::new(body)), q3),
                                    ),
                                }
                            },
                        }
                    },
                }
            },
        }
    }
}

/// One statement, chosen by its first token.
pub open spec fn parse_statement(ts: Seq<TokenView>, p: int) -> Result<(StmtView, int), Failure>
    decreases left(ts, p), 6int,
{
    if p < 0 || p >= ts.len() {
        Err((p, Expected::Expression))
    } else {
        match ts[p] {
            TokenView::Sym(Symbol::Return) => if at_sym(ts, p + 1, Symbol::Semicolon) {
                Ok((StmtView::Return(undefined_expr()), p + 2))
            } else {
                match parse_expr_semi(ts, p + 1) {
                    Err(x) => Err(x),
                    Ok((e, q)) => Ok((StmtView::Return(e), q)),
                }
            },
            TokenView::Sym(Symbol::If) => match parse_guarded(ts, p + 1) {
                Err(x) => Err(x),
                Ok((c, s, q)) => if q <= p {
                    Err((p, Expected::Expression))
                } else if at_sym(ts, q, Symbol::Else) {
                    match parse_statement(ts, q + 1) {
                        Err(x) => Err(x),
                        Ok((a, q1)) => Ok((StmtView::If(c, Box::new(s), Some(Box::new(a))), q1)),
                    }
                } else {
                    Ok((StmtView::If(c, Box::new(s), None), q))
                },
            },
            TokenView::Sym(Symbol::Let) | TokenView::Sym(Symbol::Var) => match tok(ts, p + 1) {
                TokenView::Identifier(n) => if at_sym(ts, p + 2, Symbol::Semicolon) {
                    Ok((StmtView::Let(n, undefined_expr()), p + 3))
                } else if !at_sym(ts, p + 2, Symbol::Equal) {
                    Err((p + 2, Expected::Sym(Symbol::Equal)))
                } else {
                    match parse_expr_semi(ts, p + 3) {
                        Err(x) => Err(x),
                        Ok((v, q)) => Ok((StmtView::Let(n, v), q)),
                    }
                },
                _ => Err((p + 1, Expected::Identifier)),
            },
            TokenView::Sym(Symbol::While) => match parse_guarded(ts, p + 1) {
                Err(x) => Err(x),
                Ok((c, s, q)) => Ok((StmtView::While(c, Box::new(s)), q)),
            },
            TokenView::Sym(Symbol::For) => if !at_sym(ts, p + 1, Symbol::LeftParen) {
                Err((p + 1, Expected::Sym(Symbol::LeftParen)))
            } else {
                parse_for(ts, p + 2)
            },
            TokenView::Sym(Symbol::Function) => match tok(ts, p + 1) {
                TokenView::Identifier(n) => if !at_sym(ts, p + 2, Symbol::LeftParen) {
                    Err((p + 2, Expected::Sym(Symbol::LeftParen)))
                } else {
                    match parse_params(ts, p + 3) {
                        Err(x) => Err(x),
                        Ok((params, q)) => if q <= p {
                            Err((p, Expected::Expression))
                        } else if !at_sym(ts, q, Symbol::LeftBrace) {
                            Err((q, Expected::Sym(Symbol::LeftBrace)))
                        } else {
                            match parse_block(ts, q + 1, Seq::empty()) {
                                Err(x) => Err(x),
                                Ok((body, q1)) => Ok(
                                    (
                                        StmtView::Function(
                                            n,
                                            params,
                                            Box::new(StmtView::Scope(body)),
                                        ),
                                        q1,
                                    ),
                                ),
                            }
                        },
                    }
                },
                _ => Err((p + 1, Expected::Identifier)),
            },
            TokenView::Sym(Symbol::Break) => if at_sym(ts, p + 1, Symbol::Semicolon) {
                Ok((StmtView::Break, p + 2))
            } else {
                Err((p + 1, Expected::Sym(Symbol::Semicolon)))
            },
            TokenView::Sym(Symbol::Continue) => if at_sym(ts, p + 1, Symbol::Semicolon) {
                Ok((StmtView::Continue, p + 2))
            } else {
                Err((p + 1, Expected::Sym(Symbol::Semicolon)))
            },
            TokenView::Sym(Symbol::LeftBrace) => match parse_block(ts, p + 1, Seq::empty()) {
                Err(x) => Err(x),
                Ok((ss, q)) => Ok((StmtView::Scope(ss), q)),
            },
            _ => match parse_expr_semi(ts, p) {
                Err(x) => Err(x),
                Ok((e, q)) => Ok((StmtView::Expression(e), q)),
            },
        }
    }
}

/// The statements of a program, until the end of the stream.
pub open spec fn parse_program(ts: Seq<TokenView>, p: int, acc: Seq<StmtView>) -> Result<
    Seq<StmtView>,
    Failure,
>
    decreases left(ts, p),
{
    if p < 0 || p >= ts.len() || at_sym(ts, p, Symbol::EOF) {
        Ok(acc)
    } else {
        match parse_statement(ts, p) {
            Err(x) => Err(x),
            Ok((s, q)) => if q <= p {
                Err((p, Expected::Expression))
            } else {
                parse_program(ts, q, acc.push(s))
            },
        }
    }
}

/// The AST of a whole token sequence.
pub open spec fn parse_spec(ts: Seq<TokenView>) -> Result<Seq<StmtView>, Failure> {
    parse_program(ts, 0, Seq::empty())
}

} // verus!
