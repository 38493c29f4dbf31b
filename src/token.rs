use vstd::prelude::*;

verus! {

/// Every token that carries no text: keywords, punctuation, operators and
/// the end of the stream.
#[derive(Debug, Clone, Copy, PartialEq, Eq, Structural)]
pub enum Symbol {
    Null,
    Undefined,
    // Keywords
    Let,
    Var,
    If,
    Else,
    While,
    For,
    Do,
    Continue,
    Break,
    Return,
    Function,
    True,
    False,
    // Punctuation
    LeftParen,
    RightParen,
    LeftBrace,
    RightBrace,
    LeftBracket,
    RightBracket,
    Comma,
    Dot,
    Colon,
    Semicolon,
    // Operators
    Slash,
    Plus,
    Minus,
    Star,
    Percent,
    PercentEqual,
    SlashEqual,
    PlusEqual,
    MinusEqual,
    StarEqual,
    Bang,
    BangEqual,
    Equal,
    EqualEqual,
    Greater,
    GreaterEqual,
    Less,
    LessEqual,
    AmpAmp,
    PipePipe,
    PlusPlus,
    MinusMinus,
    EOF,
}

#[derive(Debug, Clone, PartialEq)]
pub enum Token {
    Identifier(String),
    StringLiteral(String),
    Number(i64),
    Sym(Symbol),
}

/// The mathematical value of a token: text as a sequence of characters.
pub enum TokenView {
    Identifier(Seq<char>),
    StringLiteral(Seq<char>),
    Number(i64),
    Sym(Symbol),
}

impl View for Token {
    type V = TokenView;

    open spec fn view(&self) -> TokenView {
        match self {
            Token::Identifier(s) => TokenView::Identifier(s@),
            Token::StringLiteral(s) => TokenView::StringLiteral(s@),
            Token::Number(n) => TokenView::Number(*n),
            Token::Sym(s) => TokenView::Sym(*s),
        }
    }
}

pub open spec fn tokens_view(ts: Seq<Token>) -> Seq<TokenView> {
    ts.map_values(|t: Token| t@)
}

impl Token {
    pub fn is_sym(&self, s: Symbol) -> (r: bool)
        ensures
            r == (self@ == TokenView::Sym(s)),
    {
        match self {
            Token::Sym(t) => *t == s,
            _ => false,
        }
    }
}

} // verus!
