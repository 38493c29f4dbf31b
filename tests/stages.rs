use jsinterp::ast::{BinaryOperator, Builtin, Expression, Literal, NativeFn, Statement, AST};
use jsinterp::builtins::Builtins;
use jsinterp::scope::Scope;
use jsinterp::semantics::RuntimeError;
use jsinterp::interpreter::Interpreter;
use jsinterp::lexer::{tokenize, LexError, Lexer};
use jsinterp::optim::Optimizer;
use jsinterp::grammar::Expected;
use jsinterp::parser::{ParseError, Parser};
use jsinterp::token::{Symbol, Token};

fn parse(src: &str) -> AST {
    AST::new(tokenize(src).expect("lexes")).expect("parses")
}

fn optimize(ast: AST) -> AST {
    Optimizer::new(ast).optimize()
}

fn num(n: i64) -> Box<Expression> {
    Box::new(Expression::Literal(Literal::Number(n)))
}

#[test]
fn tokens_end_with_end_of_stream() {
    for src in ["", "let x = 1;", "// only a comment", "a += \"s\" ;  @ #", "x\n\t\ty"] {
        let tokens = tokenize(src).expect("lexes");
        assert_eq!(tokens.last(), Some(&Token::Sym(Symbol::EOF)), "source {:?}", src);
    }
}

#[test]
fn lexer_reads_keywords_identifiers_and_operators() {
    let tokens = tokenize("let a1_$ = b2 += 3 == 4 != 5 && !x || y-- ++ % /= %=").unwrap();
    let expected = vec![
        Token::Sym(Symbol::Let),
        Token::Identifier("a1_$".to_string()),
        Token::Sym(Symbol::Equal),
        Token::Identifier("b2".to_string()),
        Token::Sym(Symbol::PlusEqual),
        Token::Number(3),
        Token::Sym(Symbol::EqualEqual),
        Token::Number(4),
        Token::Sym(Symbol::BangEqual),
        Token::Number(5),
        Token::Sym(Symbol::AmpAmp),
        Token::Sym(Symbol::Bang),
        Token::Identifier("x".to_string()),
        Token::Sym(Symbol::PipePipe),
        Token::Identifier("y".to_string()),
        Token::Sym(Symbol::MinusMinus),
        Token::Sym(Symbol::PlusPlus),
        Token::Sym(Symbol::Percent),
        Token::Sym(Symbol::SlashEqual),
        Token::Sym(Symbol::PercentEqual),
        Token::Sym(Symbol::EOF),
    ];
    assert_eq!(tokens, expected);
}

#[test]
fn lexer_reads_strings_and_skips_comments() {
    let tokens = tokenize("\"a b\" // note\nnull undefined").unwrap();
    assert_eq!(
        tokens,
        vec![
            Token::StringLiteral("a b".to_string()),
            Token::Sym(Symbol::Null),
            Token::Sym(Symbol::Undefined),
            Token::Sym(Symbol::EOF),
        ]
    );
}

#[test]
fn identifiers_continue_with_unicode_letters() {
    let tokens = tokenize("aé1 ").unwrap();
    assert_eq!(tokens, vec![Token::Identifier("aé1".to_string()), Token::Sym(Symbol::EOF)]);
}

#[test]
fn lexer_errors() {
    assert_eq!(tokenize("\"open"), Err(LexError::UnterminatedString));
    assert_eq!(tokenize("99999999999999999999"), Err(LexError::MalformedNumber));
    assert_eq!(tokenize("9223372036854775807").unwrap()[0], Token::Number(i64::MAX));
}

#[test]
fn lexer_struct_lexes_from_the_start() {
    let mut lexer = Lexer::new("x;");
    assert_eq!(lexer.peek(), Some('x'));
    assert_eq!(lexer.peek_ahead(1), Some(';'));
    assert_eq!(lexer.peek_ahead(2), None);
    let tokens = lexer.lex().unwrap();
    assert_eq!(tokens, vec![Token::Identifier("x".to_string()), Token::Sym(Symbol::Semicolon), Token::Sym(Symbol::EOF)]);
}

#[test]
fn parser_builds_right_nested_binary_operations() {
    let ast = parse("1 - 2 - 3;");
    let expected = Statement::Expression(Box::new(Expression::BinaryOp {
        left: num(1),
        op: BinaryOperator::Sub,
        right: Box::new(Expression::BinaryOp { left: num(2), op: BinaryOperator::Sub, right: num(3) }),
    }));
    assert_eq!(ast.statements, vec![expected]);
}

#[test]
fn parser_reads_let_without_initializer() {
    let ast = parse("var x;");
    assert_eq!(
        ast.statements,
        vec![Statement::Let { name: "x".to_string(), value: Box::new(Expression::Literal(Literal::Undefined)) }]
    );
}

#[test]
fn parser_struct_parses_tokens() {
    let parser = Parser::new(tokenize("break; continue;").unwrap());
    let ast = parser.parse().unwrap();
    assert_eq!(ast.statements, vec![Statement::Break, Statement::Continue]);
}

#[test]
fn parser_reports_the_offending_token() {
    let err = AST::new(tokenize("if (x { }").unwrap()).unwrap_err();
    assert_eq!(err.position, 3);
    let err = AST::new(tokenize("[1, 2;").unwrap()).unwrap_err();
    assert_eq!(err.position, 4);
}

#[test]
fn optimizer_propagates_then_folds() {
    let ast = optimize(parse("let x = 10; let y = x + 5; console.log(y);"));
    assert_eq!(ast.statements[1], Statement::Let { name: "y".to_string(), value: num(15) });
}

#[test]
fn optimizer_folds_strings_and_unary_operators() {
    let ast = optimize(parse("let s = \"a\" + \"b\"; let n = -(4); let b = !true;"));
    assert_eq!(ast.statements[0], Statement::Let { name: "s".to_string(), value: Box::new(Expression::Literal(Literal::String("ab".to_string()))) });
    assert_eq!(ast.statements[1], Statement::Let { name: "n".to_string(), value: num(-4) });
    assert_eq!(ast.statements[2], Statement::Let { name: "b".to_string(), value: Box::new(Expression::Literal(Literal::Boolean(false))) });
}

#[test]
fn optimizer_folds_nested_operations_bottom_up() {
    let ast = optimize(parse("let z = 1 + 2 + 3;"));
    assert_eq!(ast.statements[0], Statement::Let { name: "z".to_string(), value: num(6) });
}

#[test]
fn optimizer_leaves_division_by_zero() {
    let ast = optimize(parse("let z = 1 / 0;"));
    assert_eq!(
        ast.statements[0],
        Statement::Let { name: "z".to_string(), value: Box::new(Expression::BinaryOp { left: num(1), op: BinaryOperator::Div, right: num(0) }) }
    );
}

#[test]
fn optimizer_drops_reassigned_constants() {
    let ast = optimize(parse("let x = 1; x = 2; let y = x;"));
    assert_eq!(ast.statements[2], Statement::Let { name: "y".to_string(), value: Box::new(Expression::Identifier("x".to_string())) });
}

#[test]
fn optimizing_twice_changes_nothing_more() {
    for src in ["let x = 10; let y = x + 5; console.log(y);", "if (1 < 2) { console.log(-(2 * 3) + \"x\" + \"y\"); }"] {
        let once = optimize(parse(src));
        let twice = optimize(optimize(parse(src)));
        assert_eq!(once.statements, twice.statements, "program {}", src);
    }
}

#[test]
fn scope_depth_is_restored_after_running() {
    let ast = parse("let a = 1; { let b = 2; { let c = 3; } } for (let i = 0; i < 2; i = i + 1) { } function f() { return 1; } f();");
    let mut interpreter = Interpreter::new(ast);
    assert_eq!(interpreter.scope.depth(), 1);
    interpreter.run().unwrap();
    assert_eq!(interpreter.scope.depth(), 1);
}

#[test]
fn interpreter_keeps_printed_lines() {
    let mut interpreter = Interpreter::new(parse("console.log(\"a\"); console.log(2);"));
    interpreter.run().unwrap();
    assert_eq!(interpreter.printed(), vec!["a".to_string(), "2".to_string()]);
}

#[test]
fn builtins_bind_methods_to_receivers() {
    let builtins = Builtins::new();
    let bound = builtins.array_builtin(Literal::Array(0), &"push".to_string()).unwrap();
    assert_eq!(bound, Literal::NativeFunction(NativeFn::new(Builtin::ArrayPush, Some(Box::new(Literal::Array(0))))));
    assert_eq!(builtins.array_builtin(Literal::Array(0), &"shift".to_string()), Err(RuntimeError::Type));
    let split = builtins.string_builtin(Literal::String("a b".to_string()), &"split".to_string()).unwrap();
    assert_eq!(split, Literal::NativeFunction(NativeFn::new(Builtin::StringSplit, Some(Box::new(Literal::String("a b".to_string()))))));
    assert_eq!(builtins.string_builtin(Literal::String("a".to_string()), &"trim".to_string()), Err(RuntimeError::Type));
}

#[test]
fn scope_chain_declares_and_assigns() {
    let mut scope = Scope::new();
    scope.set("x".to_string(), Literal::Number(1));
    scope.enter();
    assert_eq!(scope.depth(), 2);
    assert_eq!(scope.get(&"x".to_string()), Some(Literal::Number(1)));
    assert!(scope.assign("x".to_string(), Literal::Number(2)));
    scope.set("y".to_string(), Literal::Boolean(true));
    scope.exit();
    assert_eq!(scope.get(&"x".to_string()), Some(Literal::Number(2)));
    assert_eq!(scope.get(&"y".to_string()), None);
    assert!(!scope.assign("y".to_string(), Literal::Null));
}

fn parse_error(src: &str) -> ParseError {
    AST::new(tokenize(src).expect("lexes")).expect_err("should not parse")
}

#[test]
fn parse_errors_name_expected_and_found_tokens() {
    assert_eq!(parse_error("let 5 = 1;"), ParseError { position: 1, expected: Expected::Identifier, found: Token::Number(5) });
    assert_eq!(parse_error("(1;"), ParseError { position: 2, expected: Expected::Sym(Symbol::RightParen), found: Token::Sym(Symbol::Semicolon) });
    assert_eq!(parse_error("let x = 1"), ParseError { position: 4, expected: Expected::Sym(Symbol::Semicolon), found: Token::Sym(Symbol::EOF) });
    assert_eq!(parse_error("function (a) {}"), ParseError { position: 1, expected: Expected::Identifier, found: Token::Sym(Symbol::LeftParen) });
    assert_eq!(parse_error("x = ;"), ParseError { position: 2, expected: Expected::Expression, found: Token::Sym(Symbol::Semicolon) });
}

#[test]
fn parse_errors_in_object_literals() {
    assert_eq!(parse_error("let o = {1: 2};"), ParseError { position: 4, expected: Expected::Key, found: Token::Number(1) });
    assert_eq!(parse_error("let o = {a 2};"), ParseError { position: 5, expected: Expected::Sym(Symbol::Colon), found: Token::Number(2) });
}

#[test]
fn optimizer_keeps_shadowed_names() {
    let ast = optimize(parse("let x = 1; { let x = 2; let y = x; }"));
    assert_eq!(
        ast.statements[1],
        Statement::Scope {
            statements: vec![
                Statement::Let { name: "x".to_string(), value: num(2) },
                Statement::Let { name: "y".to_string(), value: Box::new(Expression::Identifier("x".to_string())) },
            ]
        }
    );
}
