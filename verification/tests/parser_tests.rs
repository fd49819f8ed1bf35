use plainlang::{
    BinaryOperation, BinaryOperator, Expression, FunctionDef, LetStatement, ParseError, Parser,
    Program, ShowStatement, Statement, Token, TokenKind, WhenStatement,
};

fn ident(s: &str) -> Token {
    Token::Identifier(s.to_string())
}

fn binop(left: Expression, operator: BinaryOperator, right: Expression) -> Expression {
    Expression::BinaryOp(BinaryOperation {
        left: Box::new(left),
        operator,
        right: Box::new(right),
    })
}

fn num(n: i64) -> Expression {
    Expression::Number(n)
}

fn parse(tokens: Vec<Token>) -> Result<Program, ParseError> {
    Parser::new(tokens).parse()
}

#[test]
fn empty_stream_parses_to_empty_program() {
    assert_eq!(parse(vec![]), Ok(Program { statements: vec![] }));
    assert_eq!(parse(vec![Token::Eof]), Ok(Program { statements: vec![] }));
}

#[test]
fn blank_lines_only_parse_to_empty_program() {
    let tokens = vec![Token::Newline, Token::Newline, Token::Eof];
    assert_eq!(parse(tokens), Ok(Program { statements: vec![] }));
}

#[test]
fn let_binding_builds_binary_value() {
    let tokens = vec![
        Token::Let,
        ident("x"),
        Token::Be,
        Token::Number(1),
        Token::Plus,
        Token::Number(2),
        Token::Eof,
    ];
    let expected = Program {
        statements: vec![Statement::Let(LetStatement {
            identifier: "x".to_string(),
            value: binop(num(1), BinaryOperator::Add, num(2)),
        })],
    };
    assert_eq!(parse(tokens), Ok(expected));
}

#[test]
fn subtraction_chain_folds_left() {
    let tokens = vec![
        Token::Number(1),
        Token::Minus,
        Token::Number(2),
        Token::Minus,
        Token::Number(3),
        Token::Eof,
    ];
    let expected = Program {
        statements: vec![Statement::Expression(binop(
            binop(num(1), BinaryOperator::Subtract, num(2)),
            BinaryOperator::Subtract,
            num(3),
        ))],
    };
    assert_eq!(parse(tokens), Ok(expected));
}

#[test]
fn division_chain_folds_left() {
    let tokens = vec![
        Token::Number(100),
        Token::Divide,
        Token::Number(10),
        Token::Divide,
        Token::Number(2),
        Token::Eof,
    ];
    let expected = Program {
        statements: vec![Statement::Expression(binop(
            binop(num(100), BinaryOperator::Divide, num(10)),
            BinaryOperator::Divide,
            num(2),
        ))],
    };
    assert_eq!(parse(tokens), Ok(expected));
}

#[test]
fn comparison_chain_folds_left_and_flat() {
    let tokens = vec![
        Token::Number(1),
        Token::IsLessThan,
        Token::Number(2),
        Token::IsLessThan,
        Token::Number(3),
        Token::Eof,
    ];
    let expected = Program {
        statements: vec![Statement::Expression(binop(
            binop(num(1), BinaryOperator::LessThan, num(2)),
            BinaryOperator::LessThan,
            num(3),
        ))],
    };
    assert_eq!(parse(tokens), Ok(expected));
}

#[test]
fn multiplication_binds_tighter_than_addition() {
    let tokens = vec![
        Token::Number(1),
        Token::Plus,
        Token::Number(2),
        Token::Multiply,
        Token::Number(3),
        Token::Eof,
    ];
    let expected = Program {
        statements: vec![Statement::Expression(binop(
            num(1),
            BinaryOperator::Add,
            binop(num(2), BinaryOperator::Multiply, num(3)),
        ))],
    };
    assert_eq!(parse(tokens), Ok(expected));
}

#[test]
fn every_arithmetic_operator_maps_to_its_node() {
    let cases = vec![
        (Token::Plus, BinaryOperator::Add),
        (Token::Minus, BinaryOperator::Subtract),
        (Token::Multiply, BinaryOperator::Multiply),
        (Token::Divide, BinaryOperator::Divide),
    ];
    for (tok, op) in cases {
        let tokens = vec![Token::Number(6), tok, Token::Number(3), Token::Eof];
        let expected = Program {
            statements: vec![Statement::Expression(binop(num(6), op, num(3)))],
        };
        assert_eq!(parse(tokens), Ok(expected));
    }
}

#[test]
fn every_comparison_operator_maps_to_its_node() {
    let cases = vec![
        (Token::IsGreaterThan, BinaryOperator::GreaterThan),
        (Token::IsLessThan, BinaryOperator::LessThan),
        (Token::IsGreaterThanOrEqual, BinaryOperator::GreaterThanOrEqual),
        (Token::IsLessThanOrEqual, BinaryOperator::LessThanOrEqual),
        (Token::IsEqual, BinaryOperator::Equal),
        (Token::IsNotEqual, BinaryOperator::NotEqual),
    ];
    for (tok, op) in cases {
        let tokens = vec![Token::Number(6), tok, Token::Number(3), Token::Eof];
        let expected = Program {
            statements: vec![Statement::Expression(binop(num(6), op, num(3)))],
        };
        assert_eq!(parse(tokens), Ok(expected));
    }
}

#[test]
fn string_literal_and_identifier_are_primaries() {
    let tokens = vec![
        Token::Show,
        Token::StringLit("hello".to_string()),
        Token::Newline,
        Token::Show,
        ident("x"),
        Token::Eof,
    ];
    let expected = Program {
        statements: vec![
            Statement::Show(ShowStatement {
                value: Expression::StringLit("hello".to_string()),
            }),
            Statement::Show(ShowStatement {
                value: Expression::Identifier("x".to_string()),
            }),
        ],
    };
    assert_eq!(parse(tokens), Ok(expected));
}

#[test]
fn when_without_otherwise_yields_none() {
    let tokens = vec![
        Token::When,
        ident("x"),
        Token::IsGreaterThan,
        Token::Number(5),
        Token::Then,
        Token::Newline,
        Token::Indent,
        Token::Show,
        Token::Number(1),
        Token::Newline,
        Token::Dedent,
        Token::Eof,
    ];
    let expected = Program {
        statements: vec![Statement::When(WhenStatement {
            condition: binop(
                Expression::Identifier("x".to_string()),
                BinaryOperator::GreaterThan,
                num(5),
            ),
            then_block: vec![Statement::Show(ShowStatement { value: num(1) })],
            otherwise_block: None,
        })],
    };
    assert_eq!(parse(tokens), Ok(expected));
}

#[test]
fn when_with_bare_otherwise_yields_present_empty_block() {
    let tokens = vec![
        Token::When,
        Token::Number(1),
        Token::Then,
        Token::Newline,
        Token::Indent,
        Token::Show,
        Token::Number(1),
        Token::Newline,
        Token::Dedent,
        Token::Otherwise,
        Token::Eof,
    ];
    let expected = Program {
        statements: vec![Statement::When(WhenStatement {
            condition: num(1),
            then_block: vec![Statement::Show(ShowStatement { value: num(1) })],
            otherwise_block: Some(vec![]),
        })],
    };
    assert_eq!(parse(tokens), Ok(expected));
}

#[test]
fn then_block_does_not_swallow_otherwise_without_dedent() {
    let tokens = vec![
        Token::When,
        Token::Number(1),
        Token::Then,
        Token::Newline,
        Token::Indent,
        Token::Show,
        Token::Number(1),
        Token::Newline,
        Token::Otherwise,
        Token::Newline,
        Token::Indent,
        Token::Show,
        Token::Number(2),
        Token::Newline,
        Token::Dedent,
        Token::Eof,
    ];
    let expected = Program {
        statements: vec![Statement::When(WhenStatement {
            condition: num(1),
            then_block: vec![Statement::Show(ShowStatement { value: num(1) })],
            otherwise_block: Some(vec![Statement::Show(ShowStatement { value: num(2) })]),
        })],
    };
    assert_eq!(parse(tokens), Ok(expected));
}

#[test]
fn define_with_end_and_with_dedent_alone_parse_identically() {
    let with_end = vec![
        Token::Define,
        ident("f"),
        Token::With,
        ident("a"),
        ident("b"),
        Token::Newline,
        Token::Indent,
        Token::Show,
        ident("a"),
        Token::Newline,
        Token::Dedent,
        Token::End,
        Token::Eof,
    ];
    let dedent_only = vec![
        Token::Define,
        ident("f"),
        Token::With,
        ident("a"),
        ident("b"),
        Token::Newline,
        Token::Indent,
        Token::Show,
        ident("a"),
        Token::Newline,
        Token::Dedent,
        Token::Eof,
    ];
    let first = parse(with_end);
    let second = parse(dedent_only);
    let expected = Program {
        statements: vec![Statement::FunctionDef(FunctionDef {
            name: "f".to_string(),
            parameters: vec!["a".to_string(), "b".to_string()],
            body: vec![Statement::Show(ShowStatement {
                value: Expression::Identifier("a".to_string()),
            })],
        })],
    };
    assert_eq!(first, Ok(expected));
    assert_eq!(first, second);
}

#[test]
fn define_without_body_collects_parameters() {
    let tokens = vec![
        Token::Define,
        ident("f"),
        Token::With,
        ident("a"),
        ident("b"),
        ident("c"),
        Token::Eof,
    ];
    let expected = Program {
        statements: vec![Statement::FunctionDef(FunctionDef {
            name: "f".to_string(),
            parameters: vec!["a".to_string(), "b".to_string(), "c".to_string()],
            body: vec![],
        })],
    };
    assert_eq!(parse(tokens), Ok(expected));
}

#[test]
fn let_missing_identifier_fails_without_panicking() {
    let tokens = vec![Token::Let, Token::Be, Token::Number(5), Token::Eof];
    assert_eq!(parse(tokens), Err(ParseError::ExpectedIdentifierAfterLet));
    // The same shape cut off right after `let`: the synthesized end-of-input
    // stands where the identifier was demanded.
    assert_eq!(
        parse(vec![Token::Let]),
        Err(ParseError::ExpectedIdentifierAfterLet)
    );
}

#[test]
fn let_missing_be_names_expected_and_found_kinds() {
    let tokens = vec![Token::Let, ident("x"), Token::Number(5), Token::Eof];
    assert_eq!(
        parse(tokens),
        Err(ParseError::Expected {
            expected: TokenKind::Be,
            found: TokenKind::Number,
        })
    );
}

#[test]
fn when_missing_then_names_expected_and_found_kinds() {
    let tokens = vec![Token::When, Token::Number(1), Token::Eof];
    assert_eq!(
        parse(tokens),
        Err(ParseError::Expected {
            expected: TokenKind::Then,
            found: TokenKind::Eof,
        })
    );
}

#[test]
fn operator_in_expression_position_is_reported() {
    let tokens = vec![Token::Show, Token::Plus, Token::Eof];
    assert_eq!(
        parse(tokens),
        Err(ParseError::UnexpectedTokenInExpression {
            found: TokenKind::Plus,
        })
    );
}

#[test]
fn define_without_name_fails() {
    let tokens = vec![Token::Define, Token::Number(1), Token::Eof];
    assert_eq!(parse(tokens), Err(ParseError::ExpectedFunctionNameAfterDefine));
}

#[test]
fn input_without_end_marker_is_read_safely() {
    // No end-of-input token at all: the parser synthesizes one past the end
    // instead of reading out of bounds.
    let tokens = vec![ident("x")];
    let expected = Program {
        statements: vec![Statement::Expression(Expression::Identifier(
            "x".to_string(),
        ))],
    };
    assert_eq!(parse(tokens), Ok(expected));
}

#[test]
fn statements_keep_their_order() {
    let tokens = vec![
        Token::Newline,
        Token::Let,
        ident("x"),
        Token::Be,
        Token::Number(1),
        Token::Newline,
        Token::Show,
        ident("x"),
        Token::Newline,
        Token::Eof,
    ];
    let expected = Program {
        statements: vec![
            Statement::Let(LetStatement {
                identifier: "x".to_string(),
                value: num(1),
            }),
            Statement::Show(ShowStatement {
                value: Expression::Identifier("x".to_string()),
            }),
        ],
    };
    assert_eq!(parse(tokens), Ok(expected));
}

#[test]
fn nested_when_inside_then_block() {
    let tokens = vec![
        Token::When,
        Token::Number(1),
        Token::Then,
        Token::Newline,
        Token::Indent,
        Token::When,
        Token::Number(2),
        Token::Then,
        Token::Newline,
        Token::Indent,
        Token::Show,
        Token::Number(3),
        Token::Newline,
        Token::Dedent,
        Token::Newline,
        Token::Dedent,
        Token::Eof,
    ];
    let inner = Statement::When(WhenStatement {
        condition: num(2),
        then_block: vec![Statement::Show(ShowStatement { value: num(3) })],
        otherwise_block: None,
    });
    let expected = Program {
        statements: vec![Statement::When(WhenStatement {
            condition: num(1),
            then_block: vec![inner],
            otherwise_block: None,
        })],
    };
    assert_eq!(parse(tokens), Ok(expected));
}

#[test]
fn when_header_with_no_indented_body_yields_empty_block() {
    let tokens = vec![
        Token::When,
        Token::Number(1),
        Token::Then,
        Token::Newline,
        Token::Show,
        Token::Number(2),
        Token::Eof,
    ];
    // Deliberate leniency: no indent after `then` means an empty then-block,
    // and the following statement belongs to the top level.
    let expected = Program {
        statements: vec![
            Statement::When(WhenStatement {
                condition: num(1),
                then_block: vec![],
                otherwise_block: None,
            }),
            Statement::Show(ShowStatement { value: num(2) }),
        ],
    };
    assert_eq!(parse(tokens), Ok(expected));
}

#[test]
fn first_error_aborts_the_whole_parse() {
    // The first statement is fine, the second is malformed: the parse reports
    // the second statement's error and yields no partial program.
    let tokens = vec![
        Token::Show,
        Token::Number(1),
        Token::Newline,
        Token::Let,
        Token::Be,
        Token::Number(2),
        Token::Eof,
    ];
    assert_eq!(parse(tokens), Err(ParseError::ExpectedIdentifierAfterLet));
}
