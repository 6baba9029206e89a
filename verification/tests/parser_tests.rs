use calclib::ast::Expression;
use calclib::error::LexError;
use calclib::parser::Parser;
use calclib::token::Token;

#[test]
fn test_parser_empty() {
    let input = vec![""];
    let mut p = Parser::new();
    for expr in input {
        let result = p.parse(expr.to_string());
        assert_eq!(result, Ok(None));
    }
}

#[test]
fn test_simple_literals() {
    let input = vec![("5", 5), ("42", 42), ("0", 0), ("1234567890", 1234567890)];
    let mut p = Parser::new();
    for expr in input {
        let result = p.parse(expr.0.to_string());

        assert_eq!(result, Ok(Some(Expression::Integer { value: expr.1 })));
    }
}

#[test]
fn test_simple_negative_literals() {
    let input = vec![("-5", 5), ("-42", 42), ("-1234567890", 1234567890)];
    let mut p = Parser::new();
    for expr in input {
        let result = p.parse(expr.0.to_string());

        assert_eq!(
            result,
            Ok(Some(Expression::Prefix {
                operator: Token::Minus,
                right: Box::new(Expression::Integer { value: expr.1 })
            }))
        );
    }
}

#[test]
fn test_parser_incomplete() {
    let input = vec!["-", "(399", "*", "3-", "-5+"];
    let mut p = Parser::new();
    for expr in input {
        let result = p.parse(expr.to_string());
        assert_eq!(result, Ok(None));
    }
}

#[test]
fn test_parser_complete_simple_expression() {
    let input: Vec<(&str, Result<Option<Expression>, LexError>)> = vec![
        (
            "15+3",
            Ok(Some(Expression::Infix {
                left: Box::new(Expression::Integer { value: 15 }),
                operator: Token::Plus,
                right: Box::new(Expression::Integer { value: 3 }),
            })),
        ),
        (
            "15-3",
            Ok(Some(Expression::Infix {
                left: Box::new(Expression::Integer { value: 15 }),
                operator: Token::Minus,
                right: Box::new(Expression::Integer { value: 3 }),
            })),
        ),
        (
            "15*3",
            Ok(Some(Expression::Infix {
                left: Box::new(Expression::Integer { value: 15 }),
                operator: Token::Multiply,
                right: Box::new(Expression::Integer { value: 3 }),
            })),
        ),
        (
            "15/3",
            Ok(Some(Expression::Infix {
                left: Box::new(Expression::Integer { value: 15 }),
                operator: Token::Divide,
                right: Box::new(Expression::Integer { value: 3 }),
            })),
        ),
    ];

    let mut p = Parser::new();
    for (expr, expected_tokens) in input {
        let result = p.parse(expr.to_string());
        assert_eq!(result, expected_tokens);
    }
}

#[test]
fn test_parser_complete_complex_expressions() {
    let input: Vec<(&str, Result<Option<Expression>, LexError>)> = vec![
        (
            "5*(3-1)",
            Ok(Some(Expression::Infix {
                left: Box::new(Expression::Integer { value: 5 }),
                operator: Token::Multiply,
                right: Box::new(Expression::Infix {
                    left: Box::new(Expression::Integer { value: 3 }),
                    operator: Token::Minus,
                    right: Box::new(Expression::Integer { value: 1 }),
                }),
            })),
        ),
        (
            "5(3-1)",
            Ok(Some(Expression::Infix {
                left: Box::new(Expression::Integer { value: 5 }),
                operator: Token::Multiply,
                right: Box::new(Expression::Infix {
                    left: Box::new(Expression::Integer { value: 3 }),
                    operator: Token::Minus,
                    right: Box::new(Expression::Integer { value: 1 }),
                }),
            })),
        ),
        (
            "5*(3-1*4+8)/2",
            Ok(Some(Expression::Infix {
                left: Box::new(Expression::Infix {
                    left: Box::new(Expression::Integer { value: 5 }),
                    operator: Token::Multiply,
                    right: Box::new(Expression::Infix {
                        left: Box::new(Expression::Infix {
                            left: Box::new(Expression::Integer { value: 3 }),
                            operator: Token::Minus,
                            right: Box::new(Expression::Infix {
                                left: Box::new(Expression::Integer { value: 1 }),
                                operator: Token::Multiply,
                                right: Box::new(Expression::Integer { value: 4 }),
                            }),
                        }),
                        operator: Token::Plus,
                        right: Box::new(Expression::Integer { value: 8 }),
                    }),
                }),
                operator: Token::Divide,
                right: Box::new(Expression::Integer { value: 2 }),
            })),
        ),
        (
            "42-7*(2+3)",
            Ok(Some(Expression::Infix {
                left: Box::new(Expression::Integer { value: 42 }),
                operator: Token::Minus,
                right: Box::new(Expression::Infix {
                    left: Box::new(Expression::Integer { value: 7 }),
                    operator: Token::Multiply,
                    right: Box::new(Expression::Infix {
                        left: Box::new(Expression::Integer { value: 2 }),
                        operator: Token::Plus,
                        right: Box::new(Expression::Integer { value: 3 }),
                    }),
                }),
            })),
        ),
    ];

    let mut p = Parser::new();
    for (expr, expected_tokens) in input {
        let result = p.parse(expr.to_string());
        assert_eq!(result, expected_tokens);
    }
}

#[test]
fn test_parser_implicit_multiplication_equals_explicit() {
    let mut p1 = Parser::new();
    let mut p2 = Parser::new();
    let implicit = p1.parse("5(3-1)".to_string());
    let explicit = p2.parse("5*(3-1)".to_string());
    assert_eq!(implicit, explicit);
}

#[test]
fn test_parser_reparse_yields_identical_tree() {
    let inputs = vec!["5*(3-1*4+8)/2", "-(2+3)", "2.3!", "42-7*(2+3)"];
    for s in inputs {
        let mut p1 = Parser::new();
        let mut p2 = Parser::new();
        let first = p1.parse(s.to_string());
        let second = p2.parse(s.to_string());
        assert_eq!(first, second);
    }
}

#[test]
fn test_parser_reused_instance_matches_fresh_instance() {
    let mut reused = Parser::new();
    let _ = reused.parse("1+2*3".to_string());
    let _ = reused.parse("(((".to_string());
    let again = reused.parse("5(3-1)".to_string());
    let mut fresh = Parser::new();
    let fresh_result = fresh.parse("5(3-1)".to_string());
    assert_eq!(again, fresh_result);
}

#[test]
fn test_parser_prefix_binds_tighter_than_sum() {
    let mut p = Parser::new();
    let result = p.parse("-4+7".to_string());
    assert_eq!(
        result,
        Ok(Some(Expression::Infix {
            left: Box::new(Expression::Prefix {
                operator: Token::Minus,
                right: Box::new(Expression::Integer { value: 4 }),
            }),
            operator: Token::Plus,
            right: Box::new(Expression::Integer { value: 7 }),
        }))
    );
}

#[test]
fn test_parser_nested_prefix() {
    let mut p = Parser::new();
    let result = p.parse("-(-3)".to_string());
    assert_eq!(
        result,
        Ok(Some(Expression::Prefix {
            operator: Token::Minus,
            right: Box::new(Expression::Prefix {
                operator: Token::Minus,
                right: Box::new(Expression::Integer { value: 3 }),
            }),
        }))
    );
}

#[test]
fn test_parser_prefix_of_group() {
    let mut p = Parser::new();
    let result = p.parse("-(2+3)".to_string());
    assert_eq!(
        result,
        Ok(Some(Expression::Prefix {
            operator: Token::Minus,
            right: Box::new(Expression::Infix {
                left: Box::new(Expression::Integer { value: 2 }),
                operator: Token::Plus,
                right: Box::new(Expression::Integer { value: 3 }),
            }),
        }))
    );
}

#[test]
fn test_parser_postfix_factorial() {
    let mut p = Parser::new();
    let result = p.parse("5!".to_string());
    assert_eq!(
        result,
        Ok(Some(Expression::Unary {
            operator: Token::Exclamation,
            expression: Box::new(Expression::Integer { value: 5 }),
        }))
    );
}

#[test]
fn test_parser_negative_factorial_wraps_prefix() {
    let mut p = Parser::new();
    let result = p.parse("-5!".to_string());
    assert_eq!(
        result,
        Ok(Some(Expression::Unary {
            operator: Token::Exclamation,
            expression: Box::new(Expression::Prefix {
                operator: Token::Minus,
                right: Box::new(Expression::Integer { value: 5 }),
            }),
        }))
    );
}

#[test]
fn test_parser_decimal_factorial() {
    let mut p = Parser::new();
    let result = p.parse("2.3!".to_string());
    assert_eq!(
        result,
        Ok(Some(Expression::Unary {
            operator: Token::Exclamation,
            expression: Box::new(Expression::Decimal { mantissa: 23, scale: 1 }),
        }))
    );
}

#[test]
fn test_parser_caret_parses_and_waits_for_evaluation() {
    let mut p = Parser::new();
    let result = p.parse("2^3".to_string());
    assert_eq!(
        result,
        Ok(Some(Expression::Infix {
            left: Box::new(Expression::Integer { value: 2 }),
            operator: Token::Caret,
            right: Box::new(Expression::Integer { value: 3 }),
        }))
    );
}

#[test]
fn test_parser_propagates_lex_errors() {
    let mut p = Parser::new();
    assert_eq!(p.parse("2@3".to_string()), Err(LexError::UnknownCharacter('@')));
    assert_eq!(p.parse("12345678901".to_string()), Err(LexError::FailedToParseNumber));
}

#[test]
fn test_parser_unmatched_closing_paren() {
    let mut p = Parser::new();
    assert_eq!(p.parse("2+3)".to_string()), Ok(None));
}
