use lexer_and_parser::ast::Node;
use lexer_and_parser::ast::Node::{BinaryExpr, ConditionExpression, IdentifierExpression, NumberExpression};
use lexer_and_parser::parser::Parser;
use lexer_and_parser::token::Token;

fn num(text: &str) -> Node {
    Node::NumberExpression(text.to_string())
}

#[test]
fn test_binary_expressions() {
    let mut parser = Parser::new(
        "
            1+2
            1-1
            2*2
            10/2
            5^2
            x + 2
            ",
    )
    .unwrap();
    // 1 + 2
    let add = Node::BinaryExpr {
        l_expr: Box::new(num("1")),
        operator: Token::Add,
        r_expr: Box::new(num("2")),
    };
    // 1 - 1
    let subtract = Node::BinaryExpr {
        l_expr: Box::new(num("1")),
        operator: Token::Subtract,
        r_expr: Box::new(num("1")),
    };
    // 2 * 2
    let multiply = Node::BinaryExpr {
        l_expr: Box::new(num("2")),
        operator: Token::Multiply,
        r_expr: Box::new(num("2")),
    };
    // 10 / 2
    let divide = Node::BinaryExpr {
        l_expr: Box::new(num("10")),
        operator: Token::Divide,
        r_expr: Box::new(num("2")),
    };
    // 5 ^ 2
    let pow = Node::BinaryExpr {
        l_expr: Box::new(num("5")),
        operator: Token::Pow,
        r_expr: Box::new(num("2")),
    };
    // x + 2
    let add_to_variable = Node::BinaryExpr {
        l_expr: Box::new(Node::IdentifierExpression("x".to_string())),
        operator: Token::Add,
        r_expr: Box::new(num("2")),
    };
    let expected_expressions = vec![add, subtract, multiply, divide, pow, add_to_variable];

    assert_eq!(parser.parse().unwrap(), expected_expressions);
}

#[test]
fn test_precedence() {
    let mut parser = Parser::new(
        "
            2+2*5
            (2+2)*5",
    )
    .unwrap();
    // 2 + 2 * 5
    let multi_precedence = Node::BinaryExpr {
        l_expr: Box::new(num("2")),
        operator: Token::Add,
        r_expr: Box::new(Node::BinaryExpr {
            l_expr: Box::new(num("2")),
            operator: Token::Multiply,
            r_expr: Box::new(num("5")),
        }),
    };
    // (2 + 2) * 5
    let parentheses_precedence = Node::BinaryExpr {
        l_expr: Box::new(Node::BinaryExpr {
            l_expr: Box::new(num("2")),
            operator: Token::Add,
            r_expr: Box::new(num("2")),
        }),
        operator: Token::Multiply,
        r_expr: Box::new(num("5")),
    };
    let expected_expressions = vec![multi_precedence, parentheses_precedence];
    assert_eq!(parser.parse().unwrap(), expected_expressions)
}

#[test]
fn test_identifier_expression() {
    let mut parser = Parser::new("x").unwrap();
    let expected = Node::IdentifierExpression("x".to_string());

    assert_eq!(parser.parse().unwrap()[0], expected);
}

#[test]
fn test_assignment_expression() {
    let mut parser = Parser::new("x = 5").unwrap();
    // x = 5
    let expected = Node::AssignmentExpression {
        identifier: Box::new(Node::IdentifierExpression("x".to_string())),
        assignment_operator: Token::Assignment,
        expr: Box::new(num("5")),
    };
    assert_eq!(parser.parse().unwrap()[0], expected);
}

#[test]
fn test_if_expression() {
    let mut parser = Parser::new(
        "if x == 15 {
                x = 25
            }
            elif x == 10 {
                y = 10
                x = y + 2
            }
            else {
                x = 17
            }",
    )
    .unwrap();
    // if condition - x == 15
    let if_condition = Box::new(Some(Node::ConditionExpression {
        l_expr: Box::new(Node::IdentifierExpression("x".to_string())),
        operator: Token::Equals,
        r_expr: Box::new(num("15")),
    }));
    // then branch.. x = 25
    let then = Box::new(vec![Node::AssignmentExpression {
        identifier: Box::new(Node::IdentifierExpression("x".to_string())),
        assignment_operator: Token::Assignment,
        expr: Box::new(NumberExpression("25".to_string())),
    }]);
    // elif condition - x == 10
    let elif_condition = Box::new(Some(Node::ConditionExpression {
        l_expr: Box::new(Node::IdentifierExpression("x".to_string())),
        operator: Token::Equals,
        r_expr: Box::new(num("10")),
    }));
    // y = 10
    // x = y + 2
    let elif_then = Box::new(vec![
        Node::AssignmentExpression {
            identifier: Box::new(Node::IdentifierExpression("y".to_string())),
            assignment_operator: Token::Assignment,
            expr: Box::new(NumberExpression("10".to_string())),
        },
        Node::AssignmentExpression {
            identifier: Box::new(Node::IdentifierExpression("x".to_string())),
            assignment_operator: Token::Assignment,
            expr: Box::new(Node::BinaryExpr {
                l_expr: Box::new(IdentifierExpression("y".to_string())),
                operator: Token::Add,
                r_expr: Box::new(num("2")),
            }),
        },
    ]);
    // x = 17
    let else_then = Box::new(vec![Node::AssignmentExpression {
        identifier: Box::new(Node::IdentifierExpression("x".to_string())),
        assignment_operator: Token::Assignment,
        expr: Box::new(NumberExpression("17".to_string())),
    }]);

    let elif_expression = Box::new(Some(Node::ElseExpression {
        condition: elif_condition,
        then_branch: elif_then,
        else_branch: Box::new(Some(Node::ElseExpression {
            condition: Box::new(None),
            then_branch: else_then,
            else_branch: Box::new(None),
        })),
    }));

    let if_expression = Node::IfExpression {
        condition: if_condition,
        then_branch: then,
        else_branch: elif_expression,
    };
    assert_eq!(parser.parse().unwrap()[0], if_expression);
}

#[test]
fn test_while_expression() {
    let mut parser = Parser::new(
        "
            while 1 == 1 {
                1 + 1
            }",
    )
    .unwrap();
    let expected = Node::WhileExpression {
        condition: Box::new(Some(ConditionExpression {
            l_expr: Box::new(NumberExpression("1".to_string())),
            operator: Token::Equals,
            r_expr: Box::new(NumberExpression("1".to_string())),
        })),
        then_branch: Box::new(vec![BinaryExpr {
            l_expr: Box::new(NumberExpression("1".to_string())),
            operator: Token::Add,
            r_expr: Box::new(NumberExpression("1".to_string())),
        }]),
    };
    assert_eq!(parser.parse().unwrap()[0], expected);
}

#[test]
fn parse_program_matches_parser() {
    let nodes = lexer_and_parser::parser::parse_program("x = 1 y = x").unwrap();
    assert_eq!(nodes.len(), 2);
    assert_eq!(nodes[1], Node::AssignmentExpression {
        identifier: Box::new(Node::IdentifierExpression("y".to_string())),
        assignment_operator: Token::Assignment,
        expr: Box::new(Node::IdentifierExpression("x".to_string())),
    });
    assert!(lexer_and_parser::parser::parse_program("#").is_err());
}

#[test]
fn elif_chain_without_else_and_trailing_statement() {
    let nodes = lexer_and_parser::parser::parse_program("if x == 1 { y = 1 } z = 2").unwrap();
    assert_eq!(nodes.len(), 2);
    assert!(matches!(nodes[0], Node::IfExpression { .. }));
    let nodes = lexer_and_parser::parser::parse_program("if x == 1 { }").unwrap();
    assert_eq!(nodes.len(), 1);
}
