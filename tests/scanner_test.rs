use lexer_and_parser::ast::Node;
use lexer_and_parser::token::{Keyword, Precedence, Token};
use lexer_and_parser::tokenizer::Tokenizer;

fn tokens(source: &str) -> Vec<Option<Token>> {
    let mut t = Tokenizer::new(source);
    let mut out = Vec::new();
    loop {
        let next = t.next();
        let stop = matches!(next, None | Some(Token::EOF));
        out.push(next);
        if stop {
            return out;
        }
    }
}

#[test]
fn scans_operators_and_words() {
    assert_eq!(
        tokens("x == 12.5"),
        vec![
            Some(Token::Identifier("x".to_string())),
            Some(Token::Whitespace),
            Some(Token::Equals),
            Some(Token::Whitespace),
            Some(Token::Num("12.5".to_string())),
            Some(Token::EOF),
        ]
    );
    assert_eq!(
        tokens("+-*/^(){}="),
        vec![
            Some(Token::Add),
            Some(Token::Subtract),
            Some(Token::Multiply),
            Some(Token::Divide),
            Some(Token::Pow),
            Some(Token::LeftParenthese),
            Some(Token::RightParenthese),
            Some(Token::LeftBrace),
            Some(Token::RightBrace),
            Some(Token::Assignment),
            Some(Token::EOF),
        ]
    );
}

#[test]
fn scans_reserved_words() {
    let kw = |w: &str, k: Keyword| Some(Token::Literal { literal: w.to_string(), keyword: k });
    assert_eq!(
        tokens("true false if endif else elif while break"),
        vec![
            kw("true", Keyword::True),
            Some(Token::Whitespace),
            kw("false", Keyword::False),
            Some(Token::Whitespace),
            kw("if", Keyword::IF),
            Some(Token::Whitespace),
            kw("endif", Keyword::ENDIF),
            Some(Token::Whitespace),
            kw("else", Keyword::ELSE),
            Some(Token::Whitespace),
            kw("elif", Keyword::ELIF),
            Some(Token::Whitespace),
            kw("while", Keyword::WHILE),
            Some(Token::Whitespace),
            kw("break", Keyword::BREAK),
            Some(Token::EOF),
        ]
    );
}

#[test]
fn scans_strings_and_stops() {
    assert_eq!(
        tokens("\"a b\"+"),
        vec![
            Some(Token::Literal { literal: "a b".to_string(), keyword: Keyword::Plain }),
            Some(Token::Add),
            Some(Token::EOF),
        ]
    );
    assert_eq!(tokens("1.2.3"), vec![Some(Token::Num("1.2".to_string())), None]);
    assert_eq!(tokens("7("), vec![None]);
    assert_eq!(tokens("a\0b"), vec![Some(Token::Identifier("a\0b".to_string())), Some(Token::EOF)]);
    assert_eq!(tokens("\0b"), vec![Some(Token::EOF)]);
    assert_eq!(tokens("%"), vec![None]);
}

#[test]
fn operator_precedence_levels() {
    assert_eq!(Token::Add.get_precedence(), Precedence::AddAndSubtract);
    assert_eq!(Token::Subtract.get_precedence(), Precedence::AddAndSubtract);
    assert_eq!(Token::Multiply.get_precedence(), Precedence::MultiplyAndDivide);
    assert_eq!(Token::Divide.get_precedence(), Precedence::MultiplyAndDivide);
    assert_eq!(Token::Pow.get_precedence(), Precedence::Power);
    assert_eq!(Token::LeftBrace.get_precedence(), Precedence::Default);
    assert!(Precedence::Power.is_below(&Precedence::NegativeValue));
    assert!(!Precedence::Power.is_below(&Precedence::AddAndSubtract));
}

#[test]
fn describes_conditions() {
    let n = Node::ConditionExpression {
        l_expr: Box::new(Node::IdentifierExpression("x".to_string())),
        operator: Token::Equals,
        r_expr: Box::new(Node::BinaryExpr {
            l_expr: Box::new(Node::NumberExpression("1".to_string())),
            operator: Token::Add,
            r_expr: Box::new(Node::NegativeNumberExpression(Box::new(Node::NumberExpression(
                "2".to_string(),
            )))),
        }),
    };
    assert_eq!(n.describe(), "x == (1 + -2)");
}
