use lexer_and_parser::ast::Node;
use lexer_and_parser::evaluator::{Evaluator, Request};
use lexer_and_parser::parser::{ParseError, Parser};
use lexer_and_parser::token::Token;
use lexer_and_parser::values::{EvalError, EvalResult, NumTerm, VariableValue};

/// Computes a term in binary64 arithmetic.
fn compute(t: &NumTerm) -> f64 {
    match t {
        NumTerm::Literal(text) => text.parse::<f64>().unwrap(),
        NumTerm::Value(bits) => f64::from_bits(*bits),
        NumTerm::Negate(inner) => -compute(inner),
        NumTerm::Binary { left, operator, right } => {
            let a = compute(left);
            let b = compute(right);
            match operator {
                Token::Add => a + b,
                Token::Subtract => a - b,
                Token::Multiply => a * b,
                Token::Divide => a / b,
                Token::Pow => a.powf(b),
                _ => panic!("not an arithmetic operator"),
            }
        }
    }
}

/// Drives the evaluator through one statement, at most `limit` steps.
fn run_limited(ev: &mut Evaluator, node: Node, limit: usize) -> Option<Result<EvalResult, EvalError>> {
    ev.begin(node);
    for _ in 0..limit {
        match ev.step() {
            Request::Compute(t) => ev.supply(compute(&t).to_bits()),
            Request::Proceed | Request::Report(_) => {}
            Request::Done(r) => return Some(r),
        }
    }
    None
}

/// Parses `source` and evaluates each statement in order.
fn run(ev: &mut Evaluator, source: &str) -> Vec<Result<EvalResult, EvalError>> {
    let nodes = Parser::new(source).unwrap().parse().unwrap();
    let mut out = Vec::new();
    for node in nodes {
        out.push(run_limited(ev, node, 100_000).expect("statement did not finish"));
    }
    out
}

fn number(x: f64) -> EvalResult {
    EvalResult::Number(x.to_bits())
}

fn var<'a>(ev: &'a Evaluator, name: &str) -> Option<&'a VariableValue> {
    ev.variable(&name.to_string())
}

fn parse_one(source: &str) -> Node {
    Parser::new(source).unwrap().parse().unwrap().remove(0)
}

#[test]
fn precedence_parses_and_evaluates() {
    let expected = Node::BinaryExpr {
        l_expr: Box::new(Node::NumberExpression("2".to_string())),
        operator: Token::Add,
        r_expr: Box::new(Node::BinaryExpr {
            l_expr: Box::new(Node::NumberExpression("2".to_string())),
            operator: Token::Multiply,
            r_expr: Box::new(Node::NumberExpression("3".to_string())),
        }),
    };
    assert_eq!(parse_one("2+2*3"), expected);
    let mut ev = Evaluator::new(None);
    assert_eq!(run(&mut ev, "2+2*3"), vec![Ok(number(8.0))]);
}

#[test]
fn parentheses_parse_and_evaluate() {
    let expected = Node::BinaryExpr {
        l_expr: Box::new(Node::BinaryExpr {
            l_expr: Box::new(Node::NumberExpression("2".to_string())),
            operator: Token::Add,
            r_expr: Box::new(Node::NumberExpression("2".to_string())),
        }),
        operator: Token::Multiply,
        r_expr: Box::new(Node::NumberExpression("3".to_string())),
    };
    assert_eq!(parse_one("(2+2)*3"), expected);
    let mut ev = Evaluator::new(None);
    assert_eq!(run(&mut ev, "(2+2)*3"), vec![Ok(number(12.0))]);
}

#[test]
fn assignment_then_use() {
    let mut ev = Evaluator::new(None);
    let results = run(&mut ev, "x = 5");
    assert_eq!(
        results,
        vec![Ok(EvalResult::Assignment {
            identifier: Box::new(EvalResult::Literal("x".to_string())),
            value: Box::new(number(5.0)),
        })]
    );
    assert_eq!(run(&mut ev, "x + 2"), vec![Ok(number(7.0))]);
}

#[test]
fn retyping_replaces_binding() {
    let mut ev = Evaluator::new(None);
    run(&mut ev, "x = 5");
    assert_eq!(var(&ev, "x"), Some(&VariableValue::Number(5.0f64.to_bits())));
    run(&mut ev, "x = true");
    assert_eq!(var(&ev, "x"), Some(&VariableValue::Boolean(true)));
    assert_eq!(run(&mut ev, "x + 1"), vec![Err(EvalError::NotANumber("x".to_string()))]);
    assert_eq!(run(&mut ev, "x"), vec![Ok(EvalResult::Boolean(true))]);
}

const BRANCHES: &str = "if x == 15 { x = 25 } elif x == 10 { y = 10 } else { x = 17 }";

#[test]
fn branch_selects_then() {
    let mut ev = Evaluator::new(None);
    run(&mut ev, "x = 15");
    assert_eq!(run(&mut ev, BRANCHES), vec![Ok(EvalResult::EmptyResult)]);
    assert_eq!(var(&ev, "x"), Some(&VariableValue::Number(25.0f64.to_bits())));
    assert_eq!(var(&ev, "y"), None);
}

#[test]
fn branch_selects_elif() {
    let mut ev = Evaluator::new(None);
    run(&mut ev, "x = 10");
    run(&mut ev, BRANCHES);
    assert_eq!(var(&ev, "x"), Some(&VariableValue::Number(10.0f64.to_bits())));
    assert_eq!(var(&ev, "y"), Some(&VariableValue::Number(10.0f64.to_bits())));
}

#[test]
fn branch_selects_else() {
    let mut ev = Evaluator::new(None);
    run(&mut ev, "x = 3");
    run(&mut ev, BRANCHES);
    assert_eq!(var(&ev, "x"), Some(&VariableValue::Number(17.0f64.to_bits())));
    assert_eq!(var(&ev, "y"), None);
}

#[test]
fn while_runs_body_once() {
    let mut ev = Evaluator::new(None);
    run(&mut ev, "x = 1 c = 0");
    assert_eq!(run(&mut ev, "while x == 1 { x = 2 c = c + 1 }"), vec![Ok(EvalResult::EmptyResult)]);
    assert_eq!(var(&ev, "x"), Some(&VariableValue::Number(2.0f64.to_bits())));
    assert_eq!(var(&ev, "c"), Some(&VariableValue::Number(1.0f64.to_bits())));
}

#[test]
fn while_counts_to_ten() {
    let mut ev = Evaluator::new(None);
    run(&mut ev, "i = 0 done = false");
    run(&mut ev, "while done == false { i = i + 1 if i == 10 { done = true } }");
    assert_eq!(var(&ev, "i"), Some(&VariableValue::Number(10.0f64.to_bits())));
}

#[test]
fn always_true_loop_does_not_finish() {
    let mut ev = Evaluator::new(None);
    let node = parse_one("while 1 == 1 { }");
    assert_eq!(run_limited(&mut ev, node, 10_000), None);
}

#[test]
fn while_without_condition_is_a_no_op() {
    let mut ev = Evaluator::new(None);
    assert_eq!(run(&mut ev, "while { x = 1 }"), vec![Ok(EvalResult::EmptyResult)]);
    assert_eq!(var(&ev, "x"), None);
}

#[test]
fn missing_closing_brace_names_condition() {
    match Parser::new("if x == 1 {").unwrap().parse() {
        Err(ParseError::UnableToParse(m)) => assert_eq!(m, "Missing closing brace for x == 1"),
        other => panic!("unexpected {:?}", other),
    }
}

#[test]
fn missing_operand_is_an_error() {
    match Parser::new("1 -").unwrap().parse() {
        Err(ParseError::InvalidOperator(m)) => assert_eq!(m, "Could not parse Token: EOF"),
        other => panic!("unexpected {:?}", other),
    }
    assert!(Parser::new("x =").unwrap().parse().is_err());
    assert!(Parser::new("if").unwrap().parse().is_err());
    match Parser::new("(1+2").unwrap().parse() {
        Err(ParseError::InvalidOperator(m)) => assert_eq!(m, "Expected RightParenthese, got EOF"),
        other => panic!("unexpected {:?}", other),
    }
}

#[test]
fn literal_conditions() {
    let mut ev = Evaluator::new(None);
    run(&mut ev, "if true { y = 1 } else { y = 2 }");
    assert_eq!(var(&ev, "y"), Some(&VariableValue::Number(1.0f64.to_bits())));
    run(&mut ev, "if false { z = 1 } elif true { z = 2 }");
    assert_eq!(var(&ev, "z"), Some(&VariableValue::Number(2.0f64.to_bits())));
    run(&mut ev, "if 5 { w = 1 }");
    assert_eq!(var(&ev, "w"), None);
    let node = parse_one("while true { q = 1 }");
    assert_eq!(run_limited(&mut ev, node, 10_000), None);
    assert_eq!(var(&ev, "q"), Some(&VariableValue::Number(1.0f64.to_bits())));
}

#[test]
fn undefined_variable_is_reported() {
    let mut ev = Evaluator::new(None);
    assert_eq!(run(&mut ev, "y + 1"), vec![Err(EvalError::UndefinedVariable("y".to_string()))]);
    assert_eq!(run(&mut ev, "y"), vec![Err(EvalError::UndefinedVariable("y".to_string()))]);
}

#[test]
fn missing_opening_brace_is_reported() {
    match Parser::new("if x == 1 x = 2 }").unwrap().parse() {
        Err(ParseError::UnableToParse(m)) => assert_eq!(m, "Missing opening brace for x == 1"),
        other => panic!("unexpected {:?}", other),
    }
    match Parser::new("else { x = 2").unwrap().parse() {
        Err(ParseError::UnableToParse(m)) => assert_eq!(m, "Missing closing brace for Else"),
        other => panic!("unexpected {:?}", other),
    }
    match Parser::new("while x == 1 { x = 2").unwrap().parse() {
        Err(ParseError::UnableToParse(m)) => assert_eq!(m, "Missing closing brace for x == 1"),
        other => panic!("unexpected {:?}", other),
    }
}

#[test]
fn unmatched_parenthesis_is_invalid_operator() {
    assert!(matches!(Parser::new("(1+2").unwrap().parse(), Err(ParseError::InvalidOperator(_))));
    assert!(matches!(Parser::new("+ 2").unwrap().parse(), Err(ParseError::InvalidOperator(_))));
}

#[test]
fn unknown_character_stops_parsing() {
    assert!(matches!(Parser::new("x = 5 #").unwrap().parse(), Err(ParseError::UnableToParse(_))));
    assert!(matches!(Parser::new("#"), Err(ParseError::UnableToParse(_))));
    assert!(matches!(Parser::new("2(3)"), Err(ParseError::UnableToParse(_))));
}

#[test]
fn empty_input_has_no_statements() {
    assert_eq!(Parser::new("").unwrap().parse().unwrap(), vec![]);
    assert_eq!(Parser::new("  \n\t ").unwrap().parse().unwrap(), vec![]);
}

#[test]
fn string_and_decimal_literals() {
    assert_eq!(
        parse_one("s = \"hello\""),
        Node::AssignmentExpression {
            identifier: Box::new(Node::IdentifierExpression("s".to_string())),
            assignment_operator: Token::Assignment,
            expr: Box::new(Node::LiteralExpression(
                "hello".to_string(),
                lexer_and_parser::token::Keyword::Plain
            )),
        }
    );
    let mut ev = Evaluator::new(None);
    assert_eq!(run(&mut ev, "1.5 * 2"), vec![Ok(number(3.0))]);
    run(&mut ev, "s = \"hello\"");
    assert_eq!(var(&ev, "s"), Some(&VariableValue::Literal("hello".to_string())));
}

#[test]
fn division_by_zero_follows_binary64() {
    let mut ev = Evaluator::new(None);
    assert_eq!(run(&mut ev, "1/0"), vec![Ok(number(f64::INFINITY))]);
    assert_eq!(run(&mut ev, "-1/0"), vec![Ok(number(f64::NEG_INFINITY))]);
    match &run(&mut ev, "0/0")[0] {
        Ok(EvalResult::Number(bits)) => assert!(f64::from_bits(*bits).is_nan()),
        other => panic!("unexpected {:?}", other),
    }
}

#[test]
fn negation_and_power() {
    let mut ev = Evaluator::new(None);
    assert_eq!(run(&mut ev, "-2^2"), vec![Ok(number(4.0))]);
    assert_eq!(run(&mut ev, "2^3^2"), vec![Ok(number(64.0))]);
    assert_eq!(run(&mut ev, "10 - 2 - 3"), vec![Ok(number(5.0))]);
}

#[test]
fn comparison_uses_value_and_type() {
    let mut ev = Evaluator::new(None);
    run(&mut ev, "x = \"5\"");
    run(&mut ev, "if x == 5 { y = 1 } else { y = 2 }");
    assert_eq!(var(&ev, "y"), Some(&VariableValue::Number(2.0f64.to_bits())));
    run(&mut ev, "z = 0/0");
    run(&mut ev, "if z == z { w = 1 } else { w = 2 }");
    assert_eq!(var(&ev, "w"), Some(&VariableValue::Number(2.0f64.to_bits())));
    run(&mut ev, "n = 0 - 0");
    run(&mut ev, "if 0 == -0 { v = 1 }");
    assert_eq!(var(&ev, "v"), Some(&VariableValue::Number(1.0f64.to_bits())));
}

#[test]
fn unassignable_value_is_not_stored() {
    let mut ev = Evaluator::new(None);
    let results = run(&mut ev, "x = if 1 == 1 { y = 1 }");
    assert_eq!(
        results,
        vec![Ok(EvalResult::Assignment {
            identifier: Box::new(EvalResult::Literal("x".to_string())),
            value: Box::new(EvalResult::EmptyResult),
        })]
    );
    assert_eq!(var(&ev, "x"), None);
    assert_eq!(var(&ev, "y"), Some(&VariableValue::Number(1.0f64.to_bits())));
    ev.begin(parse_one("z = if 1 == 2 { }"));
    let mut reported = Vec::new();
    for _ in 0..1000 {
        match ev.step() {
            Request::Compute(t) => ev.supply(compute(&t).to_bits()),
            Request::Proceed => {}
            Request::Report(e) => reported.push(e),
            Request::Done(_) => break,
        }
    }
    assert_eq!(reported, vec![EvalError::UnassignableValue("z".to_string())]);
}

#[test]
fn errors_inside_a_block_stop_the_statement() {
    let mut ev = Evaluator::new(None);
    assert_eq!(
        run(&mut ev, "if 1 == 1 { q + 1 y = 3 }"),
        vec![Err(EvalError::UndefinedVariable("q".to_string()))]
    );
    assert_eq!(var(&ev, "y"), None);
    assert_eq!(
        run(&mut ev, "if 1 == 2 { } elif q == 1 { }"),
        vec![Err(EvalError::UndefinedVariable("q".to_string()))]
    );
    assert_eq!(
        run(&mut ev, "if 1 == 2 { } else { a = undefined b = true }"),
        vec![Err(EvalError::UndefinedVariable("undefined".to_string()))]
    );
    assert_eq!(var(&ev, "b"), None);
    assert_eq!(
        run(&mut ev, "if q == 1 { }"),
        vec![Err(EvalError::UndefinedVariable("q".to_string()))]
    );
    assert_eq!(
        run(&mut ev, "while 1 == 1 { q }"),
        vec![Err(EvalError::UndefinedVariable("q".to_string()))]
    );
}

#[test]
fn idle_evaluator_reports_nothing_to_do() {
    let mut ev = Evaluator::new(None);
    assert!(matches!(ev.step(), Request::Done(Err(EvalError::EvaluationUnsupported))));
    ev.start_evaluating();
    assert!(matches!(ev.step(), Request::Done(Err(EvalError::EvaluationUnsupported))));
}

#[test]
fn start_evaluating_takes_the_pending_statement() {
    let mut ev = Evaluator::new(Some(parse_one("k = 4")));
    ev.start_evaluating();
    let mut done = None;
    for _ in 0..100 {
        match ev.step() {
            Request::Compute(t) => ev.supply(compute(&t).to_bits()),
            Request::Proceed | Request::Report(_) => {}
            Request::Done(r) => {
                done = Some(r);
                break;
            }
        }
    }
    assert!(matches!(done, Some(Ok(EvalResult::Assignment { .. }))));
    assert_eq!(var(&ev, "k"), Some(&VariableValue::Number(4.0f64.to_bits())));
}

#[test]
fn compute_request_carries_closed_term() {
    let mut ev = Evaluator::new(None);
    run(&mut ev, "x = 3");
    ev.begin(parse_one("x * 2"));
    match ev.step() {
        Request::Compute(t) => assert_eq!(
            t,
            NumTerm::Binary {
                left: Box::new(NumTerm::Value(3.0f64.to_bits())),
                operator: Token::Multiply,
                right: Box::new(NumTerm::Literal("2".to_string())),
            }
        ),
        other => panic!("unexpected {:?}", other),
    }
}
