use vstd::prelude::*;
use vstd::string::*;
use crate::ast::{
    ast_text, is_chain_link, node_view, nodes_view, option_view, well_formed, Ast, Node,
};
use crate::token::{
    is_binary_operator, is_operator_view, precedence_of, precedence_of_view, Keyword, Precedence,
    Token, TokenView,
};
use crate::tokenizer::{scan, Tokenizer};

verus! {

/// Why a text could not be parsed.
#[derive(Debug)]
pub enum ParseError {
    /// A token stood where an operator, a closing delimiter or an expression was expected.
    InvalidOperator(String),
    /// A brace is missing, or the text holds a character that starts no token.
    UnableToParse(String),
}

impl ParseError {
    /// The diagnostic carried by the error.
    pub fn message(&self) -> (r: &String)
        ensures
            match *self {
                ParseError::InvalidOperator(m) => *r == m,
                ParseError::UnableToParse(m) => *r == m,
            },
    {
        match self {
            ParseError::InvalidOperator(m) => m,
            ParseError::UnableToParse(m) => m,
        }
    }
}

/// Whether a token carries no text.
pub open spec fn is_plain_token(t: Token) -> bool {
    !(t is Num || t is Literal || t is Identifier)
}

/// Whether `t` can start an expression.
pub open spec fn starts_expression(t: Token) -> bool {
    t is Subtract || t is Num || t is LeftParenthese || t is Identifier || t is Literal
}

/// Compares a token with one that carries no text.
fn same_token(a: &Token, b: &Token) -> (r: bool)
    requires
        is_plain_token(*b),
    ensures
        r == (*a == *b),
{
    match (a, b) {
        (Token::Assignment, Token::Assignment) => true,
        (Token::Add, Token::Add) => true,
        (Token::Subtract, Token::Subtract) => true,
        (Token::Equals, Token::Equals) => true,
        (Token::Multiply, Token::Multiply) => true,
        (Token::Divide, Token::Divide) => true,
        (Token::Pow, Token::Pow) => true,
        (Token::LeftParenthese, Token::LeftParenthese) => true,
        (Token::RightParenthese, Token::RightParenthese) => true,
        (Token::Whitespace, Token::Whitespace) => true,
        (Token::EOF, Token::EOF) => true,
        (Token::LeftBrace, Token::LeftBrace) => true,
        (Token::RightBrace, Token::RightBrace) => true,
        _ => false,
    }
}

/// The name of a token in diagnostics.
fn token_name(t: &Token) -> (r: &'static str)
    ensures
        r@ == token_name_view(t@),
{
    match t {
        Token::Assignment => "Assignment",
        Token::Add => "Add",
        Token::Subtract => "Subtract",
        Token::Equals => "Equals",
        Token::Multiply => "Multiply",
        Token::Divide => "Divide",
        Token::Pow => "Pow",
        Token::LeftParenthese => "LeftParenthese",
        Token::RightParenthese => "RightParenthese",
        Token::Num(_) => "Num",
        Token::Literal { .. } => "Literal",
        Token::Identifier(_) => "Identifier",
        Token::Whitespace => "Whitespace",
        Token::EOF => "EOF",
        Token::LeftBrace => "LeftBrace",
        Token::RightBrace => "RightBrace",
    }
}

/// The diagnostic for a missing brace of a block: names the condition, or
/// `otherwise` where the block has none.
pub open spec fn brace_message(which: Seq<char>, condition: Option<Ast>, otherwise: Seq<char>) -> Seq<
    char,
> {
    match condition {
        Some(c) => "Missing "@ + which + " brace for "@ + ast_text(c),
        None => "Missing "@ + which + " brace for "@ + otherwise,
    }
}

fn brace_error(which: &str, condition: &Option<Node>, otherwise: &str) -> (r: ParseError)
    ensures
        r@ == ErrorKind::UnableToParse(brace_message(which@, view_of_option(*condition), otherwise@)),
{
    let mut m = String::from_str("Missing ");
    m.append(which);
    m.append(" brace for ");
    match condition {
        Some(c) => c.write_text(&mut m),
        None => m.append(otherwise),
    }
    proof {
        assert(m@ =~= brace_message(which@, view_of_option(*condition), otherwise@));
    }
    ParseError::UnableToParse(m)
}

fn invalid_character() -> (r: ParseError)
    ensures
        r@ == invalid_character_error(),
{
    ParseError::UnableToParse(String::from_str("Invalid character"))
}

/// A parse error with its diagnostic as a sequence of characters.
pub enum ErrorKind {
    InvalidOperator(Seq<char>),
    UnableToParse(Seq<char>),
}

/// The error of a guard that a parse step always passes: every step that
/// consumes a token leaves less to read.
pub open spec fn stalled() -> ErrorKind {
    ErrorKind::UnableToParse("Parse made no progress"@)
}

/// The diagnostic for a character that starts no token.
pub open spec fn invalid_character_error() -> ErrorKind {
    ErrorKind::UnableToParse("Invalid character"@)
}

/// The name of a token in diagnostics.
pub open spec fn token_name_view(t: TokenView) -> Seq<char> {
    match t {
        TokenView::Assignment => "Assignment"@,
        TokenView::Add => "Add"@,
        TokenView::Subtract => "Subtract"@,
        TokenView::Equals => "Equals"@,
        TokenView::Multiply => "Multiply"@,
        TokenView::Divide => "Divide"@,
        TokenView::Pow => "Pow"@,
        TokenView::LeftParenthese => "LeftParenthese"@,
        TokenView::RightParenthese => "RightParenthese"@,
        TokenView::Num(_) => "Num"@,
        TokenView::Literal(..) => "Literal"@,
        TokenView::Identifier(_) => "Identifier"@,
        TokenView::Whitespace => "Whitespace"@,
        TokenView::EOF => "EOF"@,
        TokenView::LeftBrace => "LeftBrace"@,
        TokenView::RightBrace => "RightBrace"@,
    }
}

impl View for ParseError {
    type V = ErrorKind;

    open spec fn view(&self) -> ErrorKind {
        match *self {
            ParseError::InvalidOperator(m) => ErrorKind::InvalidOperator(m@),
            ParseError::UnableToParse(m) => ErrorKind::UnableToParse(m@),
        }
    }
}

/// Where parsing stands: the index of the next character to scan, and the
/// lookahead token.
pub struct PState {
    pub pos: int,
    pub cur: TokenView,
}

/// Characters left to scan, plus one while the lookahead is not the end.
pub open spec fn measure(s: Seq<char>, st: PState) -> nat {
    (if st.pos <= s.len() {
        s.len() - st.pos
    } else {
        0
    }) as nat + if st.cur is EOF {
        0nat
    } else {
        1nat
    }
}

/// The next token at or after index `pos` that is not whitespace.
pub open spec fn advance(s: Seq<char>, pos: int) -> Option<(TokenView, int)>
    decreases s.len() - pos,
{
    match scan(s, pos) {
        None => None,
        Some((t, j)) => if t is Whitespace {
            if pos < j <= s.len() {
                advance(s, j)
            } else {
                None
            }
        } else {
            Some((t, j))
        },
    }
}

/// Moving the lookahead on.
pub open spec fn next_state(s: Seq<char>, st: PState) -> Result<PState, ErrorKind> {
    match advance(s, st.pos) {
        None => Err(invalid_character_error()),
        Some((t, j)) => Ok(PState { pos: j, cur: t }),
    }
}

/// Consuming the lookahead where it is `t`.
pub open spec fn check_state(s: Seq<char>, st: PState, t: TokenView) -> Result<(bool, PState), ErrorKind> {
    if st.cur == t {
        match next_state(s, st) {
            Ok(st2) => Ok((true, st2)),
            Err(e) => Err(e),
        }
    } else {
        Ok((false, st))
    }
}

pub open spec fn view_of_option(o: Option<Node>) -> Option<Ast> {
    match o {
        Some(n) => Some(n@),
        None => None,
    }
}

pub open spec fn boxed(o: Option<Ast>) -> Option<Box<Ast>> {
    match o {
        Some(a) => Some(Box::new(a)),
        None => None,
    }
}

/// The keyword of a token that opens an `elif` or `else` link.
pub open spec fn link_keyword(t: TokenView) -> Option<Keyword> {
    match t {
        TokenView::Literal(_, k) => if k == Keyword::ELSE || k == Keyword::ELIF {
            Some(k)
        } else {
            None
        },
        _ => None,
    }
}

/// The node for an `if` (keyword `IF`) or an `elif`/`else` link.
pub open spec fn branch_node(keyword: Keyword, c: Option<Ast>, stmts: Seq<Ast>, link: Option<Ast>) -> Ast {
    if keyword == Keyword::IF {
        Ast::If(boxed(c), stmts, boxed(link))
    } else {
        Ast::Else(boxed(c), stmts, boxed(link))
    }
}

/// Precedence climbing: an expression whose operators bind tighter than
/// `prec`. At the end of the input the expression is missing, an error.
pub open spec fn expression(s: Seq<char>, st: PState, prec: Precedence) -> (Result<Ast, ErrorKind>, PState)
    decreases measure(s, st), 4nat,
{
    let (r, st1) = primary(s, st);
    match r {
        Err(e) => (Err(e), st1),
        Ok(l) => if measure(s, st1) < measure(s, st) {
            climb(s, st1, prec, l)
        } else {
            (Err(stalled()), st1)
        },
    }
}

/// Folds operators that bind tighter than `prec` onto `l`, to the left.
pub open spec fn climb(s: Seq<char>, st: PState, prec: Precedence, l: Ast) -> (Result<Ast, ErrorKind>, PState)
    decreases measure(s, st), 3nat,
{
    if prec.level() < precedence_of_view(st.cur).level() {
        let (r, st2) = binary(s, st, l);
        match r {
            Err(e) => (Err(e), st2),
            Ok(n) => if measure(s, st2) < measure(s, st) {
                climb(s, st2, prec, n)
            } else {
                (Err(stalled()), st2)
            },
        }
    } else {
        (Ok(l), st)
    }
}

/// The operator at the lookahead applied to `l` and to the operand after it.
pub open spec fn binary(s: Seq<char>, st: PState, l: Ast) -> (Result<Ast, ErrorKind>, PState)
    decreases measure(s, st), 2nat,
{
    if !is_operator_view(st.cur) {
        (Err(ErrorKind::InvalidOperator("Bad token"@)), st)
    } else {
        match next_state(s, st) {
            Err(e) => (Err(e), st),
            Ok(st2) => if measure(s, st2) < measure(s, st) {
                let (r, st3) = expression(s, st2, precedence_of_view(st.cur));
                match r {
                    Ok(rhs) => (Ok(Ast::Binary(Box::new(l), st.cur, Box::new(rhs))), st3),
                    Err(e) => (Err(e), st3),
                }
            } else {
                (Err(stalled()), st2)
            },
        }
    }
}

/// After `lhs` and an `=` or `==` (the token `op`), the expression on the right.
pub open spec fn right_side(s: Seq<char>, st: PState, lhs: Ast, op: TokenView, bound: nat) -> (
    Result<Ast, ErrorKind>,
    PState,
)
    decreases bound, 0nat,
{
    if measure(s, st) < bound {
        let (r, st2) = expression(s, st, Precedence::Default);
        match r {
            Ok(rhs) => (
                Ok(
                    if op is Assignment {
                        Ast::Assignment(Box::new(lhs), op, Box::new(rhs))
                    } else {
                        Ast::Condition(Box::new(lhs), op, Box::new(rhs))
                    },
                ),
                st2,
            ),
            Err(e) => (Err(e), st2),
        }
    } else {
        (Err(stalled()), st)
    }
}

/// After a number: a condition, or the number alone.
pub open spec fn number_rest(s: Seq<char>, st: PState, text: Seq<char>) -> (Result<Ast, ErrorKind>, PState)
    decreases measure(s, st), 1nat,
{
    match check_state(s, st, TokenView::Equals) {
        Err(e) => (Err(e), st),
        Ok((false, st3)) => (Ok(Ast::Number(text)), st3),
        Ok((true, st3)) => right_side(s, st3, Ast::Number(text), TokenView::Equals, measure(s, st)),
    }
}

/// After an identifier: an assignment, a condition, or the identifier alone.
pub open spec fn identifier_rest(s: Seq<char>, st: PState, name: Seq<char>) -> (
    Result<Ast, ErrorKind>,
    PState,
)
    decreases measure(s, st), 1nat,
{
    match check_state(s, st, TokenView::Assignment) {
        Err(e) => (Err(e), st),
        Ok((true, st3)) => right_side(
            s,
            st3,
            Ast::Identifier(name),
            TokenView::Assignment,
            measure(s, st),
        ),
        Ok((false, _)) => match check_state(s, st, TokenView::Equals) {
            Err(e) => (Err(e), st),
            Ok((true, st3)) => right_side(s, st3, Ast::Identifier(name), TokenView::Equals, measure(s, st)),
            Ok((false, st3)) => (Ok(Ast::Identifier(name)), st3),
        },
    }
}

/// The expression that starts at the lookahead.
pub open spec fn primary(s: Seq<char>, st: PState) -> (Result<Ast, ErrorKind>, PState)
    decreases measure(s, st), 2nat,
{
    if !(st.cur is Subtract || st.cur is Num || st.cur is LeftParenthese || st.cur is Identifier
        || st.cur is Literal) {
        (Err(ErrorKind::InvalidOperator("Could not parse Token: "@ + token_name_view(st.cur))), st)
    } else {
        match next_state(s, st) {
            Err(e) => (Err(e), st),
            Ok(st2) => if measure(s, st2) >= measure(s, st) {
                (Err(stalled()), st2)
            } else {
                match st.cur {
                    TokenView::Subtract => {
                        let (r, st3) = expression(s, st2, Precedence::NegativeValue);
                        match r {
                            Ok(e) => (Ok(Ast::Negative(Box::new(e))), st3),
                            Err(e) => (Err(e), st3),
                        }
                    },
                    TokenView::Num(text) => number_rest(s, st2, text),
                    TokenView::LeftParenthese => {
                        let (r, st3) = expression(s, st2, Precedence::Default);
                        match r {
                            Err(e) => (Err(e), st3),
                            Ok(inner) => if st3.cur is RightParenthese {
                                match next_state(s, st3) {
                                    Ok(st4) => (Ok(inner), st4),
                                    Err(e) => (Err(e), st3),
                                }
                            } else {
                                (
                                    Err(
                                        ErrorKind::InvalidOperator(
                                            "Expected RightParenthese, got "@ + token_name_view(
                                                st3.cur,
                                            ),
                                        ),
                                    ),
                                    st3,
                                )
                            },
                        }
                    },
                    TokenView::Identifier(name) => identifier_rest(s, st2, name),
                    TokenView::Literal(text, keyword) => if keyword == Keyword::IF || keyword
                        == Keyword::ELSE || keyword == Keyword::ELIF {
                        branch(s, st2, keyword)
                    } else if keyword == Keyword::WHILE {
                        while_loop(s, st2)
                    } else {
                        (Ok(Ast::Literal(text, keyword)), st2)
                    },
                    _ => (Err(stalled()), st),
                }
            },
        }
    }
}

/// The statements of a block up to and with its closing brace, after `acc`;
/// `c` and `otherwise` name the construct in the diagnostic for a missing
/// closing brace.
pub open spec fn block(s: Seq<char>, st: PState, acc: Seq<Ast>, c: Option<Ast>, otherwise: Seq<char>) -> (
    Result<Seq<Ast>, ErrorKind>,
    PState,
)
    decreases measure(s, st), 5nat,
{
    match check_state(s, st, TokenView::RightBrace) {
        Err(e) => (Err(e), st),
        Ok((true, st1)) => (Ok(acc), st1),
        Ok((false, _)) => if st.cur is EOF {
            (Err(ErrorKind::UnableToParse(brace_message("closing"@, c, otherwise))), st)
        } else {
            let (r, st1) = expression(s, st, Precedence::Default);
            match r {
                Err(e) => (Err(e), st1),
                Ok(n) => if measure(s, st1) < measure(s, st) {
                    block(s, st1, acc.push(n), c, otherwise)
                } else {
                    (Err(stalled()), st1)
                },
            }
        },
    }
}

/// After the opening brace of a branch: its block, then for `if`/`elif` the
/// link that follows.
pub open spec fn branch_rest(s: Seq<char>, st: PState, keyword: Keyword, c: Option<Ast>, bound: nat) -> (
    Result<Ast, ErrorKind>,
    PState,
)
    decreases bound, 6nat,
{
    if measure(s, st) >= bound {
        (Err(stalled()), st)
    } else {
        let (b, st3) = block(s, st, Seq::empty(), c, "Else"@);
        match b {
            Err(e) => (Err(e), st3),
            Ok(stmts) => if keyword != Keyword::ELSE && link_keyword(st3.cur).is_some() {
                match next_state(s, st3) {
                    Err(e) => (Err(e), st3),
                    Ok(st4) => if measure(s, st4) < bound {
                        let (l, st5) = branch(s, st4, link_keyword(st3.cur).unwrap());
                        match l {
                            Ok(link) => (Ok(branch_node(keyword, c, stmts, Some(link))), st5),
                            Err(e) => (Err(e), st5),
                        }
                    } else {
                        (Err(stalled()), st4)
                    },
                }
            } else {
                (Ok(branch_node(keyword, c, stmts, None)), st3)
            },
        }
    }
}

/// An `if`, `elif` or `else` construct after its keyword.
pub open spec fn branch(s: Seq<char>, st: PState, keyword: Keyword) -> (Result<Ast, ErrorKind>, PState)
    decreases measure(s, st), 7nat,
{
    let (c, st1) = if keyword == Keyword::ELSE {
        (Ok(None), st)
    } else {
        let (r, st1) = expression(s, st, Precedence::Default);
        match r {
            Ok(c) => (Ok(Some(c)), st1),
            Err(e) => (Err(e), st1),
        }
    };
    match c {
        Err(e) => (Err(e), st1),
        Ok(cond) => match check_state(s, st1, TokenView::LeftBrace) {
            Err(e) => (Err(e), st1),
            Ok((false, _)) => (
                Err(ErrorKind::UnableToParse(brace_message("opening"@, cond, "Else"@))),
                st1,
            ),
            Ok((true, st2)) => branch_rest(s, st2, keyword, cond, measure(s, st)),
        },
    }
}

/// A `while` construct after its keyword.
pub open spec fn while_loop(s: Seq<char>, st: PState) -> (Result<Ast, ErrorKind>, PState)
    decreases measure(s, st), 7nat,
{
    match check_state(s, st, TokenView::LeftBrace) {
        Err(e) => (Err(e), st),
        Ok((true, st1)) => while_rest(s, st1, None, measure(s, st)),
        Ok((false, _)) => {
            let (r, st1) = expression(s, st, Precedence::Default);
            match r {
                Err(e) => (Err(e), st1),
                Ok(c) => match check_state(s, st1, TokenView::LeftBrace) {
                    Err(e) => (Err(e), st1),
                    Ok((false, _)) => (
                        Err(
                            ErrorKind::UnableToParse(
                                brace_message("opening"@, Some(c), "While expression."@),
                            ),
                        ),
                        st1,
                    ),
                    Ok((true, st2)) => while_rest(s, st2, Some(c), measure(s, st)),
                },
            }
        },
    }
}

/// After the opening brace of a loop: its block.
pub open spec fn while_rest(s: Seq<char>, st: PState, c: Option<Ast>, bound: nat) -> (
    Result<Ast, ErrorKind>,
    PState,
)
    decreases bound, 6nat,
{
    if measure(s, st) >= bound {
        (Err(stalled()), st)
    } else {
        let (b, st3) = block(s, st, Seq::empty(), c, "While expression."@);
        match b {
            Err(e) => (Err(e), st3),
            Ok(stmts) => (Ok(Ast::While(boxed(c), stmts)), st3),
        }
    }
}


/// The outcome of an executable parse step matches the spec's `expected`:
/// the same tree and the same state after it, or an error of the same kind.
pub open spec fn agrees(r: Result<Node, ParseError>, after: PState, expected: (Result<Ast, ErrorKind>, PState)) -> bool {
    match r {
        Ok(n) => expected.0 == Ok::<Ast, ErrorKind>(n@) && expected.1 == after,
        Err(e) => expected.0 == Err::<Ast, ErrorKind>(e@),
    }
}

/// The same for a block of statements.
pub open spec fn agrees_block(
    r: Result<Vec<Node>, ParseError>,
    after: PState,
    expected: (Result<Seq<Ast>, ErrorKind>, PState),
) -> bool {
    match r {
        Ok(v) => expected.0 == Ok::<Seq<Ast>, ErrorKind>(nodes_view(v@)) && expected.1 == after,
        Err(e) => expected.0 == Err::<Seq<Ast>, ErrorKind>(e@),
    }
}

/// Skips the whitespace that the text starts with.
pub open spec fn skip_blank(s: Seq<char>, st: PState) -> Result<PState, ErrorKind>
    decreases measure(s, st),
{
    if st.cur is Whitespace {
        match next_state(s, st) {
            Err(e) => Err(e),
            Ok(st2) => if measure(s, st2) < measure(s, st) {
                skip_blank(s, st2)
            } else {
                Err(stalled())
            },
        }
    } else {
        Ok(st)
    }
}

/// The top-level statements up to the end of the input, after `acc`.
pub open spec fn statements(s: Seq<char>, st: PState, acc: Seq<Ast>) -> (Result<Seq<Ast>, ErrorKind>, PState)
    decreases measure(s, st),
{
    if st.cur is EOF {
        (Ok(acc), st)
    } else {
        let (r, st1) = expression(s, st, Precedence::Default);
        match r {
            Err(e) => (Err(e), st1),
            Ok(n) => if measure(s, st1) < measure(s, st) {
                statements(s, st1, acc.push(n))
            } else {
                (Err(stalled()), st1)
            },
        }
    }
}

/// A whole program from the given state: one tree per top-level statement.
pub open spec fn program(s: Seq<char>, st: PState) -> Result<Seq<Ast>, ErrorKind> {
    match skip_blank(s, st) {
        Err(e) => Err(e),
        Ok(st1) => statements(s, st1, Seq::empty()).0,
    }
}

/// A whole text: its first token, then the program that follows.
pub open spec fn parse_text(s: Seq<char>) -> Result<Seq<Ast>, ErrorKind> {
    match scan(s, 0) {
        None => Err(invalid_character_error()),
        Some((t, j)) => program(s, PState { pos: j, cur: t }),
    }
}

/// What the lookahead token makes of the expression that starts at it.
pub open spec fn primary_shape(t: Token, n: Node) -> bool {
    match t {
        Token::Subtract => n is NegativeNumberExpression,
        Token::Num(text) => n == Node::NumberExpression(text) || (n matches Node::ConditionExpression {
            l_expr,
            ..
        } && *l_expr == Node::NumberExpression(text)),
        Token::Identifier(name) => {
            ||| n == Node::IdentifierExpression(name)
            ||| n matches Node::AssignmentExpression { identifier, .. } && *identifier
                == Node::IdentifierExpression(name)
            ||| n matches Node::ConditionExpression { l_expr, .. } && *l_expr
                == Node::IdentifierExpression(name)
        },
        Token::Literal { literal, keyword } => match keyword {
            Keyword::IF | Keyword::ELSE | Keyword::ELIF => branch_shape(keyword, n),
            Keyword::WHILE => n is WhileExpression,
            _ => n == Node::LiteralExpression(literal, keyword),
        },
        _ => true,
    }
}

/// The node that an `if`, `elif` or `else` keyword starts.
pub open spec fn branch_shape(keyword: Keyword, n: Node) -> bool {
    match keyword {
        Keyword::IF => n matches Node::IfExpression { condition, .. } && condition.is_some(),
        Keyword::ELIF => n matches Node::ElseExpression { condition, .. } && condition.is_some(),
        _ => n matches Node::ElseExpression { condition, else_branch, .. } && condition.is_none()
            && else_branch.is_none(),
    }
}

/// A precedence-climbing parser over the tokens of a text, with one token of
/// lookahead.
pub struct Parser {
    tokenizer: Tokenizer,
    current_token: Token,
}

impl Parser {
    /// The lookahead token.
    pub closed spec fn current(&self) -> Token {
        self.current_token
    }

    /// The text being parsed.
    pub closed spec fn input(&self) -> Seq<char> {
        self.tokenizer.input()
    }

    /// Index of the next character the scanner reads.
    pub closed spec fn position(&self) -> nat {
        self.tokenizer.position()
    }

    pub closed spec fn wf(&self) -> bool {
        self.tokenizer.wf()
    }

    /// Characters left to read, plus one while the lookahead is not the end.
    /// Every token consumed makes it smaller.
    pub closed spec fn remaining(&self) -> nat {
        measure(self.input(), self.pstate())
    }

    /// Where parsing stands.
    pub open spec fn pstate(&self) -> PState {
        PState { pos: self.position() as int, cur: self.current()@ }
    }

    /// A parser whose lookahead is the first token of `expr`; an error where
    /// `expr` starts with a character that starts no token.
    pub fn new(expr: &str) -> (r: Result<Parser, ParseError>)
        ensures
            match r {
                Ok(p) => {
                    &&& p.wf()
                    &&& p.input() == expr@
                    &&& scan(expr@, 0) == Some((p.current()@, p.position() as int))
                    &&& p.pstate() == PState { pos: p.position() as int, cur: p.current()@ }
                    &&& program(p.input(), p.pstate()) == parse_text(expr@)
                },
                Err(e) => e@ == invalid_character_error() && scan(expr@, 0) is None,
            },
    {
        let mut lexer = Tokenizer::new(expr);
        match lexer.next() {
            Some(token) => Ok(Parser { tokenizer: lexer, current_token: token }),
            None => Err(invalid_character()),
        }
    }

    /// Moves the lookahead to the next token that is not whitespace.
    fn get_next_token(&mut self) -> (r: Result<(), ParseError>)
        requires
            old(self).wf(),
            !(old(self).current() is EOF),
        ensures
            final(self).wf(),
            final(self).input() == old(self).input(),
            r is Ok ==> !(final(self).current() is Whitespace),
            r is Ok ==> final(self).remaining() < old(self).remaining(),
            r is Err ==> r->Err_0 is UnableToParse,
            match r {
                Ok(_) => next_state(old(self).input(), old(self).pstate()) == Ok::<PState, ErrorKind>(
                    final(self).pstate(),
                ),
                Err(e) => next_state(old(self).input(), old(self).pstate()) == Err::<PState, ErrorKind>(
                    e@,
                ),
            },
    {
        loop
            invariant
                self.wf(),
                self.tokenizer.input() == old(self).tokenizer.input(),
                old(self).tokenizer.position() <= self.tokenizer.position(),
                self.current() == old(self).current(),
                old(self).wf(),
                !(old(self).current() is EOF),
                advance(self.input(), self.position() as int) == advance(
                    old(self).input(),
                    old(self).position() as int,
                ),
            decreases self.tokenizer.input().len() - self.tokenizer.position(),
        {
            let ghost before = self.tokenizer.position();
            match self.tokenizer.next() {
                None => {
                    return Err(invalid_character());
                },
                Some(Token::Whitespace) => {
                    assert(self.tokenizer.position() == before + 1);
                },
                Some(token) => {
                    self.current_token = token;
                    return Ok(());
                },
            }
        }
    }

    /// Consumes the lookahead if it is `expected`.
    fn check_token(&mut self, expected: Token) -> (r: Result<bool, ParseError>)
        requires
            old(self).wf(),
            is_plain_token(expected),
            !(expected is EOF),
        ensures
            final(self).wf(),
            final(self).input() == old(self).input(),
            r matches Ok(false) ==> *final(self) == *old(self),
            r is Ok ==> (r matches Ok(true) <==> old(self).current() == expected),
            r matches Ok(true) ==> final(self).remaining() < old(self).remaining(),
            r matches Ok(true) ==> !(final(self).current() is Whitespace),
            r is Err ==> r->Err_0 is UnableToParse,
            match r {
                Ok(b) => check_state(old(self).input(), old(self).pstate(), expected@) == Ok::<
                    (bool, PState),
                    ErrorKind,
                >((b, final(self).pstate())),
                Err(e) => check_state(old(self).input(), old(self).pstate(), expected@) == Err::<
                    (bool, PState),
                    ErrorKind,
                >(e@),
            },
    {
        if same_token(&self.current_token, &expected) {
            match self.get_next_token() {
                Ok(()) => Ok(true),
                Err(e) => Err(e),
            }
        } else {
            Ok(false)
        }
    }

    /// Consumes the `)` that closes a parenthesised expression.
    fn check_paren(&mut self) -> (r: Result<(), ParseError>)
        requires
            old(self).wf(),
        ensures
            final(self).wf(),
            final(self).input() == old(self).input(),
            r is Ok ==> old(self).current() is RightParenthese && final(self).remaining() < old(
                self,
            ).remaining(),
            !(old(self).current() is RightParenthese) ==> r is Err && r->Err_0 is InvalidOperator
                && *final(self) == *old(self) && r->Err_0@ == ErrorKind::InvalidOperator(
                "Expected RightParenthese, got "@ + token_name_view(old(self).current()@),
            ),
            old(self).current() is RightParenthese ==> match r {
                Ok(_) => next_state(old(self).input(), old(self).pstate()) == Ok::<PState, ErrorKind>(
                    final(self).pstate(),
                ),
                Err(e) => next_state(old(self).input(), old(self).pstate()) == Err::<PState, ErrorKind>(
                    e@,
                ),
            },
    {
        if same_token(&self.current_token, &Token::RightParenthese) {
            self.get_next_token()
        } else {
            let mut m = String::from_str("Expected RightParenthese, got ");
            m.append(token_name(&self.current_token));
            Err(ParseError::InvalidOperator(m))
        }
    }

    /// Parses an expression whose operators bind tighter than `precedence`,
    /// folding them to the left; stops before the first operator that does
    /// not. At the end of the input the expression is missing: an error.
    fn generate_ast(&mut self, precedence: Precedence) -> (r: Result<Node, ParseError>)
        requires
            old(self).wf(),
        ensures
            final(self).wf(),
            final(self).input() == old(self).input(),
            old(self).current() is EOF ==> r is Err,
            r is Ok ==> well_formed(r->Ok_0) && final(self).remaining() < old(self).remaining(),
            r is Ok ==> precedence_of(final(self).current()).level() <= precedence.level(),
            agrees(r, final(self).pstate(), expression(old(self).input(), old(self).pstate(), precedence)),
        decreases old(self).remaining(), 2nat,
    {
        let mut l_expr = match self.get_primary_expression() {
            Ok(n) => n,
            Err(e) => return Err(e),
        };
        while precedence.is_below(&self.current_token.get_precedence())
            invariant
                self.wf(),
                self.input() == old(self).input(),
                self.remaining() < old(self).remaining(),
                !(old(self).current() is EOF),
                well_formed(l_expr),
                !(l_expr is EOF),
                climb(self.input(), self.pstate(), precedence, l_expr@) == expression(
                    old(self).input(),
                    old(self).pstate(),
                    precedence,
                ),
            decreases self.remaining(),
        {
            l_expr = match self.parse_binary_expression(l_expr) {
                Ok(n) => n,
                Err(e) => return Err(e),
            };
        }
        Ok(l_expr)
    }

    /// After a number: `== expression` makes a condition; otherwise the
    /// number stands alone.
    fn parse_after_number(&mut self, text: String) -> (r: Result<Node, ParseError>)
        requires
            old(self).wf(),
        ensures
            final(self).wf(),
            final(self).input() == old(self).input(),
            r is Ok ==> well_formed(r->Ok_0) && !(r->Ok_0 is EOF),
            r is Ok ==> final(self).remaining() <= old(self).remaining(),
            r is Ok ==> primary_shape(Token::Num(text), r->Ok_0),
            agrees(r, final(self).pstate(), number_rest(old(self).input(), old(self).pstate(), text@)),
        decreases old(self).remaining(), 0nat,
    {
        proof {
            reveal_with_fuel(node_view, 2);
        }
        match self.check_token(Token::Equals) {
            Ok(true) => match self.generate_ast(Precedence::Default) {
                Ok(r_expr) => Ok(
                    Node::ConditionExpression {
                        l_expr: Box::new(Node::NumberExpression(text)),
                        operator: Token::Equals,
                        r_expr: Box::new(r_expr),
                    },
                ),
                Err(e) => Err(e),
            },
            Ok(false) => Ok(Node::NumberExpression(text)),
            Err(e) => Err(e),
        }
    }

    /// After an identifier: `= expression` makes an assignment, `==
    /// expression` a condition; otherwise the identifier stands alone.
    fn parse_after_identifier(&mut self, name: String) -> (r: Result<Node, ParseError>)
        requires
            old(self).wf(),
        ensures
            final(self).wf(),
            final(self).input() == old(self).input(),
            r is Ok ==> well_formed(r->Ok_0) && !(r->Ok_0 is EOF),
            r is Ok ==> final(self).remaining() <= old(self).remaining(),
            r is Ok ==> primary_shape(Token::Identifier(name), r->Ok_0),
            agrees(r, final(self).pstate(), identifier_rest(old(self).input(), old(self).pstate(), name@)),
        decreases old(self).remaining(), 0nat,
    {
        proof {
            reveal_with_fuel(node_view, 2);
        }
        match self.check_token(Token::Assignment) {
            Ok(true) => {
                return match self.generate_ast(Precedence::Default) {
                    Ok(r_expr) => Ok(
                        Node::AssignmentExpression {
                            identifier: Box::new(Node::IdentifierExpression(name)),
                            assignment_operator: Token::Assignment,
                            expr: Box::new(r_expr),
                        },
                    ),
                    Err(e) => Err(e),
                };
            },
            Ok(false) => {},
            Err(e) => return Err(e),
        }
        match self.check_token(Token::Equals) {
            Ok(true) => match self.generate_ast(Precedence::Default) {
                Ok(r_expr) => Ok(
                    Node::ConditionExpression {
                        l_expr: Box::new(Node::IdentifierExpression(name)),
                        operator: Token::Equals,
                        r_expr: Box::new(r_expr),
                    },
                ),
                Err(e) => Err(e),
            },
            Ok(false) => Ok(Node::IdentifierExpression(name)),
            Err(e) => Err(e),
        }
    }

    /// Parses the expression that starts at the lookahead: a negation, a
    /// number, a parenthesised expression, an identifier (with what follows
    /// an `=` or `==` after it), a literal, or an `if`/`elif`/`else`/`while`
    /// construct.
    fn get_primary_expression(&mut self) -> (r: Result<Node, ParseError>)
        requires
            old(self).wf(),
        ensures
            final(self).wf(),
            final(self).input() == old(self).input(),
            r is Ok ==> well_formed(r->Ok_0) && !(r->Ok_0 is EOF),
            r is Ok ==> final(self).remaining() < old(self).remaining(),
            !starts_expression(old(self).current()) ==> r is Err && r->Err_0 is InvalidOperator
                && *final(self) == *old(self),
            r is Ok ==> primary_shape(old(self).current(), r->Ok_0),
            agrees(r, final(self).pstate(), primary(old(self).input(), old(self).pstate())),
        decreases old(self).remaining(), 1nat,
    {
        let token = self.current_token.copy();
        match token {
            Token::Subtract => {
                if let Err(e) = self.get_next_token() {
                    return Err(e);
                }
                match self.generate_ast(Precedence::NegativeValue) {
                    Ok(expr) => Ok(Node::NegativeNumberExpression(Box::new(expr))),
                    Err(e) => Err(e),
                }
            },
            Token::Num(i) => {
                if let Err(e) = self.get_next_token() {
                    return Err(e);
                }
                self.parse_after_number(i)
            },
            Token::LeftParenthese => {
                if let Err(e) = self.get_next_token() {
                    return Err(e);
                }
                let l_expr = match self.generate_ast(Precedence::Default) {
                    Ok(n) => n,
                    Err(e) => return Err(e),
                };
                match self.check_paren() {
                    Ok(()) => Ok(l_expr),
                    Err(e) => Err(e),
                }
            },
            Token::Identifier(name) => {
                if let Err(e) = self.get_next_token() {
                    return Err(e);
                }
                self.parse_after_identifier(name)
            },
            Token::Literal { literal, keyword } => {
                if let Err(e) = self.get_next_token() {
                    return Err(e);
                }
                match keyword {
                    Keyword::IF | Keyword::ELSE | Keyword::ELIF => self.parse_branch(keyword),
                    Keyword::WHILE => self.parse_while_expression(),
                    _ => Ok(Node::LiteralExpression(literal, keyword)),
                }
            },
            _ => {
                let mut m = String::from_str("Could not parse Token: ");
                m.append(token_name(&self.current_token));
                Err(ParseError::InvalidOperator(m))
            },
        }
    }

    /// With the lookahead on a binary operator, builds the node that applies
    /// it to `l_expr` and to the operand that follows, which takes the
    /// operators binding tighter than this one.
    fn parse_binary_expression(&mut self, l_expr: Node) -> (r: Result<Node, ParseError>)
        requires
            old(self).wf(),
            well_formed(l_expr),
        ensures
            final(self).wf(),
            final(self).input() == old(self).input(),
            r is Ok ==> well_formed(r->Ok_0) && final(self).remaining() < old(self).remaining(),
            r is Ok ==> (r->Ok_0 matches Node::BinaryExpr { l_expr: l, operator, r_expr: _ } && *l
                == l_expr && operator == old(self).current() && is_binary_operator(operator)
                && precedence_of(final(self).current()).level() <= precedence_of(operator).level()),
            !is_binary_operator(old(self).current()) ==> r is Err && r->Err_0 is InvalidOperator,
            agrees(r, final(self).pstate(), binary(old(self).input(), old(self).pstate(), l_expr@)),
        decreases old(self).remaining(), 1nat,
    {
        let operator = self.current_token.copy();
        match operator {
            Token::Add | Token::Subtract | Token::Multiply | Token::Divide | Token::Pow => {},
            _ => {
                return Err(ParseError::InvalidOperator(String::from_str("Bad token")));
            },
        }
        if let Err(e) = self.get_next_token() {
            return Err(e);
        }
        let precedence = operator.get_precedence();
        match self.generate_ast(precedence) {
            Ok(r_expr) => Ok(
                Node::BinaryExpr { l_expr: Box::new(l_expr), operator, r_expr: Box::new(r_expr) },
            ),
            Err(e) => Err(e),
        }
    }

    /// Parses the statements of a block up to and with its closing brace.
    /// `condition` and `otherwise` name the construct in the diagnostic for
    /// a missing closing brace.
    fn parse_block(&mut self, condition: &Option<Node>, otherwise: &str) -> (r: Result<
        Vec<Node>,
        ParseError,
    >)
        requires
            old(self).wf(),
        ensures
            final(self).wf(),
            final(self).input() == old(self).input(),
            r is Ok ==> final(self).remaining() < old(self).remaining(),
            r is Ok ==> forall|i: int|
                0 <= i < r->Ok_0@.len() ==> well_formed(#[trigger] r->Ok_0@[i]),
            agrees_block(
                r,
                final(self).pstate(),
                block(
                    old(self).input(),
                    old(self).pstate(),
                    Seq::empty(),
                    view_of_option(*condition),
                    otherwise@,
                ),
            ),
        decreases old(self).remaining(), 3nat,
    {
        let mut then_branch: Vec<Node> = Vec::new();
        proof {
            assert(nodes_view(then_branch@) =~= Seq::<Ast>::empty());
        }
        loop
            invariant
                self.wf(),
                self.input() == old(self).input(),
                self.remaining() <= old(self).remaining(),
                forall|i: int| 0 <= i < then_branch@.len() ==> well_formed(#[trigger] then_branch@[i]),
                block(
                    self.input(),
                    self.pstate(),
                    nodes_view(then_branch@),
                    view_of_option(*condition),
                    otherwise@,
                ) == block(
                    old(self).input(),
                    old(self).pstate(),
                    Seq::empty(),
                    view_of_option(*condition),
                    otherwise@,
                ),
            decreases self.remaining(),
        {
            match self.check_token(Token::RightBrace) {
                Ok(true) => return Ok(then_branch),
                Ok(false) => {},
                Err(e) => return Err(e),
            }
            if same_token(&self.current_token, &Token::EOF) {
                return Err(brace_error("closing", condition, otherwise));
            }
            match self.generate_ast(Precedence::Default) {
                Ok(statement) => {
                    let ghost before = then_branch@;
                    then_branch.push(statement);
                    proof {
                        assert(then_branch@.drop_last() =~= before);
                    }
                },
                Err(e) => return Err(e),
            }
        }
    }

    /// Parses an `if` (`IF`), `elif` (`ELIF`) or `else` (`ELSE`) construct
    /// after its keyword: the condition (not for `else`), the block between
    /// braces, and for `if`/`elif` the `elif`/`else` link that follows.
    fn parse_branch(&mut self, keyword: Keyword) -> (r: Result<Node, ParseError>)
        requires
            old(self).wf(),
            keyword == Keyword::IF || keyword == Keyword::ELIF || keyword == Keyword::ELSE,
        ensures
            final(self).wf(),
            final(self).input() == old(self).input(),
            r is Ok ==> well_formed(r->Ok_0) && final(self).remaining() <= old(self).remaining(),
            r is Ok ==> branch_shape(keyword, r->Ok_0),
            agrees(r, final(self).pstate(), branch(old(self).input(), old(self).pstate(), keyword)),
        decreases old(self).remaining(), 4nat,
    {
        let ghost input = self.input();
        let ghost st0 = self.pstate();
        let condition: Option<Node> = if keyword == Keyword::ELSE {
            None
        } else {
            match self.generate_ast(Precedence::Default) {
                Ok(c) => Some(c),
                Err(e) => return Err(e),
            }
        };
        let ghost cond_view = view_of_option(condition);
        match self.check_token(Token::LeftBrace) {
            Ok(true) => {},
            Ok(false) => return Err(brace_error("opening", &condition, "Else")),
            Err(e) => return Err(e),
        }
        let ghost st2 = self.pstate();
        assert(branch(input, st0, keyword) == branch_rest(input, st2, keyword, cond_view, measure(input, st0)));
        let then_branch = match self.parse_block(&condition, "Else") {
            Ok(v) => v,
            Err(e) => return Err(e),
        };
        let ghost st3 = self.pstate();
        let ghost stmts = nodes_view(then_branch@);
        let mut else_branch: Option<Node> = None;
        if keyword != Keyword::ELSE {
            let next_keyword = match &self.current_token {
                Token::Literal { keyword: k, .. } => *k,
                _ => Keyword::Plain,
            };
            if next_keyword == Keyword::ELSE || next_keyword == Keyword::ELIF {
                assert(link_keyword(st3.cur) == Some(next_keyword));
                if let Err(e) = self.get_next_token() {
                    return Err(e);
                }
                match self.parse_branch(next_keyword) {
                    Ok(link) => else_branch = Some(link),
                    Err(e) => return Err(e),
                }
            } else {
                assert(link_keyword(st3.cur).is_none());
            }
        }
        let ghost link_view = view_of_option(else_branch);
        assert(option_view(condition) == boxed(cond_view));
        assert(option_view(else_branch) == boxed(link_view));
        if keyword == Keyword::IF {
            Ok(
                Node::IfExpression {
                    condition: Box::new(condition),
                    then_branch: Box::new(then_branch),
                    else_branch: Box::new(else_branch),
                },
            )
        } else {
            Ok(
                Node::ElseExpression {
                    condition: Box::new(condition),
                    then_branch: Box::new(then_branch),
                    else_branch: Box::new(else_branch),
                },
            )
        }
    }

    /// Parses a `while` construct after its keyword: the condition, unless a
    /// `{` follows at once, then the block between braces.
    fn parse_while_expression(&mut self) -> (r: Result<Node, ParseError>)
        requires
            old(self).wf(),
        ensures
            final(self).wf(),
            final(self).input() == old(self).input(),
            r is Ok ==> well_formed(r->Ok_0) && final(self).remaining() <= old(self).remaining(),
            r is Ok ==> r->Ok_0 is WhileExpression,
            agrees(r, final(self).pstate(), while_loop(old(self).input(), old(self).pstate())),
        decreases old(self).remaining(), 4nat,
    {
        let ghost input = self.input();
        let ghost st0 = self.pstate();
        let mut condition: Option<Node> = None;
        match self.check_token(Token::LeftBrace) {
            Ok(true) => {},
            Ok(false) => {
                match self.generate_ast(Precedence::Default) {
                    Ok(c) => condition = Some(c),
                    Err(e) => return Err(e),
                }
                match self.check_token(Token::LeftBrace) {
                    Ok(true) => {},
                    Ok(false) => return Err(
                        brace_error("opening", &condition, "While expression."),
                    ),
                    Err(e) => return Err(e),
                }
            },
            Err(e) => return Err(e),
        }
        let ghost cond_view = view_of_option(condition);
        let ghost st2 = self.pstate();
        assert(while_loop(input, st0) == while_rest(input, st2, cond_view, measure(input, st0)));
        assert(option_view(condition) == boxed(cond_view));
        match self.parse_block(&condition, "While expression.") {
            Ok(then_branch) => Ok(
                Node::WhileExpression {
                    condition: Box::new(condition),
                    then_branch: Box::new(then_branch),
                },
            ),
            Err(e) => Err(e),
        }
    }

    /// Parses the whole text: one node per top-level statement.
    pub fn parse(&mut self) -> (r: Result<Vec<Node>, ParseError>)
        requires
            old(self).wf(),
        ensures
            final(self).wf(),
            final(self).input() == old(self).input(),
            r is Ok ==> final(self).current() is EOF,
            r is Ok ==> forall|i: int|
                0 <= i < r->Ok_0@.len() ==> well_formed(#[trigger] r->Ok_0@[i]) && !(r->Ok_0@[i] is EOF),
            match r {
                Ok(v) => program(old(self).input(), old(self).pstate()) == Ok::<Seq<Ast>, ErrorKind>(
                    nodes_view(v@),
                ),
                Err(e) => program(old(self).input(), old(self).pstate()) == Err::<Seq<Ast>, ErrorKind>(
                    e@,
                ),
            },
    {
        while same_token(&self.current_token, &Token::Whitespace)
            invariant
                self.wf(),
                self.input() == old(self).input(),
                skip_blank(self.input(), self.pstate()) == skip_blank(old(self).input(), old(self).pstate()),
            decreases self.remaining(),
        {
            if let Err(e) = self.get_next_token() {
                return Err(e);
            }
        }
        let ghost st1 = self.pstate();
        let mut nodes: Vec<Node> = Vec::new();
        proof {
            assert(nodes_view(nodes@) =~= Seq::<Ast>::empty());
        }
        while !same_token(&self.current_token, &Token::EOF)
            invariant
                self.wf(),
                self.input() == old(self).input(),
                forall|i: int|
                    0 <= i < nodes@.len() ==> well_formed(#[trigger] nodes@[i]) && !(nodes@[i] is EOF),
                skip_blank(old(self).input(), old(self).pstate()) == Ok::<PState, ErrorKind>(st1),
                statements(self.input(), self.pstate(), nodes_view(nodes@)) == statements(
                    self.input(),
                    st1,
                    Seq::empty(),
                ),
            decreases self.remaining(),
        {
            match self.generate_ast(Precedence::Default) {
                Ok(ast) => {
                    let ghost before = nodes@;
                    nodes.push(ast);
                    proof {
                        assert(nodes@.drop_last() =~= before);
                    }
                },
                Err(e) => return Err(e),
            }
        }
        Ok(nodes)
    }
}

/// Parses a whole text into one tree per top-level statement.
pub fn parse_program(text: &str) -> (r: Result<Vec<Node>, ParseError>)
    ensures
        match r {
            Ok(v) => parse_text(text@) == Ok::<Seq<Ast>, ErrorKind>(nodes_view(v@)),
            Err(e) => parse_text(text@) == Err::<Seq<Ast>, ErrorKind>(e@),
        },
        r is Ok ==> forall|i: int|
            0 <= i < r->Ok_0@.len() ==> well_formed(#[trigger] r->Ok_0@[i]) && !(r->Ok_0@[i] is EOF),
{
    let mut parser = match Parser::new(text) {
        Ok(p) => p,
        Err(e) => return Err(e),
    };
    parser.parse()
}

} // verus!
