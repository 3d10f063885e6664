use vstd::prelude::*;
use vstd::string::*;
use crate::token::{is_binary_operator, Keyword, Token, TokenView};

verus! {

/// Nodes of the syntax tree.
#[derive(Debug, PartialEq)]
pub enum Node {
    /// A numeric literal, kept as written.
    NumberExpression(String),
    NegativeNumberExpression(Box<Node>),
    LiteralExpression(String, Keyword),
    IdentifierExpression(String),
    BinaryExpr { l_expr: Box<Node>, operator: Token, r_expr: Box<Node> },
    AssignmentExpression { identifier: Box<Node>, assignment_operator: Token, expr: Box<Node> },
    ConditionExpression { l_expr: Box<Node>, operator: Token, r_expr: Box<Node> },
    IfExpression {
        condition: Box<Option<Node>>,
        then_branch: Box<Vec<Node>>,
        else_branch: Box<Option<Node>>,
    },
    /// An `elif` link when `condition` is `Some`, the final `else` when it is `None`.
    ElseExpression {
        condition: Box<Option<Node>>,
        then_branch: Box<Vec<Node>>,
        else_branch: Box<Option<Node>>,
    },
    WhileExpression { condition: Box<Option<Node>>, then_branch: Box<Vec<Node>> },
    EOF(String),
}

/// The mathematical form of a syntax tree: texts as sequences of
/// characters, blocks as sequences of trees.
pub enum Ast {
    Number(Seq<char>),
    Negative(Box<Ast>),
    Literal(Seq<char>, Keyword),
    Identifier(Seq<char>),
    Binary(Box<Ast>, TokenView, Box<Ast>),
    Assignment(Box<Ast>, TokenView, Box<Ast>),
    Condition(Box<Ast>, TokenView, Box<Ast>),
    If(Option<Box<Ast>>, Seq<Ast>, Option<Box<Ast>>),
    Else(Option<Box<Ast>>, Seq<Ast>, Option<Box<Ast>>),
    While(Option<Box<Ast>>, Seq<Ast>),
    Eof,
}

pub open spec fn node_view(n: Node) -> Ast
    decreases n,
{
    match n {
        Node::NumberExpression(t) => Ast::Number(t@),
        Node::NegativeNumberExpression(e) => Ast::Negative(Box::new(node_view(*e))),
        Node::LiteralExpression(t, k) => Ast::Literal(t@, k),
        Node::IdentifierExpression(name) => Ast::Identifier(name@),
        Node::BinaryExpr { l_expr, operator, r_expr } => Ast::Binary(
            Box::new(node_view(*l_expr)),
            operator@,
            Box::new(node_view(*r_expr)),
        ),
        Node::AssignmentExpression { identifier, assignment_operator, expr } => Ast::Assignment(
            Box::new(node_view(*identifier)),
            assignment_operator@,
            Box::new(node_view(*expr)),
        ),
        Node::ConditionExpression { l_expr, operator, r_expr } => Ast::Condition(
            Box::new(node_view(*l_expr)),
            operator@,
            Box::new(node_view(*r_expr)),
        ),
        Node::IfExpression { condition, then_branch, else_branch } => Ast::If(
            option_view(*condition),
            nodes_view(then_branch@),
            option_view(*else_branch),
        ),
        Node::ElseExpression { condition, then_branch, else_branch } => Ast::Else(
            option_view(*condition),
            nodes_view(then_branch@),
            option_view(*else_branch),
        ),
        Node::WhileExpression { condition, then_branch } => Ast::While(
            option_view(*condition),
            nodes_view(then_branch@),
        ),
        Node::EOF(_) => Ast::Eof,
    }
}

pub open spec fn option_view(o: Option<Node>) -> Option<Box<Ast>>
    decreases o,
{
    match o {
        Some(n) => Some(Box::new(node_view(n))),
        None => None,
    }
}

pub open spec fn nodes_view(s: Seq<Node>) -> Seq<Ast>
    decreases s,
{
    if s.len() == 0 {
        Seq::empty()
    } else {
        nodes_view(s.drop_last()).push(node_view(s.last()))
    }
}

impl View for Node {
    type V = Ast;

    open spec fn view(&self) -> Ast {
        node_view(*self)
    }
}

/// An optional link of an `elif`/`else` chain: absent, or an `ElseExpression`.
pub open spec fn is_chain_link(e: Option<Node>) -> bool {
    e matches Some(n) ==> n is ElseExpression
}

/// The shape that the parser guarantees, at every depth of the tree:
/// binary nodes carry an arithmetic operator, an assignment's target is an
/// identifier, a condition tests equality, an `if` has a condition, and an
/// `elif`/`else` chain ends at most once, with its unconditional `else`;
/// and the end-of-input node stands nowhere.
pub open spec fn well_formed(n: Node) -> bool
    decreases n,
{
    match n {
        Node::NegativeNumberExpression(e) => well_formed(*e),
        Node::BinaryExpr { l_expr, operator, r_expr } => is_binary_operator(operator)
            && well_formed(*l_expr) && well_formed(*r_expr),
        Node::AssignmentExpression { identifier, assignment_operator, expr } => {
            &&& *identifier is IdentifierExpression
            &&& assignment_operator is Assignment
            &&& well_formed(*expr)
        },
        Node::ConditionExpression { l_expr, operator, r_expr } => {
            &&& (*l_expr is IdentifierExpression || *l_expr is NumberExpression)
            &&& operator is Equals
            &&& well_formed(*r_expr)
        },
        Node::IfExpression { condition, then_branch, else_branch } => {
            &&& condition.is_some()
            &&& well_formed(condition.unwrap())
            &&& forall|i: int| 0 <= i < then_branch@.len() ==> well_formed(#[trigger] then_branch@[i])
            &&& is_chain_link(*else_branch)
            &&& (else_branch.is_some() ==> well_formed(else_branch.unwrap()))
        },
        Node::ElseExpression { condition, then_branch, else_branch } => {
            &&& (condition.is_some() ==> well_formed(condition.unwrap()))
            &&& (condition.is_none() ==> else_branch.is_none())
            &&& forall|i: int| 0 <= i < then_branch@.len() ==> well_formed(#[trigger] then_branch@[i])
            &&& is_chain_link(*else_branch)
            &&& (else_branch.is_some() ==> well_formed(else_branch.unwrap()))
        },
        Node::WhileExpression { condition, then_branch } => {
            &&& (condition.is_some() ==> well_formed(condition.unwrap()))
            &&& forall|i: int| 0 <= i < then_branch@.len() ==> well_formed(#[trigger] then_branch@[i])
        },
        Node::EOF(_) => false,
        _ => true,
    }
}

/// The symbol of an arithmetic operator.
pub open spec fn operator_text(t: TokenView) -> Seq<char> {
    match t {
        TokenView::Add => "+"@,
        TokenView::Subtract => "-"@,
        TokenView::Multiply => "*"@,
        TokenView::Divide => "/"@,
        TokenView::Pow => "^"@,
        _ => "?"@,
    }
}

/// A one-line rendering of an expression, used in diagnostics.
pub open spec fn ast_text(a: Ast) -> Seq<char>
    decreases a,
{
    match a {
        Ast::Number(t) => t,
        Ast::Negative(e) => "-"@ + ast_text(*e),
        Ast::Literal(t, _) => t,
        Ast::Identifier(name) => name,
        Ast::Binary(l, op, r) => "("@ + ast_text(*l) + " "@ + operator_text(op) + " "@ + ast_text(*r)
            + ")"@,
        Ast::Assignment(l, _, r) => ast_text(*l) + " = "@ + ast_text(*r),
        Ast::Condition(l, _, r) => ast_text(*l) + " == "@ + ast_text(*r),
        Ast::If(..) => "if"@,
        Ast::Else(..) => "else"@,
        Ast::While(..) => "while"@,
        Ast::Eof => "end of input"@,
    }
}

impl Node {
    /// Appends `ast_text(self@)` to `out`.
    pub fn write_text(&self, out: &mut String)
        ensures
            final(out)@ == old(out)@ + ast_text(self@),
        decreases self,
    {
        match self {
            Node::NumberExpression(t) => out.append(t.as_str()),
            Node::NegativeNumberExpression(e) => {
                out.append("-");
                e.write_text(out);
            },
            Node::LiteralExpression(t, _) => out.append(t.as_str()),
            Node::IdentifierExpression(name) => out.append(name.as_str()),
            Node::BinaryExpr { l_expr, operator, r_expr } => {
                out.append("(");
                l_expr.write_text(out);
                out.append(" ");
                let sym = match operator {
                    Token::Add => "+",
                    Token::Subtract => "-",
                    Token::Multiply => "*",
                    Token::Divide => "/",
                    Token::Pow => "^",
                    _ => "?",
                };
                out.append(sym);
                out.append(" ");
                r_expr.write_text(out);
                out.append(")");
            },
            Node::AssignmentExpression { identifier, expr, .. } => {
                identifier.write_text(out);
                out.append(" = ");
                expr.write_text(out);
            },
            Node::ConditionExpression { l_expr, r_expr, .. } => {
                l_expr.write_text(out);
                out.append(" == ");
                r_expr.write_text(out);
            },
            Node::IfExpression { .. } => out.append("if"),
            Node::ElseExpression { .. } => out.append("else"),
            Node::WhileExpression { .. } => out.append("while"),
            Node::EOF(_) => out.append("end of input"),
        }
        proof {
            assert(final(out)@ =~= old(out)@ + ast_text(self@));
        }
    }

    /// `ast_text(self@)` as a string.
    pub fn describe(&self) -> (r: String)
        ensures
            r@ == ast_text(self@),
    {
        let mut s = String::new();
        self.write_text(&mut s);
        proof {
            assert(s@ =~= ast_text(self@));
        }
        s
    }
}

} // verus!
