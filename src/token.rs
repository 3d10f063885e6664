use vstd::prelude::*;

verus! {

/// Reserved words, and `Plain` for an ordinary string or boolean literal.
#[derive(Debug, Clone, Copy, PartialEq, Eq, Structural)]
pub enum Keyword {
    Plain,
    True,
    False,
    IF,
    ENDIF,
    ELSE,
    ELIF,
    WHILE,
    BREAK,
}

/// One lexical unit. A numeric literal keeps the digits as written; its
/// binary64 value is taken when it is evaluated.
#[derive(Debug, Clone, PartialEq)]
pub enum Token {
    Assignment,
    Add,
    Subtract,
    Equals,
    Multiply,
    Divide,
    Pow,
    LeftParenthese,
    RightParenthese,
    Num(String),
    Literal { literal: String, keyword: Keyword },
    Identifier(String),
    Whitespace,
    EOF,
    LeftBrace,
    RightBrace,
}

/// The mathematical form of a token: its text as a sequence of characters.
pub enum TokenView {
    Assignment,
    Add,
    Subtract,
    Equals,
    Multiply,
    Divide,
    Pow,
    LeftParenthese,
    RightParenthese,
    Num(Seq<char>),
    Literal(Seq<char>, Keyword),
    Identifier(Seq<char>),
    Whitespace,
    EOF,
    LeftBrace,
    RightBrace,
}

impl View for Token {
    type V = TokenView;

    open spec fn view(&self) -> TokenView {
        match *self {
            Token::Assignment => TokenView::Assignment,
            Token::Add => TokenView::Add,
            Token::Subtract => TokenView::Subtract,
            Token::Equals => TokenView::Equals,
            Token::Multiply => TokenView::Multiply,
            Token::Divide => TokenView::Divide,
            Token::Pow => TokenView::Pow,
            Token::LeftParenthese => TokenView::LeftParenthese,
            Token::RightParenthese => TokenView::RightParenthese,
            Token::Num(text) => TokenView::Num(text@),
            Token::Literal { literal, keyword } => TokenView::Literal(literal@, keyword),
            Token::Identifier(name) => TokenView::Identifier(name@),
            Token::Whitespace => TokenView::Whitespace,
            Token::EOF => TokenView::EOF,
            Token::LeftBrace => TokenView::LeftBrace,
            Token::RightBrace => TokenView::RightBrace,
        }
    }
}

/// The precedence of a token: the binary operators have their own levels,
/// every other token has `Default`.
pub open spec fn precedence_of_view(t: TokenView) -> Precedence {
    match t {
        TokenView::Add | TokenView::Subtract => Precedence::AddAndSubtract,
        TokenView::Multiply | TokenView::Divide => Precedence::MultiplyAndDivide,
        TokenView::Pow => Precedence::Power,
        _ => Precedence::Default,
    }
}

/// Whether a token is one of the five binary arithmetic operators.
pub open spec fn is_operator_view(t: TokenView) -> bool {
    t is Add || t is Subtract || t is Multiply || t is Divide || t is Pow
}

/// Binding strength of operators, weakest first.
#[derive(Debug, Clone, Copy, PartialEq, Eq, Structural)]
pub enum Precedence {
    Default,
    AddAndSubtract,
    MultiplyAndDivide,
    Power,
    NegativeValue,
}

impl Precedence {
    /// Position of the level in the order `Default < ... < NegativeValue`.
    pub open spec fn level(self) -> nat {
        match self {
            Precedence::Default => 0,
            Precedence::AddAndSubtract => 1,
            Precedence::MultiplyAndDivide => 2,
            Precedence::Power => 3,
            Precedence::NegativeValue => 4,
        }
    }

    /// Executable form of `level`.
    pub fn rank(&self) -> (r: u8)
        ensures
            r as nat == self.level(),
    {
        match self {
            Precedence::Default => 0,
            Precedence::AddAndSubtract => 1,
            Precedence::MultiplyAndDivide => 2,
            Precedence::Power => 3,
            Precedence::NegativeValue => 4,
        }
    }

    /// Whether `self` binds strictly weaker than `other`.
    pub fn is_below(&self, other: &Precedence) -> (r: bool)
        ensures
            r == (self.level() < other.level()),
    {
        self.rank() < other.rank()
    }
}

/// The precedence of a token: the binary operators have their own levels,
/// every other token has `Default`.
pub open spec fn precedence_of(t: Token) -> Precedence {
    precedence_of_view(t@)
}

/// Whether a token is one of the five binary arithmetic operators.
pub open spec fn is_binary_operator(t: Token) -> bool {
    is_operator_view(t@)
}

impl Token {
    pub fn get_precedence(&self) -> (r: Precedence)
        ensures
            r == precedence_of(*self),
    {
        match self {
            Token::Add | Token::Subtract => Precedence::AddAndSubtract,
            Token::Multiply | Token::Divide => Precedence::MultiplyAndDivide,
            Token::Pow => Precedence::Power,
            _ => Precedence::Default,
        }
    }

    /// A copy of the token.
    pub fn copy(&self) -> (r: Token)
        ensures
            r == *self,
    {
        match self {
            Token::Assignment => Token::Assignment,
            Token::Add => Token::Add,
            Token::Subtract => Token::Subtract,
            Token::Equals => Token::Equals,
            Token::Multiply => Token::Multiply,
            Token::Divide => Token::Divide,
            Token::Pow => Token::Pow,
            Token::LeftParenthese => Token::LeftParenthese,
            Token::RightParenthese => Token::RightParenthese,
            Token::Num(s) => Token::Num(s.clone()),
            Token::Literal { literal, keyword } => Token::Literal {
                literal: literal.clone(),
                keyword: *keyword,
            },
            Token::Identifier(s) => Token::Identifier(s.clone()),
            Token::Whitespace => Token::Whitespace,
            Token::EOF => Token::EOF,
            Token::LeftBrace => Token::LeftBrace,
            Token::RightBrace => Token::RightBrace,
        }
    }
}

} // verus!
