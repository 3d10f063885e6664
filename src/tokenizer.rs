use vstd::prelude::*;
use vstd::string::*;
use crate::token::{Keyword, Token, TokenView};

verus! {

pub open spec fn is_digit(c: char) -> bool {
    '0' <= c && c <= '9'
}

pub open spec fn is_lower(c: char) -> bool {
    'a' <= c && c <= 'z'
}

/// The characters that separate tokens and end a word.
pub open spec fn is_blank(c: char) -> bool {
    c == ' ' || c == '\n' || c == '\r' || c == '\t'
}

/// First index at or after `i` that does not hold a digit (or the end).
pub open spec fn digits_end(s: Seq<char>, i: int) -> int
    decreases s.len() - i,
{
    if i < 0 || i >= s.len() || !is_digit(s[i]) {
        i
    } else {
        digits_end(s, i + 1)
    }
}

/// End of a numeric literal starting at `i`: digits, then at most one
/// decimal point followed by digits.
pub open spec fn number_end(s: Seq<char>, i: int) -> int {
    let j = digits_end(s, i);
    if j < s.len() && s[j] == '.' {
        digits_end(s, j + 1)
    } else {
        j
    }
}

/// First index at or after `i` that holds a blank (or the end).
pub open spec fn word_end(s: Seq<char>, i: int) -> int
    decreases s.len() - i,
{
    if i < 0 || i >= s.len() || is_blank(s[i]) {
        i
    } else {
        word_end(s, i + 1)
    }
}

/// First index at or after `i` that holds a double quote (or the end).
pub open spec fn quote_end(s: Seq<char>, i: int) -> int
    decreases s.len() - i,
{
    if i < 0 || i >= s.len() || s[i] == '"' {
        i
    } else {
        quote_end(s, i + 1)
    }
}

/// The reserved-word table.
pub open spec fn keyword_of(w: Seq<char>) -> Option<Keyword> {
    if w == seq!['t', 'r', 'u', 'e'] {
        Some(Keyword::True)
    } else if w == seq!['f', 'a', 'l', 's', 'e'] {
        Some(Keyword::False)
    } else if w == seq!['i', 'f'] {
        Some(Keyword::IF)
    } else if w == seq!['e', 'n', 'd', 'i', 'f'] {
        Some(Keyword::ENDIF)
    } else if w == seq!['e', 'l', 's', 'e'] {
        Some(Keyword::ELSE)
    } else if w == seq!['e', 'l', 'i', 'f'] {
        Some(Keyword::ELIF)
    } else if w == seq!['w', 'h', 'i', 'l', 'e'] {
        Some(Keyword::WHILE)
    } else if w == seq!['b', 'r', 'e', 'a', 'k'] {
        Some(Keyword::BREAK)
    } else {
        None
    }
}

/// A word is a keyword literal if the table has it, else an identifier.
pub open spec fn word_token(w: Seq<char>) -> TokenView {
    match keyword_of(w) {
        Some(k) => TokenView::Literal(w, k),
        None => TokenView::Identifier(w),
    }
}

/// The token of a single character that stands for itself.
pub open spec fn single_char_view(c: char) -> Option<TokenView> {
    if c == '+' {
        Some(TokenView::Add)
    } else if c == '-' {
        Some(TokenView::Subtract)
    } else if c == '*' {
        Some(TokenView::Multiply)
    } else if c == '/' {
        Some(TokenView::Divide)
    } else if c == '^' {
        Some(TokenView::Pow)
    } else if c == '(' {
        Some(TokenView::LeftParenthese)
    } else if c == ')' {
        Some(TokenView::RightParenthese)
    } else if c == '{' {
        Some(TokenView::LeftBrace)
    } else if c == '}' {
        Some(TokenView::RightBrace)
    } else if is_blank(c) {
        Some(TokenView::Whitespace)
    } else {
        None
    }
}

/// The scanning rules as a function: the token read at index `i` of `s`
/// and the index after it; `None` where the sequence terminates without a
/// value.
pub open spec fn scan(s: Seq<char>, i: int) -> Option<(TokenView, int)> {
    if i >= s.len() {
        Some((TokenView::EOF, i))
    } else {
        let c = s[i];
        if is_digit(c) {
            let e = number_end(s, i);
            if e < s.len() && s[e] == '(' {
                None
            } else {
                Some((TokenView::Num(s.subrange(i, e)), e))
            }
        } else if is_lower(c) {
            let e = word_end(s, i);
            Some((word_token(s.subrange(i, e)), e))
        } else if c == '"' {
            let e = quote_end(s, i + 1);
            Some(
                (
                    TokenView::Literal(s.subrange(i + 1, e), Keyword::Plain),
                    if e < s.len() {
                        e + 1
                    } else {
                        e
                    },
                ),
            )
        } else if c == '=' {
            if i + 1 < s.len() && s[i + 1] == '=' {
                Some((TokenView::Equals, i + 2))
            } else {
                Some((TokenView::Assignment, i + 1))
            }
        } else if c == '\0' {
            Some((TokenView::EOF, i + 1))
        } else {
            match single_char_view(c) {
                Some(t) => Some((t, i + 1)),
                None => None,
            }
        }
    }
}

/// Relies on String::push: appends one character at the end.
#[verifier::external_body]
fn push_char(s: &mut String, c: char)
    ensures
        final(s)@ == old(s)@.push(c),
{
    s.push(c);
}

/// A forward-only scanner over the characters of a text.
pub struct Tokenizer {
    chars: Vec<char>,
    pos: usize,
}

impl Tokenizer {
    /// The whole text being scanned.
    pub closed spec fn input(&self) -> Seq<char> {
        self.chars@
    }

    /// Index of the next character to read.
    pub closed spec fn position(&self) -> nat {
        self.pos as nat
    }

    pub open spec fn wf(&self) -> bool {
        self.position() <= self.input().len()
    }

    pub fn new(new_expr: &str) -> (r: Tokenizer)
        ensures
            r.input() == new_expr@,
            r.position() == 0,
            r.wf(),
    {
        let n = new_expr.unicode_len();
        let mut chars: Vec<char> = Vec::with_capacity(n);
        let mut i: usize = 0;
        while i < n
            invariant
                n == new_expr@.len(),
                i <= n,
                chars@ == new_expr@.subrange(0, i as int),
            decreases n - i,
        {
            let c = new_expr.get_char(i);
            chars.push(c);
            i = i + 1;
            assert(chars@ =~= new_expr@.subrange(0, i as int));
        }
        assert(chars@ =~= new_expr@);
        Tokenizer { chars, pos: 0 }
    }

    /// Copies the characters `[start, end)` into a new string.
    fn text_between(&self, start: usize, end: usize) -> (r: String)
        requires
            start <= end <= self.chars@.len(),
        ensures
            r@ == self.chars@.subrange(start as int, end as int),
    {
        let mut s = String::new();
        let mut k = start;
        while k < end
            invariant
                start <= k <= end <= self.chars@.len(),
                s@ == self.chars@.subrange(start as int, k as int),
            decreases end - k,
        {
            push_char(&mut s, self.chars[k]);
            k = k + 1;
            assert(s@ =~= self.chars@.subrange(start as int, k as int));
        }
        s
    }

    /// First index at or after `i` that does not hold a digit.
    fn skip_digits(&self, i: usize) -> (r: usize)
        requires
            i <= self.chars@.len(),
        ensures
            r as int == digits_end(self.chars@, i as int),
            i <= r <= self.chars@.len(),
            i < self.chars@.len() && is_digit(self.chars@[i as int]) ==> i < r,
    {
        let n = self.chars.len();
        let mut j = i;
        while j < n && '0' <= self.chars[j] && self.chars[j] <= '9'
            invariant
                i <= j <= n,
                n == self.chars@.len(),
                digits_end(self.chars@, j as int) == digits_end(self.chars@, i as int),
            decreases n - j,
        {
            j = j + 1;
        }
        j
    }

    /// First index at or after `i` that holds a blank.
    fn skip_word(&self, i: usize) -> (r: usize)
        requires
            i <= self.chars@.len(),
        ensures
            r as int == word_end(self.chars@, i as int),
            i <= r <= self.chars@.len(),
            i < self.chars@.len() && !is_blank(self.chars@[i as int]) ==> i < r,
    {
        let n = self.chars.len();
        let mut j = i;
        while j < n && !(self.chars[j] == ' ' || self.chars[j] == '\n' || self.chars[j] == '\r'
            || self.chars[j] == '\t')
            invariant
                i <= j <= n,
                n == self.chars@.len(),
                word_end(self.chars@, j as int) == word_end(self.chars@, i as int),
            decreases n - j,
        {
            j = j + 1;
        }
        j
    }

    /// First index at or after `i` that holds a double quote.
    fn skip_to_quote(&self, i: usize) -> (r: usize)
        requires
            i <= self.chars@.len(),
        ensures
            r as int == quote_end(self.chars@, i as int),
            i <= r <= self.chars@.len(),
    {
        let n = self.chars.len();
        let mut j = i;
        while j < n && self.chars[j] != '"'
            invariant
                i <= j <= n,
                n == self.chars@.len(),
                quote_end(self.chars@, j as int) == quote_end(self.chars@, i as int),
            decreases n - j,
        {
            j = j + 1;
        }
        j
    }

    /// Whether the characters `[start, end)` spell `w`.
    fn spells(&self, start: usize, end: usize, w: &str) -> (r: bool)
        requires
            start <= end <= self.chars@.len(),
        ensures
            r == (self.chars@.subrange(start as int, end as int) == w@),
    {
        let n = w.unicode_len();
        if end - start != n {
            return false;
        }
        let mut k: usize = 0;
        while k < n
            invariant
                n == w@.len(),
                end - start == n,
                start <= end <= self.chars@.len(),
                k <= n,
                forall|m: int| 0 <= m < k ==> self.chars@[start + m] == w@[m],
            decreases n - k,
        {
            if self.chars[start + k] != w.get_char(k) {
                assert(self.chars@.subrange(start as int, end as int)[k as int] != w@[k as int]);
                return false;
            }
            k = k + 1;
        }
        assert(self.chars@.subrange(start as int, end as int) =~= w@);
        true
    }

    /// The keyword that the characters `[start, end)` spell, if any.
    fn keyword_between(&self, start: usize, end: usize) -> (r: Option<Keyword>)
        requires
            start <= end <= self.chars@.len(),
        ensures
            r == keyword_of(self.chars@.subrange(start as int, end as int)),
    {
        proof {
            reveal_strlit("true");
            assert("true"@ =~= seq!['t', 'r', 'u', 'e']);
            reveal_strlit("false");
            assert("false"@ =~= seq!['f', 'a', 'l', 's', 'e']);
            reveal_strlit("if");
            assert("if"@ =~= seq!['i', 'f']);
            reveal_strlit("endif");
            assert("endif"@ =~= seq!['e', 'n', 'd', 'i', 'f']);
            reveal_strlit("else");
            assert("else"@ =~= seq!['e', 'l', 's', 'e']);
            reveal_strlit("elif");
            assert("elif"@ =~= seq!['e', 'l', 'i', 'f']);
            reveal_strlit("while");
            assert("while"@ =~= seq!['w', 'h', 'i', 'l', 'e']);
            reveal_strlit("break");
            assert("break"@ =~= seq!['b', 'r', 'e', 'a', 'k']);
        }
        if self.spells(start, end, "true") {
            Some(Keyword::True)
        } else if self.spells(start, end, "false") {
            Some(Keyword::False)
        } else if self.spells(start, end, "if") {
            Some(Keyword::IF)
        } else if self.spells(start, end, "endif") {
            Some(Keyword::ENDIF)
        } else if self.spells(start, end, "else") {
            Some(Keyword::ELSE)
        } else if self.spells(start, end, "elif") {
            Some(Keyword::ELIF)
        } else if self.spells(start, end, "while") {
            Some(Keyword::WHILE)
        } else if self.spells(start, end, "break") {
            Some(Keyword::BREAK)
        } else {
            None
        }
    }

    /// Reads the next token. `None` where the text holds a character that
    /// starts no token, or a number runs into an opening parenthesis.
    pub fn next(&mut self) -> (r: Option<Token>)
        requires
            old(self).wf(),
        ensures
            final(self).wf(),
            final(self).input() == old(self).input(),
            old(self).position() <= final(self).position(),
            (r is Some && !(r->Some_0 is EOF)) ==> old(self).position() < final(self).position(),
            match r {
                Some(t) => scan(old(self).input(), old(self).position() as int) == Some(
                    (t@, final(self).position() as int),
                ),
                None => scan(old(self).input(), old(self).position() as int) is None,
            },
    {
        let n = self.chars.len();
        let i = self.pos;
        if i >= n {
            return Some(Token::EOF);
        }
        let c = self.chars[i];
        if '0' <= c && c <= '9' {
            let mut e = self.skip_digits(i);
            if e < n && self.chars[e] == '.' {
                e = self.skip_digits(e + 1);
            }
            if e < n && self.chars[e] == '(' {
                return None;
            }
            let text = self.text_between(i, e);
            self.pos = e;
            Some(Token::Num(text))
        } else if 'a' <= c && c <= 'z' {
            let e = self.skip_word(i);
            let text = self.text_between(i, e);
            let kw = self.keyword_between(i, e);
            self.pos = e;
            match kw {
                Some(k) => Some(Token::Literal { literal: text, keyword: k }),
                None => Some(Token::Identifier(text)),
            }
        } else if c == '"' {
            let e = self.skip_to_quote(i + 1);
            let text = self.text_between(i + 1, e);
            self.pos = if e < n { e + 1 } else { e };
            Some(Token::Literal { literal: text, keyword: Keyword::Plain })
        } else if c == '=' {
            if i + 1 < n && self.chars[i + 1] == '=' {
                self.pos = i + 2;
                Some(Token::Equals)
            } else {
                self.pos = i + 1;
                Some(Token::Assignment)
            }
        } else if c == '\0' {
            self.pos = i + 1;
            Some(Token::EOF)
        } else {
            let t = match c {
                '+' => Token::Add,
                '-' => Token::Subtract,
                '*' => Token::Multiply,
                '/' => Token::Divide,
                '^' => Token::Pow,
                '(' => Token::LeftParenthese,
                ')' => Token::RightParenthese,
                '{' => Token::LeftBrace,
                '}' => Token::RightBrace,
                ' ' | '\n' | '\r' | '\t' => Token::Whitespace,
                _ => {
                    return None;
                },
            };
            self.pos = i + 1;
            Some(t)
        }
    }
}

} // verus!
