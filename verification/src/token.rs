//! Tokens: what the scanner hands to its caller.

use vstd::prelude::*;
use vstd::string::StringExecFns;

verus! {

/// The category of a token.
#[derive(Debug, PartialEq, Eq, Structural, Copy, Clone)]
pub enum TokenType {
    LeftParen,
    RightParen,
    LeftBrace,
    RightBrace,
    Comma,
    Dot,
    Minus,
    Plus,
    Semicolon,
    Slash,
    Star,
    Bang,
    BangEqual,
    Equal,
    EqualEqual,
    Greater,
    GreaterEqual,
    Less,
    LessEqual,
    Identifier,
    String,
    Number,
    And,
    Class,
    Else,
    False,
    Fun,
    For,
    If,
    Nil,
    Or,
    Print,
    Return,
    Super,
    This,
    True,
    Var,
    While,
    EOF,
}

impl TokenType {
    /// The name of the kind, spelled as in this enumeration.
    pub open spec fn name(self) -> Seq<char> {
        match self {
            TokenType::LeftParen => "LeftParen"@,
            TokenType::RightParen => "RightParen"@,
            TokenType::LeftBrace => "LeftBrace"@,
            TokenType::RightBrace => "RightBrace"@,
            TokenType::Comma => "Comma"@,
            TokenType::Dot => "Dot"@,
            TokenType::Minus => "Minus"@,
            TokenType::Plus => "Plus"@,
            TokenType::Semicolon => "Semicolon"@,
            TokenType::Slash => "Slash"@,
            TokenType::Star => "Star"@,
            TokenType::Bang => "Bang"@,
            TokenType::BangEqual => "BangEqual"@,
            TokenType::Equal => "Equal"@,
            TokenType::EqualEqual => "EqualEqual"@,
            TokenType::Greater => "Greater"@,
            TokenType::GreaterEqual => "GreaterEqual"@,
            TokenType::Less => "Less"@,
            TokenType::LessEqual => "LessEqual"@,
            TokenType::Identifier => "Identifier"@,
            TokenType::String => "String"@,
            TokenType::Number => "Number"@,
            TokenType::And => "And"@,
            TokenType::Class => "Class"@,
            TokenType::Else => "Else"@,
            TokenType::False => "False"@,
            TokenType::Fun => "Fun"@,
            TokenType::For => "For"@,
            TokenType::If => "If"@,
            TokenType::Nil => "Nil"@,
            TokenType::Or => "Or"@,
            TokenType::Print => "Print"@,
            TokenType::Return => "Return"@,
            TokenType::Super => "Super"@,
            TokenType::This => "This"@,
            TokenType::True => "True"@,
            TokenType::Var => "Var"@,
            TokenType::While => "While"@,
            TokenType::EOF => "EOF"@,
        }
    }

    /// The name of the kind, spelled as in this enumeration.
    pub fn as_str(&self) -> (name: &'static str)
        ensures
            name@ == self.name(),
    {
        match self {
            TokenType::LeftParen => "LeftParen",
            TokenType::RightParen => "RightParen",
            TokenType::LeftBrace => "LeftBrace",
            TokenType::RightBrace => "RightBrace",
            TokenType::Comma => "Comma",
            TokenType::Dot => "Dot",
            TokenType::Minus => "Minus",
            TokenType::Plus => "Plus",
            TokenType::Semicolon => "Semicolon",
            TokenType::Slash => "Slash",
            TokenType::Star => "Star",
            TokenType::Bang => "Bang",
            TokenType::BangEqual => "BangEqual",
            TokenType::Equal => "Equal",
            TokenType::EqualEqual => "EqualEqual",
            TokenType::Greater => "Greater",
            TokenType::GreaterEqual => "GreaterEqual",
            TokenType::Less => "Less",
            TokenType::LessEqual => "LessEqual",
            TokenType::Identifier => "Identifier",
            TokenType::String => "String",
            TokenType::Number => "Number",
            TokenType::And => "And",
            TokenType::Class => "Class",
            TokenType::Else => "Else",
            TokenType::False => "False",
            TokenType::Fun => "Fun",
            TokenType::For => "For",
            TokenType::If => "If",
            TokenType::Nil => "Nil",
            TokenType::Or => "Or",
            TokenType::Print => "Print",
            TokenType::Return => "Return",
            TokenType::Super => "Super",
            TokenType::This => "This",
            TokenType::True => "True",
            TokenType::Var => "Var",
            TokenType::While => "While",
            TokenType::EOF => "EOF",
        }
    }
}

/// The value that a token carries besides its lexeme.
///
/// A number is held as its decimal numeral, exactly as written: one or more
/// digits, optionally followed by a dot and one or more digits. Turning the
/// numeral into a binary floating-point value is left to the caller.
#[derive(Debug, PartialEq, Eq)]
pub enum Literal {
    String(String),
    Number(String),
    Boolean(bool),
    Nil,
}

/// What a [`Literal`] is, with texts as sequences of characters.
pub enum LiteralView {
    String(Seq<char>),
    Number(Seq<char>),
    Boolean(bool),
    Nil,
}

impl LiteralView {
    /// The literal as it is shown: a string by its content, a number by its
    /// numeral, a boolean as `true` or `false`, and no literal as nothing.
    pub open spec fn text(self) -> Seq<char> {
        match self {
            LiteralView::String(s) => s,
            LiteralView::Number(s) => s,
            LiteralView::Boolean(b) => if b {
                "true"@
            } else {
                "false"@
            },
            LiteralView::Nil => Seq::empty(),
        }
    }
}

impl View for Literal {
    type V = LiteralView;

    open spec fn view(&self) -> LiteralView {
        match self {
            Literal::String(s) => LiteralView::String(s@),
            Literal::Number(s) => LiteralView::Number(s@),
            Literal::Boolean(b) => LiteralView::Boolean(*b),
            Literal::Nil => LiteralView::Nil,
        }
    }
}

impl Clone for Literal {
    fn clone(&self) -> (res: Self)
        ensures
            res == *self,
    {
        match self {
            Literal::String(s) => Literal::String(s.clone()),
            Literal::Number(s) => Literal::Number(s.clone()),
            Literal::Boolean(b) => Literal::Boolean(*b),
            Literal::Nil => Literal::Nil,
        }
    }
}

/// A classified lexeme with its literal value and the line it stands on.
#[derive(Debug, PartialEq, Eq)]
pub struct Token {
    token_type: TokenType,
    lexeme: String,
    literal: Literal,
    line: i32,
}

/// What a [`Token`] is, with texts as sequences of characters.
pub struct TokenView {
    pub kind: TokenType,
    pub lexeme: Seq<char>,
    pub literal: LiteralView,
    pub line: int,
}

impl TokenView {
    /// The token as it is shown: the name of its kind, its lexeme and, where
    /// it has one, its literal, with one space between them.
    pub open spec fn text(self) -> Seq<char> {
        let head = self.kind.name() + " "@ + self.lexeme;
        if self.literal is Nil {
            head
        } else {
            head + " "@ + self.literal.text()
        }
    }
}

impl View for Token {
    type V = TokenView;

    closed spec fn view(&self) -> TokenView {
        TokenView {
            kind: self.token_type,
            lexeme: self.lexeme@,
            literal: self.literal@,
            line: self.line as int,
        }
    }
}

impl Clone for Token {
    fn clone(&self) -> (res: Self)
        ensures
            res == *self,
    {
        Token {
            token_type: self.token_type,
            lexeme: self.lexeme.clone(),
            literal: self.literal.clone(),
            line: self.line,
        }
    }
}

impl Token {
    pub fn new(token_type: TokenType, lexeme: String, literal: Literal, line: i32) -> (token: Token)
        ensures
            token@ == (TokenView { kind: token_type, lexeme: lexeme@, literal: literal@, line: line as int }),
    {
        Token { token_type, lexeme, literal, line }
    }

    /// The token as a line of text. See [`TokenView::text`].
    pub fn to_string(&self) -> (text: String)
        ensures
            text@ == self@.text(),
    {
        let mut text = self.token_type.as_str().to_owned();
        text.append(" ");
        text.append(self.lexeme.as_str());
        match &self.literal {
            Literal::String(s) => {
                text.append(" ");
                text.append(s.as_str());
            },
            Literal::Number(s) => {
                text.append(" ");
                text.append(s.as_str());
            },
            Literal::Boolean(b) => {
                text.append(" ");
                if *b {
                    text.append("true");
                } else {
                    text.append("false");
                }
            },
            Literal::Nil => {},
        }
        text
    }

    /// The token's category.
    pub fn token_type(&self) -> (kind: TokenType)
        ensures
            kind == self@.kind,
    {
        self.token_type
    }

    /// The text that the token was read from.
    pub fn lexeme(&self) -> (text: &String)
        ensures
            text@ == self@.lexeme,
    {
        &self.lexeme
    }

    /// The value that the token carries.
    pub fn literal(&self) -> (value: &Literal)
        ensures
            value@ == self@.literal,
    {
        &self.literal
    }

    /// The line that the token stands on.
    pub fn line(&self) -> (line: i32)
        ensures
            line == self@.line,
    {
        self.line
    }
}

/// The views of a sequence of tokens, in order.
pub open spec fn token_views(tokens: Seq<Token>) -> Seq<TokenView> {
    Seq::new(tokens.len(), |i: int| tokens[i]@)
}

} // verus!
