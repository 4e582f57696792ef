//! Tokens: the typed units the lexer produces, each carrying its source
//! position (line, column, character index, width) and the text of the line
//! it came from, for diagnostics.

use vstd::prelude::*;

use crate::errors::{Error, ErrorLocation};

verus! {

/// The kind of a token, with its payload where it has one. Floats are
/// carried as IEEE double bit patterns.
#[derive(Debug, Clone, PartialEq)]
pub enum TokenType {
    // Literals
    Bool(bool),
    Int(i64),
    Float(u64),
    Str(String),
    // Identifiers
    Identifier(String),
    // Keywords
    Goto,
    If,
    Call,
    Ret,
    // Single-character tokens
    Colon,
    Equals,
    At,
    Tilde,
    Plus,
    Minus,
    Star,
    Slash,
    Percent,
    Less,
    Greater,
    // Two-character tokens
    EqualsEquals,
    BangEquals,
    LessEquals,
    GreaterEquals,
    // Meta
    EOS,
    EOF,
}

/// The mathematical value of a [`TokenType`]: text payloads as character
/// sequences.
pub enum TokenTypeV {
    Bool(bool),
    Int(i64),
    Float(u64),
    Str(Seq<char>),
    Identifier(Seq<char>),
    Goto,
    If,
    Call,
    Ret,
    Colon,
    Equals,
    At,
    Tilde,
    Plus,
    Minus,
    Star,
    Slash,
    Percent,
    Less,
    Greater,
    EqualsEquals,
    BangEquals,
    LessEquals,
    GreaterEquals,
    EOS,
    EOF,
}

impl View for TokenType {
    type V = TokenTypeV;

    open spec fn view(&self) -> TokenTypeV {
        match self {
            TokenType::Bool(b) => TokenTypeV::Bool(*b),
            TokenType::Int(i) => TokenTypeV::Int(*i),
            TokenType::Float(f) => TokenTypeV::Float(*f),
            TokenType::Str(s) => TokenTypeV::Str(s@),
            TokenType::Identifier(s) => TokenTypeV::Identifier(s@),
            TokenType::Goto => TokenTypeV::Goto,
            TokenType::If => TokenTypeV::If,
            TokenType::Call => TokenTypeV::Call,
            TokenType::Ret => TokenTypeV::Ret,
            TokenType::Colon => TokenTypeV::Colon,
            TokenType::Equals => TokenTypeV::Equals,
            TokenType::At => TokenTypeV::At,
            TokenType::Tilde => TokenTypeV::Tilde,
            TokenType::Plus => TokenTypeV::Plus,
            TokenType::Minus => TokenTypeV::Minus,
            TokenType::Star => TokenTypeV::Star,
            TokenType::Slash => TokenTypeV::Slash,
            TokenType::Percent => TokenTypeV::Percent,
            TokenType::Less => TokenTypeV::Less,
            TokenType::Greater => TokenTypeV::Greater,
            TokenType::EqualsEquals => TokenTypeV::EqualsEquals,
            TokenType::BangEquals => TokenTypeV::BangEquals,
            TokenType::LessEquals => TokenTypeV::LessEquals,
            TokenType::GreaterEquals => TokenTypeV::GreaterEquals,
            TokenType::EOS => TokenTypeV::EOS,
            TokenType::EOF => TokenTypeV::EOF,
        }
    }
}

impl DeepView for TokenType {
    type V = TokenTypeV;

    open spec fn deep_view(&self) -> TokenTypeV {
        self.view()
    }
}

/// A token, immutable once produced: its kind, its position (1-based line
/// and column, 0-based character index into the file, width in characters),
/// the file it came from, and the text of its source line.
#[derive(Debug, Clone, PartialEq)]
pub struct Token {
    pub token_type: TokenType,

    pub line: usize,
    pub column: usize,
    pub index: usize,
    pub width: usize,
    pub file: String,

    pub context: String,
}

/// The mathematical value of a [`Token`].
pub struct TokenV {
    pub token_type: TokenTypeV,
    pub line: int,
    pub column: int,
    pub index: int,
    pub width: int,
    pub file: Seq<char>,
    pub context: Seq<char>,
}

impl View for Token {
    type V = TokenV;

    open spec fn view(&self) -> TokenV {
        TokenV {
            token_type: self.token_type@,
            line: self.line as int,
            column: self.column as int,
            index: self.index as int,
            width: self.width as int,
            file: self.file@,
            context: self.context@,
        }
    }
}

impl DeepView for Token {
    type V = TokenV;

    open spec fn deep_view(&self) -> TokenV {
        self.view()
    }
}

impl TokenTypeV {
    /// Whether the kind is a literal: boolean, integer, float or string.
    pub open spec fn is_literal(self) -> bool {
        self is Bool || self is Int || self is Float || self is Str
    }

    /// Whether the kind is a literal or an identifier.
    pub open spec fn is_value(self) -> bool {
        self.is_literal() || self is Identifier
    }

    /// Whether the kind is one of the six comparison operators.
    pub open spec fn is_compare(self) -> bool {
        self is EqualsEquals || self is BangEquals || self is LessEquals
            || self is GreaterEquals || self is Less || self is Greater
    }

    /// Whether the kind is one of the five arithmetic operators.
    pub open spec fn is_binop(self) -> bool {
        self is Plus || self is Minus || self is Star || self is Slash || self is Percent
    }
}

impl Token {
    /// Packs the fields of a token, in the order: kind, line, column,
    /// character index, width, file, source line text.
    pub fn new(
        token_type: TokenType,
        line: usize,
        column: usize,
        index: usize,
        width: usize,
        file: String,
        context: String,
    ) -> (r: Token)
        ensures
            r == (Token { token_type, line, column, index, width, file, context }),
    {
        Token { token_type, line, column, index, width, file, context }
    }

    /// A parsing-stage diagnostic anchored at this token's position.
    pub fn error(&self, message: String) -> (r: Error)
        ensures
            r.line == self.line,
            r.column == self.column,
            r.index == self.index,
            r.width == self.width,
            r.file == self.file,
            r.message == message,
            r.context == self.context,
            r.location == ErrorLocation::Parser,
    {
        Error::new(
            self.line,
            self.column,
            self.index,
            self.width,
            self.file.clone(),
            message,
            self.context.clone(),
            ErrorLocation::Parser,
        )
    }

    /// An equal copy of this token.
    pub fn dup(&self) -> (r: Token)
        ensures
            r == *self,
    {
        let token_type = match &self.token_type {
            TokenType::Bool(b) => TokenType::Bool(*b),
            TokenType::Int(i) => TokenType::Int(*i),
            TokenType::Float(f) => TokenType::Float(*f),
            TokenType::Str(s) => TokenType::Str(s.clone()),
            TokenType::Identifier(s) => TokenType::Identifier(s.clone()),
            TokenType::Goto => TokenType::Goto,
            TokenType::If => TokenType::If,
            TokenType::Call => TokenType::Call,
            TokenType::Ret => TokenType::Ret,
            TokenType::Colon => TokenType::Colon,
            TokenType::Equals => TokenType::Equals,
            TokenType::At => TokenType::At,
            TokenType::Tilde => TokenType::Tilde,
            TokenType::Plus => TokenType::Plus,
            TokenType::Minus => TokenType::Minus,
            TokenType::Star => TokenType::Star,
            TokenType::Slash => TokenType::Slash,
            TokenType::Percent => TokenType::Percent,
            TokenType::Less => TokenType::Less,
            TokenType::Greater => TokenType::Greater,
            TokenType::EqualsEquals => TokenType::EqualsEquals,
            TokenType::BangEquals => TokenType::BangEquals,
            TokenType::LessEquals => TokenType::LessEquals,
            TokenType::GreaterEquals => TokenType::GreaterEquals,
            TokenType::EOS => TokenType::EOS,
            TokenType::EOF => TokenType::EOF,
        };
        Token {
            token_type,
            line: self.line,
            column: self.column,
            index: self.index,
            width: self.width,
            file: self.file.clone(),
            context: self.context.clone(),
        }
    }

    /// Whether this token is a literal: boolean, integer, float or string.
    pub fn is_literal(&self) -> (r: bool)
        ensures
            r == self@.token_type.is_literal(),
    {
        match self.token_type {
            TokenType::Bool(_) | TokenType::Int(_) | TokenType::Float(_) | TokenType::Str(_) =>
                true,
            _ => false,
        }
    }

    /// Whether this token is an identifier.
    pub fn is_identifier(&self) -> (r: bool)
        ensures
            r == (self@.token_type is Identifier),
    {
        match self.token_type {
            TokenType::Identifier(_) => true,
            _ => false,
        }
    }

    /// Whether this token is a string literal.
    pub fn is_string(&self) -> (r: bool)
        ensures
            r == (self@.token_type is Str),
    {
        match self.token_type {
            TokenType::Str(_) => true,
            _ => false,
        }
    }

    /// Whether this token is a literal or an identifier.
    pub fn is_value(&self) -> (r: bool)
        ensures
            r == self@.token_type.is_value(),
    {
        self.is_literal() || self.is_identifier()
    }

    /// Whether this token is one of the six comparison operators.
    pub fn is_compare(&self) -> (r: bool)
        ensures
            r == self@.token_type.is_compare(),
    {
        match self.token_type {
            TokenType::EqualsEquals
            | TokenType::BangEquals
            | TokenType::LessEquals
            | TokenType::GreaterEquals
            | TokenType::Less
            | TokenType::Greater => true,
            _ => false,
        }
    }

    /// Whether this token is one of the five arithmetic operators.
    pub fn is_binop(&self) -> (r: bool)
        ensures
            r == self@.token_type.is_binop(),
    {
        match self.token_type {
            TokenType::Plus
            | TokenType::Minus
            | TokenType::Star
            | TokenType::Slash
            | TokenType::Percent => true,
            _ => false,
        }
    }
}

} // verus!
