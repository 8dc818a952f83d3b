//! Tokens, the lexical units that the lexer produces and the parser consumes.

use vstd::prelude::*;
use vstd::string::StringSliceAdditionalSpecFns;
use vstd::utf8::{decode_utf8, encode_utf8};

verus! {

/// The closed set of kinds a token can have.
#[derive(Debug, Clone, Copy, PartialEq, Eq, Structural)]
pub enum TokenKind {
    Unrecognized,
    EndOfFile,
    LeftParentheses,
    RightParentheses,
    LeftBrace,
    RightBrace,
    Comma,
    Dot,
    Minus,
    Plus,
    Semicolon,
    Slash,
    Star,
    Bang,
    BangEqual,
    Equal,
    EqualEqual,
    Greater,
    GreaterEqual,
    Less,
    LessEqual,
    Identifier,
    StringLiteral,
    NumberLiteral,
    And,
    Class,
    Else,
    False,
    Fun,
    For,
    If,
    Nil,
    Or,
    Print,
    Return,
    Super,
    This,
    True,
    Var,
    While,
}

impl TokenKind {
    /// The kind that a word of letters, digits and underscores stands for:
    /// the keyword it spells, or `Identifier` when it spells none.
    pub open spec fn keyword_kind(text: Seq<char>) -> TokenKind {
        if text == "and"@ {
            TokenKind::And
        } else if text == "class"@ {
            TokenKind::Class
        } else if text == "else"@ {
            TokenKind::Else
        } else if text == "false"@ {
            TokenKind::False
        } else if text == "for"@ {
            TokenKind::For
        } else if text == "fun"@ {
            TokenKind::Fun
        } else if text == "if"@ {
            TokenKind::If
        } else if text == "nil"@ {
            TokenKind::Nil
        } else if text == "or"@ {
            TokenKind::Or
        } else if text == "print"@ {
            TokenKind::Print
        } else if text == "return"@ {
            TokenKind::Return
        } else if text == "super"@ {
            TokenKind::Super
        } else if text == "this"@ {
            TokenKind::This
        } else if text == "true"@ {
            TokenKind::True
        } else if text == "var"@ {
            TokenKind::Var
        } else if text == "while"@ {
            TokenKind::While
        } else {
            TokenKind::Identifier
        }
    }

    /// The kind's name, spelled as its variant is.
    pub open spec fn name(self) -> Seq<char> {
        match self {
            TokenKind::Unrecognized => "Unrecognized"@,
            TokenKind::EndOfFile => "EndOfFile"@,
            TokenKind::LeftParentheses => "LeftParentheses"@,
            TokenKind::RightParentheses => "RightParentheses"@,
            TokenKind::LeftBrace => "LeftBrace"@,
            TokenKind::RightBrace => "RightBrace"@,
            TokenKind::Comma => "Comma"@,
            TokenKind::Dot => "Dot"@,
            TokenKind::Minus => "Minus"@,
            TokenKind::Plus => "Plus"@,
            TokenKind::Semicolon => "Semicolon"@,
            TokenKind::Slash => "Slash"@,
            TokenKind::Star => "Star"@,
            TokenKind::Bang => "Bang"@,
            TokenKind::BangEqual => "BangEqual"@,
            TokenKind::Equal => "Equal"@,
            TokenKind::EqualEqual => "EqualEqual"@,
            TokenKind::Greater => "Greater"@,
            TokenKind::GreaterEqual => "GreaterEqual"@,
            TokenKind::Less => "Less"@,
            TokenKind::LessEqual => "LessEqual"@,
            TokenKind::Identifier => "Identifier"@,
            TokenKind::StringLiteral => "StringLiteral"@,
            TokenKind::NumberLiteral => "NumberLiteral"@,
            TokenKind::And => "And"@,
            TokenKind::Class => "Class"@,
            TokenKind::Else => "Else"@,
            TokenKind::False => "False"@,
            TokenKind::Fun => "Fun"@,
            TokenKind::For => "For"@,
            TokenKind::If => "If"@,
            TokenKind::Nil => "Nil"@,
            TokenKind::Or => "Or"@,
            TokenKind::Print => "Print"@,
            TokenKind::Return => "Return"@,
            TokenKind::Super => "Super"@,
            TokenKind::This => "This"@,
            TokenKind::True => "True"@,
            TokenKind::Var => "Var"@,
            TokenKind::While => "While"@,
        }
    }

    pub fn parse_keyword(identifier_lexeme: &str) -> (kind: Self)
        ensures
            kind == Self::keyword_kind(identifier_lexeme@),
    {
        if same_text(identifier_lexeme, "and") {
            TokenKind::And
        } else if same_text(identifier_lexeme, "class") {
            TokenKind::Class
        } else if same_text(identifier_lexeme, "else") {
            TokenKind::Else
        } else if same_text(identifier_lexeme, "false") {
            TokenKind::False
        } else if same_text(identifier_lexeme, "for") {
            TokenKind::For
        } else if same_text(identifier_lexeme, "fun") {
            TokenKind::Fun
        } else if same_text(identifier_lexeme, "if") {
            TokenKind::If
        } else if same_text(identifier_lexeme, "nil") {
            TokenKind::Nil
        } else if same_text(identifier_lexeme, "or") {
            TokenKind::Or
        } else if same_text(identifier_lexeme, "print") {
            TokenKind::Print
        } else if same_text(identifier_lexeme, "return") {
            TokenKind::Return
        } else if same_text(identifier_lexeme, "super") {
            TokenKind::Super
        } else if same_text(identifier_lexeme, "this") {
            TokenKind::This
        } else if same_text(identifier_lexeme, "true") {
            TokenKind::True
        } else if same_text(identifier_lexeme, "var") {
            TokenKind::Var
        } else if same_text(identifier_lexeme, "while") {
            TokenKind::While
        } else {
            TokenKind::Identifier
        }
    }

    pub fn as_str(&self) -> (name: &'static str)
        ensures
            name@ == self.name(),
    {
        match self {
            TokenKind::Unrecognized => "Unrecognized",
            TokenKind::EndOfFile => "EndOfFile",
            TokenKind::LeftParentheses => "LeftParentheses",
            TokenKind::RightParentheses => "RightParentheses",
            TokenKind::LeftBrace => "LeftBrace",
            TokenKind::RightBrace => "RightBrace",
            TokenKind::Comma => "Comma",
            TokenKind::Dot => "Dot",
            TokenKind::Minus => "Minus",
            TokenKind::Plus => "Plus",
            TokenKind::Semicolon => "Semicolon",
            TokenKind::Slash => "Slash",
            TokenKind::Star => "Star",
            TokenKind::Bang => "Bang",
            TokenKind::BangEqual => "BangEqual",
            TokenKind::Equal => "Equal",
            TokenKind::EqualEqual => "EqualEqual",
            TokenKind::Greater => "Greater",
            TokenKind::GreaterEqual => "GreaterEqual",
            TokenKind::Less => "Less",
            TokenKind::LessEqual => "LessEqual",
            TokenKind::Identifier => "Identifier",
            TokenKind::StringLiteral => "StringLiteral",
            TokenKind::NumberLiteral => "NumberLiteral",
            TokenKind::And => "And",
            TokenKind::Class => "Class",
            TokenKind::Else => "Else",
            TokenKind::False => "False",
            TokenKind::Fun => "Fun",
            TokenKind::For => "For",
            TokenKind::If => "If",
            TokenKind::Nil => "Nil",
            TokenKind::Or => "Or",
            TokenKind::Print => "Print",
            TokenKind::Return => "Return",
            TokenKind::Super => "Super",
            TokenKind::This => "This",
            TokenKind::True => "True",
            TokenKind::Var => "Var",
            TokenKind::While => "While",
        }
    }

    pub fn is_end_of_file(&self) -> (at_end: bool)
        ensures
            at_end == (*self == TokenKind::EndOfFile),
    {
        match self {
            TokenKind::EndOfFile => true,
            _ => false,
        }
    }

    /// Whether this kind is one of `kinds`.
    pub fn is_any(&self, kinds: &[TokenKind]) -> (found: bool)
        ensures
            found == kinds@.contains(*self),
    {
        let mut index: usize = 0;
        while index < kinds.len()
            invariant
                index <= kinds@.len(),
                forall|i: int| 0 <= i < index ==> kinds@[i] != *self,
            decreases kinds@.len() - index,
        {
            if kinds[index] == *self {
                return true;
            }
            index += 1;
        }
        false
    }
}

/// One lexical unit: its kind, the text it was read from, and where that text
/// starts in the source.
#[derive(Debug, Clone, Copy, PartialEq, Eq)]
pub struct Token<'a> {
    pub kind: TokenKind,
    pub lexeme: &'a str,
    pub line: usize,
    pub column: usize,
}

impl<'a> Token<'a> {
    /// What holds of every token that the lexer gives: the end-of-file token
    /// has no text.
    pub open spec fn wf(&self) -> bool {
        self.kind == TokenKind::EndOfFile ==> self.lexeme@.len() == 0
    }

    pub fn new(kind: TokenKind, lexeme: &'a str, line: usize, column: usize) -> (token: Self)
        ensures
            token == (Token { kind, lexeme, line, column }),
    {
        Token { kind, lexeme, line, column }
    }

    pub fn kind(&self) -> (kind: TokenKind)
        ensures
            kind == self.kind,
    {
        self.kind
    }

    pub fn lexeme(&self) -> (lexeme: &'a str)
        ensures
            lexeme == self.lexeme,
    {
        self.lexeme
    }

    /// The token that closes a token stream: it has no text of its own.
    pub fn end_of_file(line: usize, column: usize) -> (token: Token<'static>)
        ensures
            token.wf(),
            token.kind == TokenKind::EndOfFile,
            token.lexeme@ == Seq::<char>::empty(),
            token.line == line,
            token.column == column,
    {
        proof {
            reveal_strlit("");
        }
        Token { kind: TokenKind::EndOfFile, lexeme: "", line, column }
    }

    pub fn is_end_of_file(&self) -> (at_end: bool)
        ensures
            at_end == (self.kind == TokenKind::EndOfFile),
    {
        self.kind.is_end_of_file()
    }

    pub fn line(&self) -> (line: usize)
        ensures
            line == self.line,
    {
        self.line
    }

    pub fn column(&self) -> (column: usize)
        ensures
            column == self.column,
    {
        self.column
    }
}

/// A token that owns a copy of its text, for callers that must outlive the
/// source buffer.
#[derive(Debug, Clone, PartialEq, Eq)]
pub struct OwnedToken {
    pub kind: TokenKind,
    pub lexeme: String,
    pub line: usize,
    pub column: usize,
}

impl OwnedToken {
    pub fn new(kind: TokenKind, lexeme: &str, line: usize, column: usize) -> (token: Self)
        ensures
            token.kind == kind,
            token.lexeme@ == lexeme@,
            token.line == line,
            token.column == column,
    {
        OwnedToken { kind, lexeme: lexeme.to_owned(), line, column }
    }

    pub fn end_of_file(line: usize, column: usize) -> (token: Self)
        ensures
            token.kind == TokenKind::EndOfFile,
            token.lexeme@ == Seq::<char>::empty(),
            token.line == line,
            token.column == column,
    {
        OwnedToken { kind: TokenKind::EndOfFile, lexeme: String::new(), line, column }
    }

    pub fn kind(&self) -> (kind: TokenKind)
        ensures
            kind == self.kind,
    {
        self.kind
    }

    pub fn lexeme(&self) -> (lexeme: &str)
        ensures
            lexeme@ == self.lexeme@,
    {
        self.lexeme.as_str()
    }

    pub fn is_end_of_file(&self) -> (at_end: bool)
        ensures
            at_end == (self.kind == TokenKind::EndOfFile),
    {
        self.kind.is_end_of_file()
    }

    /// An owned copy of a borrowed token.
    pub fn from_token(token: Token<'_>) -> (owned: Self)
        ensures
            owned.kind == token.kind,
            owned.lexeme@ == token.lexeme@,
            owned.line == token.line,
            owned.column == token.column,
    {
        OwnedToken::new(token.kind, token.lexeme, token.line, token.column)
    }
}

/// Whether two strings hold the same text, decided byte by byte.
pub fn same_text(left: &str, right: &str) -> (same: bool)
    ensures
        same == (left@ == right@),
{
    broadcast use vstd::utf8::encode_utf8_decode_utf8;

    let left_bytes = left.as_bytes();
    let right_bytes = right.as_bytes();
    if left_bytes.len() != right_bytes.len() {
        return false;
    }
    let mut index: usize = 0;
    while index < left_bytes.len()
        invariant
            left_bytes@ == left.spec_bytes(),
            right_bytes@ == right.spec_bytes(),
            left_bytes@.len() == right_bytes@.len(),
            index <= left_bytes@.len(),
            forall|i: int| 0 <= i < index ==> left_bytes@[i] == right_bytes@[i],
        decreases left_bytes@.len() - index,
    {
        if left_bytes[index] != right_bytes[index] {
            return false;
        }
        index += 1;
    }
    assert(left_bytes@ =~= right_bytes@);
    assert(decode_utf8(encode_utf8(left@)) == decode_utf8(encode_utf8(right@)));
    true
}

} // verus!
