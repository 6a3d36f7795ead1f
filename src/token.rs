//! Tokens: their tags, their payloads and their canonical lexemes.
use vstd::prelude::*;

verus! {

/// The tag of a token, without its payload: what the parser matches on.
#[derive(Clone, Copy, Debug, PartialEq, Eq, Structural)]
pub enum TokenKind {
    Keyword,
    Identifier,
    Number,
    String,
    Public,
    Private,
    Static,
    Dim,
    ByVal,
    ByRef,
    As,
    If,
    Sub,
    Function,
    Type,
    Enum,
    Const,
    End,
    Exit,
    Return,
    Do,
    Loop,
    While,
    Wend,
    For,
    Next,
    And,
    Or,
    Xor,
    LeftParentheses,
    RightParentheses,
    LeftBracket,
    RightBracket,
    Plus,
    Minus,
    Times,
    Divide,
    Less,
    LessOrEqual,
    Greater,
    GreaterOrEqual,
    Assignment,
    Dot,
    Comma,
    Attribute,
    Option,
    Explicit,
    Base,
    Compare,
    Module,
}

/// A lexical token. `Keyword`, `Identifier`, `Number` and `String` carry the
/// bytes they were scanned from; every other variant stands for a fixed lexeme.
#[derive(Debug, PartialEq)]
pub enum Token {
    Keyword(Vec<u8>),
    Identifier(Vec<u8>),
    Number(Vec<u8>),
    String(Vec<u8>),
    Public,
    Private,
    Static,
    Dim,
    ByVal,
    ByRef,
    As,
    If,
    Sub,
    Function,
    Type,
    Enum,
    Const,
    End,
    Exit,
    Return,
    Do,
    Loop,
    While,
    Wend,
    For,
    Next,
    And,
    Or,
    Xor,
    LeftParentheses,
    RightParentheses,
    LeftBracket,
    RightBracket,
    Plus,
    Minus,
    Times,
    Divide,
    Less,
    LessOrEqual,
    Greater,
    GreaterOrEqual,
    Assignment,
    Dot,
    Comma,
    Attribute,
    Option,
    Explicit,
    Base,
    Compare,
    Module,
}

/// What a token means: its tag and, for the payload-carrying tags, its bytes
/// (empty for the others).
pub struct TokenView {
    pub kind: TokenKind,
    pub text: Seq<u8>,
}

/// The tags whose tokens carry their own bytes.
pub open spec fn has_payload(kind: TokenKind) -> bool {
    ||| kind == TokenKind::Keyword
    ||| kind == TokenKind::Identifier
    ||| kind == TokenKind::Number
    ||| kind == TokenKind::String
}

/// The fixed lexeme of a tag without payload, in lower case (empty for the others).
pub open spec fn spelling_of(kind: TokenKind) -> Seq<u8> {
    match kind {
        TokenKind::Public => seq!['p' as u8, 'u' as u8, 'b' as u8, 'l' as u8, 'i' as u8, 'c' as u8],
        TokenKind::Private => seq!['p' as u8, 'r' as u8, 'i' as u8, 'v' as u8, 'a' as u8, 't' as u8, 'e' as u8],
        TokenKind::Static => seq!['s' as u8, 't' as u8, 'a' as u8, 't' as u8, 'i' as u8, 'c' as u8],
        TokenKind::Dim => seq!['d' as u8, 'i' as u8, 'm' as u8],
        TokenKind::ByVal => seq!['b' as u8, 'y' as u8, 'v' as u8, 'a' as u8, 'l' as u8],
        TokenKind::ByRef => seq!['b' as u8, 'y' as u8, 'r' as u8, 'e' as u8, 'f' as u8],
        TokenKind::As => seq!['a' as u8, 's' as u8],
        TokenKind::If => seq!['i' as u8, 'f' as u8],
        TokenKind::Sub => seq!['s' as u8, 'u' as u8, 'b' as u8],
        TokenKind::Function => seq!['f' as u8, 'u' as u8, 'n' as u8, 'c' as u8, 't' as u8, 'i' as u8, 'o' as u8, 'n' as u8],
        TokenKind::Type => seq!['t' as u8, 'y' as u8, 'p' as u8, 'e' as u8],
        TokenKind::Enum => seq!['e' as u8, 'n' as u8, 'u' as u8, 'm' as u8],
        TokenKind::Const => seq!['c' as u8, 'o' as u8, 'n' as u8, 's' as u8, 't' as u8],
        TokenKind::End => seq!['e' as u8, 'n' as u8, 'd' as u8],
        TokenKind::Exit => seq!['e' as u8, 'x' as u8, 'i' as u8, 't' as u8],
        TokenKind::Return => seq!['r' as u8, 'e' as u8, 't' as u8, 'u' as u8, 'r' as u8, 'n' as u8],
        TokenKind::Do => seq!['d' as u8, 'o' as u8],
        TokenKind::Loop => seq!['l' as u8, 'o' as u8, 'o' as u8, 'p' as u8],
        TokenKind::While => seq!['w' as u8, 'h' as u8, 'i' as u8, 'l' as u8, 'e' as u8],
        TokenKind::Wend => seq!['w' as u8, 'e' as u8, 'n' as u8, 'd' as u8],
        TokenKind::For => seq!['f' as u8, 'o' as u8, 'r' as u8],
        TokenKind::Next => seq!['n' as u8, 'e' as u8, 'x' as u8, 't' as u8],
        TokenKind::And => seq!['a' as u8, 'n' as u8, 'd' as u8],
        TokenKind::Or => seq!['o' as u8, 'r' as u8],
        TokenKind::Xor => seq!['x' as u8, 'o' as u8, 'r' as u8],
        TokenKind::LeftParentheses => seq!['(' as u8],
        TokenKind::RightParentheses => seq![')' as u8],
        TokenKind::LeftBracket => seq!['[' as u8],
        TokenKind::RightBracket => seq![']' as u8],
        TokenKind::Plus => seq!['+' as u8],
        TokenKind::Minus => seq!['-' as u8],
        TokenKind::Times => seq!['*' as u8],
        TokenKind::Divide => seq!['/' as u8],
        TokenKind::Less => seq!['<' as u8],
        TokenKind::LessOrEqual => seq!['<' as u8, '=' as u8],
        TokenKind::Greater => seq!['>' as u8],
        TokenKind::GreaterOrEqual => seq!['>' as u8, '=' as u8],
        TokenKind::Assignment => seq!['=' as u8],
        TokenKind::Dot => seq!['.' as u8],
        TokenKind::Comma => seq![',' as u8],
        TokenKind::Attribute => seq!['a' as u8, 't' as u8, 't' as u8, 'r' as u8, 'i' as u8, 'b' as u8, 'u' as u8, 't' as u8, 'e' as u8],
        TokenKind::Option => seq!['o' as u8, 'p' as u8, 't' as u8, 'i' as u8, 'o' as u8, 'n' as u8],
        TokenKind::Explicit => seq!['e' as u8, 'x' as u8, 'p' as u8, 'l' as u8, 'i' as u8, 'c' as u8, 'i' as u8, 't' as u8],
        TokenKind::Base => seq!['b' as u8, 'a' as u8, 's' as u8, 'e' as u8],
        TokenKind::Compare => seq!['c' as u8, 'o' as u8, 'm' as u8, 'p' as u8, 'a' as u8, 'r' as u8, 'e' as u8],
        TokenKind::Module => seq!['m' as u8, 'o' as u8, 'd' as u8, 'u' as u8, 'l' as u8, 'e' as u8],
        _ => seq![],
    }
}

/// The words that the lexer reads as keywords rather than identifiers, in the
/// order in which they are looked up.
pub open spec fn keyword_kinds() -> Seq<TokenKind> {
    seq![TokenKind::Public, TokenKind::Private, TokenKind::Static, TokenKind::Dim, TokenKind::ByVal, TokenKind::ByRef, TokenKind::As, TokenKind::If, TokenKind::Sub, TokenKind::Function, TokenKind::Type, TokenKind::Enum, TokenKind::Const, TokenKind::End, TokenKind::Exit, TokenKind::Return, TokenKind::Do, TokenKind::Loop, TokenKind::While, TokenKind::Wend, TokenKind::For, TokenKind::Next, TokenKind::And, TokenKind::Or, TokenKind::Xor, TokenKind::Attribute, TokenKind::Option, TokenKind::Explicit, TokenKind::Base, TokenKind::Compare, TokenKind::Module]
}

pub open spec fn kind_of(t: Token) -> TokenKind {
    match t {
        Token::Keyword(_) => TokenKind::Keyword,
        Token::Identifier(_) => TokenKind::Identifier,
        Token::Number(_) => TokenKind::Number,
        Token::String(_) => TokenKind::String,
        Token::Public => TokenKind::Public,
        Token::Private => TokenKind::Private,
        Token::Static => TokenKind::Static,
        Token::Dim => TokenKind::Dim,
        Token::ByVal => TokenKind::ByVal,
        Token::ByRef => TokenKind::ByRef,
        Token::As => TokenKind::As,
        Token::If => TokenKind::If,
        Token::Sub => TokenKind::Sub,
        Token::Function => TokenKind::Function,
        Token::Type => TokenKind::Type,
        Token::Enum => TokenKind::Enum,
        Token::Const => TokenKind::Const,
        Token::End => TokenKind::End,
        Token::Exit => TokenKind::Exit,
        Token::Return => TokenKind::Return,
        Token::Do => TokenKind::Do,
        Token::Loop => TokenKind::Loop,
        Token::While => TokenKind::While,
        Token::Wend => TokenKind::Wend,
        Token::For => TokenKind::For,
        Token::Next => TokenKind::Next,
        Token::And => TokenKind::And,
        Token::Or => TokenKind::Or,
        Token::Xor => TokenKind::Xor,
        Token::LeftParentheses => TokenKind::LeftParentheses,
        Token::RightParentheses => TokenKind::RightParentheses,
        Token::LeftBracket => TokenKind::LeftBracket,
        Token::RightBracket => TokenKind::RightBracket,
        Token::Plus => TokenKind::Plus,
        Token::Minus => TokenKind::Minus,
        Token::Times => TokenKind::Times,
        Token::Divide => TokenKind::Divide,
        Token::Less => TokenKind::Less,
        Token::LessOrEqual => TokenKind::LessOrEqual,
        Token::Greater => TokenKind::Greater,
        Token::GreaterOrEqual => TokenKind::GreaterOrEqual,
        Token::Assignment => TokenKind::Assignment,
        Token::Dot => TokenKind::Dot,
        Token::Comma => TokenKind::Comma,
        Token::Attribute => TokenKind::Attribute,
        Token::Option => TokenKind::Option,
        Token::Explicit => TokenKind::Explicit,
        Token::Base => TokenKind::Base,
        Token::Compare => TokenKind::Compare,
        Token::Module => TokenKind::Module,
    }
}

impl View for Token {
    type V = TokenView;

    open spec fn view(&self) -> TokenView {
        TokenView {
            kind: kind_of(*self),
            text: match self {
                Token::Keyword(b) => b@,
                Token::Identifier(b) => b@,
                Token::Number(b) => b@,
                Token::String(b) => b@,
                _ => seq![],
            },
        }
    }
}

impl TokenView {
    /// The canonical lexeme: the carried bytes, or the fixed spelling.
    pub open spec fn lexeme(self) -> Seq<u8> {
        if has_payload(self.kind) {
            self.text
        } else {
            spelling_of(self.kind)
        }
    }
}

/// The fixed lexeme of a tag, as bytes.
pub fn spelling(kind: TokenKind) -> (r: Vec<u8>)
    ensures
        r@ == spelling_of(kind),
{
    match kind {
        TokenKind::Public => vec!['p' as u8, 'u' as u8, 'b' as u8, 'l' as u8, 'i' as u8, 'c' as u8],
        TokenKind::Private => vec!['p' as u8, 'r' as u8, 'i' as u8, 'v' as u8, 'a' as u8, 't' as u8, 'e' as u8],
        TokenKind::Static => vec!['s' as u8, 't' as u8, 'a' as u8, 't' as u8, 'i' as u8, 'c' as u8],
        TokenKind::Dim => vec!['d' as u8, 'i' as u8, 'm' as u8],
        TokenKind::ByVal => vec!['b' as u8, 'y' as u8, 'v' as u8, 'a' as u8, 'l' as u8],
        TokenKind::ByRef => vec!['b' as u8, 'y' as u8, 'r' as u8, 'e' as u8, 'f' as u8],
        TokenKind::As => vec!['a' as u8, 's' as u8],
        TokenKind::If => vec!['i' as u8, 'f' as u8],
        TokenKind::Sub => vec!['s' as u8, 'u' as u8, 'b' as u8],
        TokenKind::Function => vec!['f' as u8, 'u' as u8, 'n' as u8, 'c' as u8, 't' as u8, 'i' as u8, 'o' as u8, 'n' as u8],
        TokenKind::Type => vec!['t' as u8, 'y' as u8, 'p' as u8, 'e' as u8],
        TokenKind::Enum => vec!['e' as u8, 'n' as u8, 'u' as u8, 'm' as u8],
        TokenKind::Const => vec!['c' as u8, 'o' as u8, 'n' as u8, 's' as u8, 't' as u8],
        TokenKind::End => vec!['e' as u8, 'n' as u8, 'd' as u8],
        TokenKind::Exit => vec!['e' as u8, 'x' as u8, 'i' as u8, 't' as u8],
        TokenKind::Return => vec!['r' as u8, 'e' as u8, 't' as u8, 'u' as u8, 'r' as u8, 'n' as u8],
        TokenKind::Do => vec!['d' as u8, 'o' as u8],
        TokenKind::Loop => vec!['l' as u8, 'o' as u8, 'o' as u8, 'p' as u8],
        TokenKind::While => vec!['w' as u8, 'h' as u8, 'i' as u8, 'l' as u8, 'e' as u8],
        TokenKind::Wend => vec!['w' as u8, 'e' as u8, 'n' as u8, 'd' as u8],
        TokenKind::For => vec!['f' as u8, 'o' as u8, 'r' as u8],
        TokenKind::Next => vec!['n' as u8, 'e' as u8, 'x' as u8, 't' as u8],
        TokenKind::And => vec!['a' as u8, 'n' as u8, 'd' as u8],
        TokenKind::Or => vec!['o' as u8, 'r' as u8],
        TokenKind::Xor => vec!['x' as u8, 'o' as u8, 'r' as u8],
        TokenKind::LeftParentheses => vec!['(' as u8],
        TokenKind::RightParentheses => vec![')' as u8],
        TokenKind::LeftBracket => vec!['[' as u8],
        TokenKind::RightBracket => vec![']' as u8],
        TokenKind::Plus => vec!['+' as u8],
        TokenKind::Minus => vec!['-' as u8],
        TokenKind::Times => vec!['*' as u8],
        TokenKind::Divide => vec!['/' as u8],
        TokenKind::Less => vec!['<' as u8],
        TokenKind::LessOrEqual => vec!['<' as u8, '=' as u8],
        TokenKind::Greater => vec!['>' as u8],
        TokenKind::GreaterOrEqual => vec!['>' as u8, '=' as u8],
        TokenKind::Assignment => vec!['=' as u8],
        TokenKind::Dot => vec!['.' as u8],
        TokenKind::Comma => vec![',' as u8],
        TokenKind::Attribute => vec!['a' as u8, 't' as u8, 't' as u8, 'r' as u8, 'i' as u8, 'b' as u8, 'u' as u8, 't' as u8, 'e' as u8],
        TokenKind::Option => vec!['o' as u8, 'p' as u8, 't' as u8, 'i' as u8, 'o' as u8, 'n' as u8],
        TokenKind::Explicit => vec!['e' as u8, 'x' as u8, 'p' as u8, 'l' as u8, 'i' as u8, 'c' as u8, 'i' as u8, 't' as u8],
        TokenKind::Base => vec!['b' as u8, 'a' as u8, 's' as u8, 'e' as u8],
        TokenKind::Compare => vec!['c' as u8, 'o' as u8, 'm' as u8, 'p' as u8, 'a' as u8, 'r' as u8, 'e' as u8],
        TokenKind::Module => vec!['m' as u8, 'o' as u8, 'd' as u8, 'u' as u8, 'l' as u8, 'e' as u8],
        _ => Vec::new(),
    }
}

/// The token of a tag, with no bytes where the tag carries them.
pub fn fixed_token(kind: TokenKind) -> (r: Token)
    ensures
        r@.kind == kind,
        r@.text == Seq::<u8>::empty(),
{
    match kind {
        TokenKind::Keyword => Token::Keyword(Vec::new()),
        TokenKind::Identifier => Token::Identifier(Vec::new()),
        TokenKind::Number => Token::Number(Vec::new()),
        TokenKind::String => Token::String(Vec::new()),
        TokenKind::Public => Token::Public,
        TokenKind::Private => Token::Private,
        TokenKind::Static => Token::Static,
        TokenKind::Dim => Token::Dim,
        TokenKind::ByVal => Token::ByVal,
        TokenKind::ByRef => Token::ByRef,
        TokenKind::As => Token::As,
        TokenKind::If => Token::If,
        TokenKind::Sub => Token::Sub,
        TokenKind::Function => Token::Function,
        TokenKind::Type => Token::Type,
        TokenKind::Enum => Token::Enum,
        TokenKind::Const => Token::Const,
        TokenKind::End => Token::End,
        TokenKind::Exit => Token::Exit,
        TokenKind::Return => Token::Return,
        TokenKind::Do => Token::Do,
        TokenKind::Loop => Token::Loop,
        TokenKind::While => Token::While,
        TokenKind::Wend => Token::Wend,
        TokenKind::For => Token::For,
        TokenKind::Next => Token::Next,
        TokenKind::And => Token::And,
        TokenKind::Or => Token::Or,
        TokenKind::Xor => Token::Xor,
        TokenKind::LeftParentheses => Token::LeftParentheses,
        TokenKind::RightParentheses => Token::RightParentheses,
        TokenKind::LeftBracket => Token::LeftBracket,
        TokenKind::RightBracket => Token::RightBracket,
        TokenKind::Plus => Token::Plus,
        TokenKind::Minus => Token::Minus,
        TokenKind::Times => Token::Times,
        TokenKind::Divide => Token::Divide,
        TokenKind::Less => Token::Less,
        TokenKind::LessOrEqual => Token::LessOrEqual,
        TokenKind::Greater => Token::Greater,
        TokenKind::GreaterOrEqual => Token::GreaterOrEqual,
        TokenKind::Assignment => Token::Assignment,
        TokenKind::Dot => Token::Dot,
        TokenKind::Comma => Token::Comma,
        TokenKind::Attribute => Token::Attribute,
        TokenKind::Option => Token::Option,
        TokenKind::Explicit => Token::Explicit,
        TokenKind::Base => Token::Base,
        TokenKind::Compare => Token::Compare,
        TokenKind::Module => Token::Module,
    }
}

impl Token {
    /// The tag of this token.
    pub fn kind(&self) -> (r: TokenKind)
        ensures
            r == self@.kind,
    {
        match self {
            Token::Keyword(_) => TokenKind::Keyword,
            Token::Identifier(_) => TokenKind::Identifier,
            Token::Number(_) => TokenKind::Number,
            Token::String(_) => TokenKind::String,
            Token::Public => TokenKind::Public,
            Token::Private => TokenKind::Private,
            Token::Static => TokenKind::Static,
            Token::Dim => TokenKind::Dim,
            Token::ByVal => TokenKind::ByVal,
            Token::ByRef => TokenKind::ByRef,
            Token::As => TokenKind::As,
            Token::If => TokenKind::If,
            Token::Sub => TokenKind::Sub,
            Token::Function => TokenKind::Function,
            Token::Type => TokenKind::Type,
            Token::Enum => TokenKind::Enum,
            Token::Const => TokenKind::Const,
            Token::End => TokenKind::End,
            Token::Exit => TokenKind::Exit,
            Token::Return => TokenKind::Return,
            Token::Do => TokenKind::Do,
            Token::Loop => TokenKind::Loop,
            Token::While => TokenKind::While,
            Token::Wend => TokenKind::Wend,
            Token::For => TokenKind::For,
            Token::Next => TokenKind::Next,
            Token::And => TokenKind::And,
            Token::Or => TokenKind::Or,
            Token::Xor => TokenKind::Xor,
            Token::LeftParentheses => TokenKind::LeftParentheses,
            Token::RightParentheses => TokenKind::RightParentheses,
            Token::LeftBracket => TokenKind::LeftBracket,
            Token::RightBracket => TokenKind::RightBracket,
            Token::Plus => TokenKind::Plus,
            Token::Minus => TokenKind::Minus,
            Token::Times => TokenKind::Times,
            Token::Divide => TokenKind::Divide,
            Token::Less => TokenKind::Less,
            Token::LessOrEqual => TokenKind::LessOrEqual,
            Token::Greater => TokenKind::Greater,
            Token::GreaterOrEqual => TokenKind::GreaterOrEqual,
            Token::Assignment => TokenKind::Assignment,
            Token::Dot => TokenKind::Dot,
            Token::Comma => TokenKind::Comma,
            Token::Attribute => TokenKind::Attribute,
            Token::Option => TokenKind::Option,
            Token::Explicit => TokenKind::Explicit,
            Token::Base => TokenKind::Base,
            Token::Compare => TokenKind::Compare,
            Token::Module => TokenKind::Module,
        }
    }

    /// The canonical lexeme: the scanned bytes of a payload-carrying token, the
    /// lower-case keyword or the symbol of any other.
    pub fn get_lexeme(&self) -> (r: Vec<u8>)
        ensures
            r@ == self@.lexeme(),
    {
        match self {
            Token::Keyword(b) => b.clone(),
            Token::Identifier(b) => b.clone(),
            Token::Number(b) => b.clone(),
            Token::String(b) => b.clone(),
            _ => spelling(self.kind()),
        }
    }
}

impl Clone for Token {
    /// A token with the same tag and the same bytes.
    fn clone(&self) -> (r: Token)
        ensures
            r@ == self@,
    {
        match self {
            Token::Keyword(b) => Token::Keyword(b.clone()),
            Token::Identifier(b) => Token::Identifier(b.clone()),
            Token::Number(b) => Token::Number(b.clone()),
            Token::String(b) => Token::String(b.clone()),
            _ => fixed_token(self.kind()),
        }
    }
}

} // verus!
