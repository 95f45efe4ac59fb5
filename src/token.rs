use crate::ast::{ast_source_range_to_string, place_text};
use crate::source_range::SourceRange;
use crate::text::{decimal, decimal_text};
use vstd::prelude::*;
use vstd::string::{StringExecFns, StringSliceAdditionalSpecFns};
use vstd::utf8::*;

verus! {

/// What a token is.
#[derive(Debug, Clone, Hash)]
pub enum TokenKind {
    KeywordInt,
    KeywordReturn,
    KeywordVoid,
    Identifier(String),
    IntegerLiteral(u32),
    LeftParenthesis,
    RightParenthesis,
    LeftBrace,
    RightBrace,
    Semicolon,
    Slash,
    Tilde,
    Minus,
    MinusMinus,
}

/// The keyword that `text` spells, if any.
pub open spec fn keyword_of(text: Seq<char>) -> Option<TokenKind> {
    if text == seq!['i', 'n', 't'] {
        Some(TokenKind::KeywordInt)
    } else if text == seq!['r', 'e', 't', 'u', 'r', 'n'] {
        Some(TokenKind::KeywordReturn)
    } else if text == seq!['v', 'o', 'i', 'd'] {
        Some(TokenKind::KeywordVoid)
    } else {
        None
    }
}

/// `kind` is what a word spelled `text` is: its keyword, or else an identifier named `text`.
pub open spec fn is_word_kind(kind: TokenKind, text: Seq<char>) -> bool {
    match keyword_of(text) {
        Some(keyword) => kind == keyword,
        None => kind is Identifier && kind->Identifier_0@ == text,
    }
}

/// Two kinds are equal: the same variant, with equal name or value.
pub open spec fn kinds_equal(a: TokenKind, b: TokenKind) -> bool {
    match a {
        TokenKind::Identifier(x) => b is Identifier && x@ == b->Identifier_0@,
        TokenKind::IntegerLiteral(x) => b is IntegerLiteral && x == b->IntegerLiteral_0,
        _ => a == b,
    }
}

impl TokenKind {
    /// The kind of a word: a keyword from the fixed table, or else an identifier.
    pub fn from_identifier(identifier: &str) -> (r: TokenKind)
        ensures
            is_word_kind(r, identifier@),
    {
        proof {
            reveal_strlit("int");
            reveal_strlit("return");
            reveal_strlit("void");
            assert("int"@ =~= seq!['i', 'n', 't']);
            assert("return"@ =~= seq!['r', 'e', 't', 'u', 'r', 'n']);
            assert("void"@ =~= seq!['v', 'o', 'i', 'd']);
        }
        let word = identifier.to_owned();
        if word == String::from_str("int") {
            TokenKind::KeywordInt
        } else if word == String::from_str("return") {
            TokenKind::KeywordReturn
        } else if word == String::from_str("void") {
            TokenKind::KeywordVoid
        } else {
            TokenKind::Identifier(word)
        }
    }

    /// The kind is a keyword.
    pub open spec fn is_keyword_spec(&self) -> bool {
        ||| *self is KeywordInt
        ||| *self is KeywordReturn
        ||| *self is KeywordVoid
    }

    #[verifier::when_used_as_spec(is_keyword_spec)]
    /// Whether the kind is a keyword.
    pub fn is_keyword(&self) -> (r: bool)
        ensures
            r == self.is_keyword_spec(),
    {
        match self {
            TokenKind::KeywordInt | TokenKind::KeywordReturn | TokenKind::KeywordVoid => true,
            _ => false,
        }
    }

    /// The kind is an identifier.
    pub open spec fn is_identifier_spec(&self) -> bool {
        *self is Identifier
    }

    #[verifier::when_used_as_spec(is_identifier_spec)]
    /// Whether the kind is an identifier.
    pub fn is_identifier(&self) -> (r: bool)
        ensures
            r == self.is_identifier_spec(),
    {
        match self {
            TokenKind::Identifier(_) => true,
            _ => false,
        }
    }
}

impl PartialEq for TokenKind {
    fn eq(&self, other: &TokenKind) -> (r: bool)
        ensures
            r == kinds_equal(*self, *other),
    {
        match (self, other) {
            (TokenKind::Identifier(x), TokenKind::Identifier(y)) => x.eq(y),
            (TokenKind::IntegerLiteral(x), TokenKind::IntegerLiteral(y)) => *x == *y,
            (TokenKind::KeywordInt, TokenKind::KeywordInt) => true,
            (TokenKind::KeywordReturn, TokenKind::KeywordReturn) => true,
            (TokenKind::KeywordVoid, TokenKind::KeywordVoid) => true,
            (TokenKind::LeftParenthesis, TokenKind::LeftParenthesis) => true,
            (TokenKind::RightParenthesis, TokenKind::RightParenthesis) => true,
            (TokenKind::LeftBrace, TokenKind::LeftBrace) => true,
            (TokenKind::RightBrace, TokenKind::RightBrace) => true,
            (TokenKind::Semicolon, TokenKind::Semicolon) => true,
            (TokenKind::Slash, TokenKind::Slash) => true,
            (TokenKind::Tilde, TokenKind::Tilde) => true,
            (TokenKind::Minus, TokenKind::Minus) => true,
            (TokenKind::MinusMinus, TokenKind::MinusMinus) => true,
            _ => false,
        }
    }
}

impl vstd::std_specs::cmp::PartialEqSpecImpl for TokenKind {
    open spec fn obeys_eq_spec() -> bool {
        true
    }

    open spec fn eq_spec(&self, other: &TokenKind) -> bool {
        kinds_equal(*self, *other)
    }
}

impl Eq for TokenKind {}

/// A classified piece of source text and where it stands.
#[derive(Debug, Clone, PartialEq, Eq, Hash)]
pub struct Token<'a> {
    pub kind: TokenKind,
    pub range: SourceRange<'a>,
}

/// The range's text is the single character `c`.
pub open spec fn spells(range: SourceRange, c: char) -> bool {
    range.text_bytes() == Some(encode_utf8(seq![c]))
}

impl<'a> Token<'a> {
    /// A token of `kind` over `range`.
    pub fn new(kind: TokenKind, range: SourceRange<'a>) -> (r: Self)
        ensures
            r.kind == kind,
            r.range == range,
    {
        Token { kind, range }
    }

    /// A word token; its kind comes from the text that `range` spans.
    pub fn new_identifier(range: SourceRange<'a>) -> (r: Self)
        requires
            range.text_bytes() is Some,
        ensures
            r.range == range,
            is_word_kind(r.kind, decode_utf8(range.text_bytes()->0)),
    {
        broadcast use vstd::utf8::encode_utf8_decode_utf8;

        let text = match range.source_text() {
            Some(t) => t,
            None => "",
        };
        Token { kind: TokenKind::from_identifier(text), range }
    }

    /// An integer literal token of `value`.
    pub fn new_integer_literal(value: u32, range: SourceRange<'a>) -> (r: Self)
        ensures
            r.kind == TokenKind::IntegerLiteral(value),
            r.range == range,
    {
        Token { kind: TokenKind::IntegerLiteral(value), range }
    }

    /// A `(` token; `range` spans that character.
    pub fn new_left_parenthesis(range: SourceRange<'a>) -> (r: Self)
        requires
            spells(range, '('),
        ensures
            r.kind == TokenKind::LeftParenthesis,
            r.range == range,
    {
        Token { kind: TokenKind::LeftParenthesis, range }
    }

    /// A `)` token; `range` spans that character.
    pub fn new_right_parenthesis(range: SourceRange<'a>) -> (r: Self)
        requires
            spells(range, ')'),
        ensures
            r.kind == TokenKind::RightParenthesis,
            r.range == range,
    {
        Token { kind: TokenKind::RightParenthesis, range }
    }

    /// A `{` token; `range` spans that character.
    pub fn new_left_brace(range: SourceRange<'a>) -> (r: Self)
        requires
            spells(range, '{'),
        ensures
            r.kind == TokenKind::LeftBrace,
            r.range == range,
    {
        Token { kind: TokenKind::LeftBrace, range }
    }

    /// A `}` token; `range` spans that character.
    pub fn new_right_brace(range: SourceRange<'a>) -> (r: Self)
        requires
            spells(range, '}'),
        ensures
            r.kind == TokenKind::RightBrace,
            r.range == range,
    {
        Token { kind: TokenKind::RightBrace, range }
    }

    /// A `;` token; `range` spans that character.
    pub fn new_semicolon(range: SourceRange<'a>) -> (r: Self)
        requires
            spells(range, ';'),
        ensures
            r.kind == TokenKind::Semicolon,
            r.range == range,
    {
        Token { kind: TokenKind::Semicolon, range }
    }

    /// A `/` token; `range` spans that character.
    pub fn new_slash(range: SourceRange<'a>) -> (r: Self)
        requires
            spells(range, '/'),
        ensures
            r.kind == TokenKind::Slash,
            r.range == range,
    {
        Token { kind: TokenKind::Slash, range }
    }

    /// A `~` token; `range` spans that character.
    pub fn new_tilde(range: SourceRange<'a>) -> (r: Self)
        requires
            spells(range, '~'),
        ensures
            r.kind == TokenKind::Tilde,
            r.range == range,
    {
        Token { kind: TokenKind::Tilde, range }
    }

    /// A `-` token; `range` spans that character.
    pub fn new_minus(range: SourceRange<'a>) -> (r: Self)
        requires
            spells(range, '-'),
        ensures
            r.kind == TokenKind::Minus,
            r.range == range,
    {
        Token { kind: TokenKind::Minus, range }
    }

    /// A `--` token; its range spans the two characters.
    pub fn new_minus_minus(range: SourceRange<'a>) -> (r: Self)
        requires
            range.text_bytes() == Some(encode_utf8(seq!['-', '-'])),
        ensures
            r.kind == TokenKind::MinusMinus,
            r.range == range,
    {
        Token { kind: TokenKind::MinusMinus, range }
    }

    /// Whether the token is a keyword.
    pub fn is_keyword(&self) -> (r: bool)
        ensures
            r == self.kind.is_keyword_spec(),
    {
        self.kind.is_keyword()
    }

    /// Whether the token is an identifier.
    pub fn is_identifier(&self) -> (r: bool)
        ensures
            r == self.kind.is_identifier_spec(),
    {
        self.kind.is_identifier()
    }

    /// The text that the token spans.
    pub fn source_text(&self) -> (r: Option<&'a str>)
        ensures
            r is Some <==> self.range.text_bytes() is Some,
            r is Some ==> self.range.text_bytes() == Some(r->0.spec_bytes()),
    {
        self.range.source_text()
    }
}


/// How a kind reads in a token dump: its variant name, with the name or value it carries.
pub open spec fn kind_text(kind: TokenKind) -> Seq<char> {
    match kind {
        TokenKind::KeywordInt => "KeywordInt"@,
        TokenKind::KeywordReturn => "KeywordReturn"@,
        TokenKind::KeywordVoid => "KeywordVoid"@,
        TokenKind::Identifier(name) => "Identifier(\""@ + name@ + "\")"@,
        TokenKind::IntegerLiteral(value) => "IntegerLiteral("@ + decimal(value as nat) + ")"@,
        TokenKind::LeftParenthesis => "LeftParenthesis"@,
        TokenKind::RightParenthesis => "RightParenthesis"@,
        TokenKind::LeftBrace => "LeftBrace"@,
        TokenKind::RightBrace => "RightBrace"@,
        TokenKind::Semicolon => "Semicolon"@,
        TokenKind::Slash => "Slash"@,
        TokenKind::Tilde => "Tilde"@,
        TokenKind::Minus => "Minus"@,
        TokenKind::MinusMinus => "MinusMinus"@,
    }
}

/// The characters of a token's text, or none where its range has no text.
pub open spec fn token_text(t: Token) -> Seq<char> {
    match t.range.text_bytes() {
        Some(bytes) => decode_utf8(bytes),
        None => seq![],
    }
}

/// A token dump: kind, place, and text in quotes.
pub open spec fn token_dump(t: Token) -> Seq<char> {
    kind_text(t.kind) + " "@ + place_text(t.range) + " - '"@ + token_text(t) + "'"@
}

impl TokenKind {
    /// How the kind reads in a token dump (see `kind_text`).
    pub fn describe(&self) -> (r: String)
        ensures
            r@ == kind_text(*self),
    {
        match self {
            TokenKind::KeywordInt => String::from_str("KeywordInt"),
            TokenKind::KeywordReturn => String::from_str("KeywordReturn"),
            TokenKind::KeywordVoid => String::from_str("KeywordVoid"),
            TokenKind::Identifier(name) => {
                let mut r = String::from_str("Identifier(\"");
                r.append(name.as_str());
                r.append("\")");
                r
            },
            TokenKind::IntegerLiteral(value) => {
                let mut r = String::from_str("IntegerLiteral(");
                let v = decimal_text(*value as u64);
                r.append(v.as_str());
                r.append(")");
                r
            },
            TokenKind::LeftParenthesis => String::from_str("LeftParenthesis"),
            TokenKind::RightParenthesis => String::from_str("RightParenthesis"),
            TokenKind::LeftBrace => String::from_str("LeftBrace"),
            TokenKind::RightBrace => String::from_str("RightBrace"),
            TokenKind::Semicolon => String::from_str("Semicolon"),
            TokenKind::Slash => String::from_str("Slash"),
            TokenKind::Tilde => String::from_str("Tilde"),
            TokenKind::Minus => String::from_str("Minus"),
            TokenKind::MinusMinus => String::from_str("MinusMinus"),
        }
    }
}

impl<'a> Token<'a> {
    /// A readable line for the token (see `token_dump`).
    pub fn dump(&self) -> (r: String)
        ensures
            r@ == token_dump(*self),
    {
        broadcast use vstd::utf8::encode_utf8_decode_utf8;

        let mut r = self.kind.describe();
        r.append(" ");
        let place = ast_source_range_to_string(&self.range);
        r.append(place.as_str());
        r.append(" - '");
        match self.source_text() {
            Some(text) => r.append(text),
            None => {},
        }
        r.append("'");
        r
    }
}

} // verus!
