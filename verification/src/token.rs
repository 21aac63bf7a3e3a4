use vstd::prelude::*;
use vstd::string::*;

verus! {

/// The closed set of lexical categories a token can belong to.
#[derive(Debug, Clone, Copy, PartialEq, Eq, Structural)]
pub enum TokenType {
    Illegal,
    Eof,
    // Identifiers + literals
    Ident,
    Int,
    // Operators
    Assign,
    Plus,
    Minus,
    Bang,
    Asterisk,
    Slash,
    Lt,
    Gt,
    Eq,
    NotEq,
    // Delimiters
    Comma,
    Semicolon,
    LParen,
    RParen,
    LBrace,
    RBrace,
    // Keywords
    Function,
    Let,
    True,
    False,
    If,
    Else,
    Return,
}

/// Mathematical model of a token: its category and the characters of its
/// literal text.
pub struct SpecToken {
    pub kind: TokenType,
    pub literal: Seq<char>,
}

/// The end-of-input token: the `Eof` category with an empty literal.
pub open spec fn eof_token() -> SpecToken {
    SpecToken { kind: TokenType::Eof, literal: Seq::empty() }
}

/// A lexical token: a category together with the exact source text that
/// produced it.
#[derive(Debug)]
pub struct Token {
    pub token_type: TokenType,
    pub literal: String,
}

impl View for Token {
    type V = SpecToken;

    open spec fn view(&self) -> SpecToken {
        SpecToken { kind: self.token_type, literal: self.literal@ }
    }
}

pub open spec fn kw_function() -> Seq<char> {
    seq!['f', 'n']
}

pub open spec fn kw_let() -> Seq<char> {
    seq!['l', 'e', 't']
}

pub open spec fn kw_true() -> Seq<char> {
    seq!['t', 'r', 'u', 'e']
}

pub open spec fn kw_false() -> Seq<char> {
    seq!['f', 'a', 'l', 's', 'e']
}

pub open spec fn kw_if() -> Seq<char> {
    seq!['i', 'f']
}

pub open spec fn kw_else() -> Seq<char> {
    seq!['e', 'l', 's', 'e']
}

pub open spec fn kw_return() -> Seq<char> {
    seq!['r', 'e', 't', 'u', 'r', 'n']
}

/// The token category an identifier's text resolves to: one of the seven
/// reserved words maps to its keyword category, anything else is `Ident`.
pub open spec fn spec_lookup_ident(s: Seq<char>) -> TokenType {
    if s == kw_function() {
        TokenType::Function
    } else if s == kw_let() {
        TokenType::Let
    } else if s == kw_true() {
        TokenType::True
    } else if s == kw_false() {
        TokenType::False
    } else if s == kw_if() {
        TokenType::If
    } else if s == kw_else() {
        TokenType::Else
    } else if s == kw_return() {
        TokenType::Return
    } else {
        TokenType::Ident
    }
}

/// True when `s` equals the two characters `c0 c1`.
fn str_is2(s: &str, c0: char, c1: char) -> (r: bool)
    ensures
        r == (s@ == seq![c0, c1]),
{
    let r = s.unicode_len() == 2 && s.get_char(0) == c0 && s.get_char(1) == c1;
    proof {
        if r {
            assert(s@ =~= seq![c0, c1]);
        } else {
            assert(s@ != seq![c0, c1]);
        }
    }
    r
}

/// True when `s` equals the three characters `c0 c1 c2`.
fn str_is3(s: &str, c0: char, c1: char, c2: char) -> (r: bool)
    ensures
        r == (s@ == seq![c0, c1, c2]),
{
    let r = s.unicode_len() == 3 && s.get_char(0) == c0 && s.get_char(1) == c1 && s.get_char(2)
        == c2;
    proof {
        if r {
            assert(s@ =~= seq![c0, c1, c2]);
        } else {
            assert(s@ != seq![c0, c1, c2]);
        }
    }
    r
}

/// True when `s` equals the four characters `c0 c1 c2 c3`.
fn str_is4(s: &str, c0: char, c1: char, c2: char, c3: char) -> (r: bool)
    ensures
        r == (s@ == seq![c0, c1, c2, c3]),
{
    let r = s.unicode_len() == 4 && s.get_char(0) == c0 && s.get_char(1) == c1 && s.get_char(2)
        == c2 && s.get_char(3) == c3;
    proof {
        if r {
            assert(s@ =~= seq![c0, c1, c2, c3]);
        } else {
            assert(s@ != seq![c0, c1, c2, c3]);
        }
    }
    r
}

/// True when `s` equals the five characters `c0 .. c4`.
fn str_is5(s: &str, c0: char, c1: char, c2: char, c3: char, c4: char) -> (r: bool)
    ensures
        r == (s@ == seq![c0, c1, c2, c3, c4]),
{
    let r = s.unicode_len() == 5 && s.get_char(0) == c0 && s.get_char(1) == c1 && s.get_char(2)
        == c2 && s.get_char(3) == c3 && s.get_char(4) == c4;
    proof {
        if r {
            assert(s@ =~= seq![c0, c1, c2, c3, c4]);
        } else {
            assert(s@ != seq![c0, c1, c2, c3, c4]);
        }
    }
    r
}

/// True when `s` equals the six characters `c0 .. c5`.
fn str_is6(s: &str, c0: char, c1: char, c2: char, c3: char, c4: char, c5: char) -> (r: bool)
    ensures
        r == (s@ == seq![c0, c1, c2, c3, c4, c5]),
{
    let r = s.unicode_len() == 6 && s.get_char(0) == c0 && s.get_char(1) == c1 && s.get_char(2)
        == c2 && s.get_char(3) == c3 && s.get_char(4) == c4 && s.get_char(5) == c5;
    proof {
        if r {
            assert(s@ =~= seq![c0, c1, c2, c3, c4, c5]);
        } else {
            assert(s@ != seq![c0, c1, c2, c3, c4, c5]);
        }
    }
    r
}

impl Token {
    /// Build a token from an already-known literal.
    pub fn new_from_str(token_type: TokenType, s: &str) -> (t: Token)
        ensures
            t@.kind == token_type,
            t@.literal == s@,
    {
        let literal = s.to_owned();
        Token { token_type, literal }
    }

    /// Build a token whose literal is the single character carried by `byte`.
    /// Bytes outside the ASCII range are not single-character strings and are
    /// ruled out.
    pub fn new_from_byte(token_type: TokenType, byte: u8) -> (t: Token)
        requires
            byte < 128,
        ensures
            t@.kind == token_type,
            t@.literal == seq![byte as char],
    {
        let c = byte as char;
        let mut literal = String::new();
        push_char(&mut literal, c);
        proof {
            assert(literal@ =~= seq![byte as char]);
        }
        Token { token_type, literal }
    }

    /// A fresh token with the same category and the same literal text.
    pub fn duplicate(&self) -> (t: Token)
        ensures
            t@ == self@,
    {
        Token { token_type: self.token_type, literal: self.literal.clone() }
    }

    /// Resolve an identifier's text to a keyword category, or to `Ident` when
    /// it is none of the reserved words.
    pub fn lookup_ident(ident: &str) -> (t: TokenType)
        ensures
            t == spec_lookup_ident(ident@),
    {
        if str_is2(ident, 'f', 'n') {
            TokenType::Function
        } else if str_is3(ident, 'l', 'e', 't') {
            TokenType::Let
        } else if str_is4(ident, 't', 'r', 'u', 'e') {
            TokenType::True
        } else if str_is5(ident, 'f', 'a', 'l', 's', 'e') {
            TokenType::False
        } else if str_is2(ident, 'i', 'f') {
            TokenType::If
        } else if str_is4(ident, 'e', 'l', 's', 'e') {
            TokenType::Else
        } else if str_is6(ident, 'r', 'e', 't', 'u', 'r', 'n') {
            TokenType::Return
        } else {
            TokenType::Ident
        }
    }
}

/// Relies on alloc's `String::push`: it appends exactly the given character
/// to the end of the string.
#[verifier::external_body]
pub(crate) fn push_char(s: &mut String, c: char)
    ensures
        final(s)@ == old(s)@ + seq![c],
{
    s.push(c);
}

} // verus!
