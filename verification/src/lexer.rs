use vstd::prelude::*;
use vstd::string::*;

use crate::token::{
    eof_token, spec_lookup_ident, SpecToken, Token, TokenType,
};

verus! {

/// The whitespace characters the lexer skips between tokens.
pub open spec fn is_whitespace_char(c: char) -> bool {
    c == ' ' || c == '\t' || c == '\n' || c == '\r'
}

/// The characters that may begin an identifier: ASCII letters and
/// underscore.
pub open spec fn is_letter_char(c: char) -> bool {
    ('a' <= c && c <= 'z') || ('A' <= c && c <= 'Z') || c == '_'
}

/// The characters that may continue an identifier: letters, digits and
/// underscore.
pub open spec fn is_ident_char(c: char) -> bool {
    is_letter_char(c) || is_digit_char(c)
}

/// The decimal digit characters.
pub open spec fn is_digit_char(c: char) -> bool {
    '0' <= c && c <= '9'
}

/// The position of the first non-whitespace character at or after `i`,
/// or the end of the input if only whitespace remains.
pub open spec fn ws_end(s: Seq<char>, i: int) -> int
    recommends
        0 <= i <= s.len(),
    decreases s.len() - i,
{
    if i < s.len() && is_whitespace_char(s[i]) {
        ws_end(s, i + 1)
    } else {
        i
    }
}

/// The position just past the maximal run of identifier-continuation
/// characters starting at `i`.
pub open spec fn ident_end(s: Seq<char>, i: int) -> int
    recommends
        0 <= i <= s.len(),
    decreases s.len() - i,
{
    if i < s.len() && is_ident_char(s[i]) {
        ident_end(s, i + 1)
    } else {
        i
    }
}

/// The position just past the maximal run of digit characters starting at `i`.
pub open spec fn num_end(s: Seq<char>, i: int) -> int
    recommends
        0 <= i <= s.len(),
    decreases s.len() - i,
{
    if i < s.len() && is_digit_char(s[i]) {
        num_end(s, i + 1)
    } else {
        i
    }
}

/// The kind a plain single-character token maps to; characters outside the
/// fixed operator and delimiter sets are `Illegal`. The characters `=` and
/// `!` are classified separately because they need one character of
/// lookahead.
pub open spec fn single_char_kind(c: char) -> TokenType {
    if c == ';' {
        TokenType::Semicolon
    } else if c == '(' {
        TokenType::LParen
    } else if c == ')' {
        TokenType::RParen
    } else if c == ',' {
        TokenType::Comma
    } else if c == '+' {
        TokenType::Plus
    } else if c == '{' {
        TokenType::LBrace
    } else if c == '}' {
        TokenType::RBrace
    } else if c == '-' {
        TokenType::Minus
    } else if c == '/' {
        TokenType::Slash
    } else if c == '*' {
        TokenType::Asterisk
    } else if c == '<' {
        TokenType::Lt
    } else if c == '>' {
        TokenType::Gt
    } else {
        TokenType::Illegal
    }
}

/// One lexing step: the token produced and the cursor position that the
/// lexer stands at afterwards.
pub struct LexStep {
    pub tok: SpecToken,
    pub next: int,
}

/// The token the lexer produces when its cursor stands at `i`, together with
/// the position of the cursor after producing it. Whitespace at `i` is
/// skipped first; the NUL character acts as an end-of-input sentinel.
pub open spec fn token_step(s: Seq<char>, i: int) -> LexStep
    recommends
        0 <= i <= s.len(),
{
    let j = ws_end(s, i);
    if j >= s.len() {
        LexStep { tok: eof_token(), next: s.len() as int }
    } else {
        let c = s[j];
        if c == '\0' {
            LexStep { tok: eof_token(), next: j + 1 }
        } else if c == '=' {
            if j + 1 < s.len() && s[j + 1] == '=' {
                LexStep {
                    tok: SpecToken { kind: TokenType::Eq, literal: seq!['=', '='] },
                    next: j + 2,
                }
            } else {
                LexStep {
                    tok: SpecToken { kind: TokenType::Assign, literal: seq!['='] },
                    next: j + 1,
                }
            }
        } else if c == '!' {
            if j + 1 < s.len() && s[j + 1] == '=' {
                LexStep {
                    tok: SpecToken { kind: TokenType::NotEq, literal: seq!['!', '='] },
                    next: j + 2,
                }
            } else {
                LexStep {
                    tok: SpecToken { kind: TokenType::Bang, literal: seq!['!'] },
                    next: j + 1,
                }
            }
        } else if is_letter_char(c) {
            let k = ident_end(s, j);
            let lit = s.subrange(j, k);
            LexStep { tok: SpecToken { kind: spec_lookup_ident(lit), literal: lit }, next: k }
        } else if is_digit_char(c) {
            let k = num_end(s, j);
            LexStep { tok: SpecToken { kind: TokenType::Int, literal: s.subrange(j, k) }, next: k }
        } else {
            LexStep { tok: SpecToken { kind: single_char_kind(c), literal: seq![c] }, next: j + 1 }
        }
    }
}

pub proof fn lemma_ws_end_bounds(s: Seq<char>, i: int)
    requires
        0 <= i <= s.len(),
    ensures
        i <= ws_end(s, i) <= s.len(),
    decreases s.len() - i,
{
    if i < s.len() && is_whitespace_char(s[i]) {
        lemma_ws_end_bounds(s, i + 1);
    }
}

pub proof fn lemma_ident_end_bounds(s: Seq<char>, i: int)
    requires
        0 <= i <= s.len(),
    ensures
        i <= ident_end(s, i) <= s.len(),
    decreases s.len() - i,
{
    if i < s.len() && is_ident_char(s[i]) {
        lemma_ident_end_bounds(s, i + 1);
    }
}

pub proof fn lemma_num_end_bounds(s: Seq<char>, i: int)
    requires
        0 <= i <= s.len(),
    ensures
        i <= num_end(s, i) <= s.len(),
    decreases s.len() - i,
{
    if i < s.len() && is_digit_char(s[i]) {
        lemma_num_end_bounds(s, i + 1);
    }
}

/// A lexing step never moves the cursor backwards or past the end, and it
/// moves strictly forwards whenever any non-whitespace input remains.
pub proof fn lemma_token_step_bounds(s: Seq<char>, i: int)
    requires
        0 <= i <= s.len(),
    ensures
        i <= token_step(s, i).next <= s.len(),
        ws_end(s, i) < s.len() ==> token_step(s, i).next > i,
{
    lemma_ws_end_bounds(s, i);
    let j = ws_end(s, i);
    if j < s.len() {
        let c = s[j];
        if is_letter_char(c) {
            lemma_ident_end_bounds(s, j + 1);
            assert(ident_end(s, j) == ident_end(s, j + 1));
        } else if c != '\0' && c != '=' && c != '!' && is_digit_char(c) {
            lemma_num_end_bounds(s, j + 1);
            assert(num_end(s, j) == num_end(s, j + 1));
        }
    }
}

/// The sequence of tokens the lexer produces from position `i` until it
/// runs off the end of the input.
pub open spec fn toks_from(s: Seq<char>, i: int) -> Seq<SpecToken>
    recommends
        0 <= i <= s.len(),
    decreases s.len() - i when 0 <= i <= s.len() via toks_from_dec
{
    if ws_end(s, i) >= s.len() {
        Seq::empty()
    } else {
        seq![token_step(s, i).tok] + toks_from(s, token_step(s, i).next)
    }
}

#[via_fn]
proof fn toks_from_dec(s: Seq<char>, i: int) {
    lemma_token_step_bounds(s, i);
}

/// The cursor position after the lexer has produced `n` tokens, starting
/// from position `i`.
pub open spec fn pos_after(s: Seq<char>, i: int, n: nat) -> int
    recommends
        0 <= i <= s.len(),
    decreases n,
{
    if n == 0 {
        i
    } else {
        pos_after(s, token_step(s, i).next, (n - 1) as nat)
    }
}

/// The `k`-th token of a token sequence; past its end, every token is the
/// end-of-input token.
pub open spec fn tok_at(ts: Seq<SpecToken>, k: int) -> SpecToken {
    if 0 <= k < ts.len() {
        ts[k]
    } else {
        eof_token()
    }
}

/// Pulling tokens one at a time from position `i` walks exactly through
/// `toks_from(s, i)` and then repeats the end-of-input token forever.
pub proof fn lemma_stream_tok(s: Seq<char>, i: int, n: nat)
    requires
        0 <= i <= s.len(),
    ensures
        0 <= pos_after(s, i, n) <= s.len(),
        token_step(s, pos_after(s, i, n)).tok == tok_at(toks_from(s, i), n as int),
        pos_after(s, i, n + 1) == token_step(s, pos_after(s, i, n)).next,
    decreases n,
{
    lemma_token_step_bounds(s, i);
    let st = token_step(s, i);
    if n == 0 {
        assert(pos_after(s, i, 1) == pos_after(s, st.next, 0));
    } else {
        lemma_stream_tok(s, st.next, (n - 1) as nat);
        assert(pos_after(s, i, n) == pos_after(s, st.next, (n - 1) as nat));
        assert(pos_after(s, i, n + 1) == pos_after(s, st.next, (n - 1) as nat + 1));
        if ws_end(s, i) >= s.len() {
            assert(st.next == s.len());
            assert(toks_from(s, s.len() as int) =~= Seq::<SpecToken>::empty());
            assert(tok_at(toks_from(s, i), n as int) == eof_token());
            assert(tok_at(toks_from(s, st.next), (n - 1) as int) == eof_token());
        } else {
            let ts = toks_from(s, i);
            let rest = toks_from(s, st.next);
            assert(ts == seq![st.tok] + rest);
            assert(ts.len() == 1 + rest.len());
            if 0 <= n < ts.len() {
                assert(ts[n as int] == rest[n - 1]);
            }
            assert(tok_at(ts, n as int) == tok_at(rest, n - 1));
        }
    }
}

/// The operator and delimiter characters that form a token on their own.
pub open spec fn is_single_token_char(c: char) -> bool {
    c == '=' || c == '!' || c == ';' || c == '(' || c == ')' || c == ',' || c == '+' || c == '{'
        || c == '}' || c == '-' || c == '/' || c == '*' || c == '<' || c == '>'
}

/// The kind each lone operator or delimiter character lexes to.
pub open spec fn single_token_kind(c: char) -> TokenType {
    if c == '=' {
        TokenType::Assign
    } else if c == '!' {
        TokenType::Bang
    } else {
        single_char_kind(c)
    }
}

/// Law: on an input holding exactly one operator or delimiter character, the
/// lexer produces a token whose literal is exactly that character and whose
/// kind is the one of the fixed single-character mapping, and consumes it.
pub proof fn lemma_single_char_token(c: char)
    requires
        is_single_token_char(c),
    ensures
        token_step(seq![c], 0).tok.kind == single_token_kind(c),
        token_step(seq![c], 0).tok.literal == seq![c],
        token_step(seq![c], 0).next == 1,
{
    let s = seq![c];
    assert(!is_whitespace_char(c));
    assert(ws_end(s, 0) == 0);
    assert(!is_letter_char(c));
    assert(!is_digit_char(c));
}

/// Law: at any position of any input, `==` and `!=` lex as one two-character
/// token; `=` not followed by `=` lexes as the one-character assignment
/// token, and `!` not followed by `=` as the one-character negation token.
pub proof fn lemma_two_char_operators(s: Seq<char>, i: int)
    requires
        0 <= i < s.len(),
        s[i] == '=' || s[i] == '!',
    ensures
        ({
            let st = token_step(s, i);
            let two = i + 1 < s.len() && s[i + 1] == '=';
            &&& (s[i] == '=' && two) ==> st.tok.kind == TokenType::Eq && st.tok.literal == seq![
                '=',
                '=',
            ] && st.next == i + 2
            &&& (s[i] == '=' && !two) ==> st.tok.kind == TokenType::Assign && st.tok.literal
                == seq!['='] && st.next == i + 1
            &&& (s[i] == '!' && two) ==> st.tok.kind == TokenType::NotEq && st.tok.literal == seq![
                '!',
                '=',
            ] && st.next == i + 2
            &&& (s[i] == '!' && !two) ==> st.tok.kind == TokenType::Bang && st.tok.literal == seq![
                '!',
            ] && st.next == i + 1
        }),
{
    assert(!is_whitespace_char(s[i]));
    assert(ws_end(s, i) == i);
}

/// Law: lexing terminates on any finite input. The token stream drawn from
/// a source text is finite; once the cursor has reached the end of the
/// input it stays there, and the token produced there — and by every call
/// thereafter — is the end-of-input token with an empty literal.
pub proof fn lemma_lexing_reaches_eof(s: Seq<char>, n: nat)
    ensures
        token_step(s, s.len() as int).tok == eof_token(),
        token_step(s, s.len() as int).next == s.len(),
        pos_after(s, s.len() as int, n) == s.len(),
        n >= toks_from(s, 0).len() ==> tok_at(toks_from(s, 0), n as int) == eof_token(),
    decreases n,
{
    assert(ws_end(s, s.len() as int) == s.len());
    if n > 0 {
        lemma_lexing_reaches_eof(s, (n - 1) as nat);
    }
}

/// Abstract state of a lexer: the characters of its input and the cursor
/// position the next token will be produced from.
pub struct SpecLexer {
    pub input: Seq<char>,
    pub pos: int,
}

/// Stateful cursor over an ASCII source string that produces one token per
/// `next_token` call.
pub struct Lexer {
    input: String,
    position: usize,
    read_position: usize,
    ch: char,
}

impl View for Lexer {
    type V = SpecLexer;

    closed spec fn view(&self) -> SpecLexer {
        SpecLexer { input: self.input@, pos: self.position as int }
    }
}

/// True when `ch` may appear in an identifier.
fn is_letter(ch: char) -> (r: bool)
    ensures
        r == is_letter_char(ch),
{
    ('a' <= ch && ch <= 'z') || ('A' <= ch && ch <= 'Z') || ch == '_'
}

/// True when `ch` is a decimal digit.
fn is_digit(ch: char) -> (r: bool)
    ensures
        r == is_digit_char(ch),
{
    '0' <= ch && ch <= '9'
}

/// An ASCII character is recovered unchanged from the byte that encodes it.
proof fn lemma_ascii_char_roundtrip(c: char)
    requires
        c <= '\u{7f}',
    ensures
        (c as u8) as char == c,
        (c as u8) < 128,
{
    assert((c as u32) < 128);
    assert(((c as u8) as u32) == (c as u32));
    vstd::utf8::char_u32_cast(c, c as u32);
}

impl Lexer {
    /// The cursor is consistent with the input: before the end the read
    /// position trails the current position by one and the current character
    /// is the one under the cursor; at the end both positions rest at the
    /// input's length and the current character is the NUL sentinel.
    pub closed spec fn wf(&self) -> bool {
        let s = self.input@;
        &&& string_is_ascii(&self.input)
        &&& if (self.position as int) < s.len() {
            &&& self.read_position == self.position + 1
            &&& self.ch == s[self.position as int]
        } else {
            &&& self.position as int == s.len()
            &&& self.read_position == self.position
            &&& self.ch == '\0'
        }
    }

    /// The cursor of a consistent lexer never stands outside its input.
    pub proof fn lemma_wf_pos_bounds(&self)
        requires
            self.wf(),
        ensures
            0 <= self@.pos <= self@.input.len(),
    {
    }

    /// Build a lexer over `input` with its cursor primed on the first
    /// character.
    pub fn new(input: String) -> (l: Lexer)
        requires
            string_is_ascii(&input),
        ensures
            l.wf(),
            l@.input == input@,
            l@.pos == 0,
    {
        let mut l = Lexer { input, position: 0, read_position: 0, ch: '\0' };
        l.read_char();
        l
    }

    /// Advance the cursor by one character; at the end of the input the
    /// cursor stays put and the current character becomes the NUL sentinel.
    fn read_char(&mut self)
        requires
            old(self).read_position as int <= old(self)@.input.len(),
        ensures
            final(self).input == old(self).input,
            if (old(self).read_position as int) < old(self)@.input.len() {
                &&& final(self).position == old(self).read_position
                &&& final(self).read_position == old(self).read_position + 1
                &&& final(self).ch == old(self)@.input[old(self).read_position as int]
            } else {
                &&& final(self).position == old(self).read_position
                &&& final(self).read_position == old(self).read_position
                &&& final(self).ch == '\0'
            },
    {
        let n = self.input.as_str().unicode_len();
        if self.read_position >= n {
            self.ch = '\0';
            self.position = self.read_position;
        } else {
            self.ch = self.input.as_str().get_char(self.read_position);
            self.position = self.read_position;
            self.read_position = self.read_position + 1;
        }
    }

    /// The character one past the cursor, or the NUL sentinel when the
    /// cursor is on the last character or past the end.
    fn peek_char(&self) -> (c: char)
        requires
            self.wf(),
        ensures
            c == if self@.pos + 1 < self@.input.len() {
                self@.input[self@.pos + 1]
            } else {
                '\0'
            },
    {
        let n = self.input.as_str().unicode_len();
        if self.read_position >= n {
            '\0'
        } else {
            self.input.as_str().get_char(self.read_position)
        }
    }

    /// Move the cursor past the maximal run of whitespace.
    fn skip_whitespace(&mut self)
        requires
            old(self).wf(),
        ensures
            final(self).wf(),
            final(self)@.input == old(self)@.input,
            final(self)@.pos == ws_end(old(self)@.input, old(self)@.pos),
    {
        while self.ch == ' ' || self.ch == '\t' || self.ch == '\n' || self.ch == '\r'
            invariant
                self.wf(),
                self@.input == old(self)@.input,
                ws_end(self@.input, self@.pos) == ws_end(old(self)@.input, old(self)@.pos),
            decreases self@.input.len() - self@.pos,
        {
            proof {
                lemma_ws_end_bounds(self@.input, self@.pos);
            }
            self.read_char();
        }
    }

    /// Consume the maximal run of identifier-continuation characters under
    /// the cursor and return it.
    fn read_identifier(&mut self) -> (r: String)
        requires
            old(self).wf(),
        ensures
            final(self).wf(),
            final(self)@.input == old(self)@.input,
            final(self)@.pos == ident_end(old(self)@.input, old(self)@.pos),
            r@ == old(self)@.input.subrange(old(self)@.pos, final(self)@.pos),
    {
        let position = self.position;
        while is_letter(self.ch) || is_digit(self.ch)
            invariant
                self.wf(),
                self@.input == old(self)@.input,
                position as int <= self@.pos,
                ident_end(self@.input, self@.pos) == ident_end(old(self)@.input, old(self)@.pos),
            decreases self@.input.len() - self@.pos,
        {
            self.read_char();
        }
        let r = self.input.as_str().substring_ascii(position, self.position);
        r.to_owned()
    }

    /// Consume the maximal run of digit characters under the cursor and
    /// return it.
    fn read_number(&mut self) -> (r: String)
        requires
            old(self).wf(),
        ensures
            final(self).wf(),
            final(self)@.input == old(self)@.input,
            final(self)@.pos == num_end(old(self)@.input, old(self)@.pos),
            r@ == old(self)@.input.subrange(old(self)@.pos, final(self)@.pos),
    {
        let position = self.position;
        while is_digit(self.ch)
            invariant
                self.wf(),
                self@.input == old(self)@.input,
                position as int <= self@.pos,
                num_end(self@.input, self@.pos) == num_end(old(self)@.input, old(self)@.pos),
            decreases self@.input.len() - self@.pos,
        {
            self.read_char();
        }
        let r = self.input.as_str().substring_ascii(position, self.position);
        r.to_owned()
    }

    /// Produce the next token and leave the cursor at the start of the one
    /// after it. At the end of the input every call returns the end-of-input
    /// token.
    pub fn next_token(&mut self) -> (tok: Token)
        requires
            old(self).wf(),
        ensures
            final(self).wf(),
            final(self)@.input == old(self)@.input,
            tok@ == token_step(old(self)@.input, old(self)@.pos).tok,
            final(self)@.pos == token_step(old(self)@.input, old(self)@.pos).next,
    {
        self.skip_whitespace();
        let ghost s = self@.input;
        let ghost j = self@.pos;
        proof {
            lemma_ws_end_bounds(s, old(self)@.pos);
            if j < s.len() {
                assert('\0' <= s[j] <= '\u{7f}');
                lemma_ascii_char_roundtrip(s[j]);
            }
        }
        let position = self.position;
        let tok: Token = match self.ch {
            '=' => {
                if self.peek_char() == '=' {
                    self.read_char();
                    let lit = self.input.as_str().substring_ascii(position, self.position + 1);
                    proof {
                        assert(lit@ =~= seq!['=', '=']);
                    }
                    Token::new_from_str(TokenType::Eq, lit)
                } else {
                    Token::new_from_byte(TokenType::Assign, self.ch as u8)
                }
            },
            '!' => {
                if self.peek_char() == '=' {
                    self.read_char();
                    let lit = self.input.as_str().substring_ascii(position, self.position + 1);
                    proof {
                        assert(lit@ =~= seq!['!', '=']);
                    }
                    Token::new_from_str(TokenType::NotEq, lit)
                } else {
                    Token::new_from_byte(TokenType::Bang, self.ch as u8)
                }
            },
            ';' => Token::new_from_byte(TokenType::Semicolon, self.ch as u8),
            '(' => Token::new_from_byte(TokenType::LParen, self.ch as u8),
            ')' => Token::new_from_byte(TokenType::RParen, self.ch as u8),
            ',' => Token::new_from_byte(TokenType::Comma, self.ch as u8),
            '+' => Token::new_from_byte(TokenType::Plus, self.ch as u8),
            '{' => Token::new_from_byte(TokenType::LBrace, self.ch as u8),
            '}' => Token::new_from_byte(TokenType::RBrace, self.ch as u8),
            '-' => Token::new_from_byte(TokenType::Minus, self.ch as u8),
            '/' => Token::new_from_byte(TokenType::Slash, self.ch as u8),
            '*' => Token::new_from_byte(TokenType::Asterisk, self.ch as u8),
            '<' => Token::new_from_byte(TokenType::Lt, self.ch as u8),
            '>' => Token::new_from_byte(TokenType::Gt, self.ch as u8),
            '\0' => Token::new_from_str(TokenType::Eof, ""),
            _ => {
                if is_letter(self.ch) {
                    let literal = self.read_identifier();
                    let t = Token::lookup_ident(literal.as_str());
                    return Token::new_from_str(t, literal.as_str());
                } else if is_digit(self.ch) {
                    let literal = self.read_number();
                    return Token::new_from_str(TokenType::Int, literal.as_str());
                } else {
                    Token::new_from_byte(TokenType::Illegal, self.ch as u8)
                }
            },
        };
        proof {
            reveal_strlit("");
            assert(""@ =~= Seq::<char>::empty());
            if j < s.len() {
                assert(s.subrange(j, j + 1) =~= seq![s[j]]);
            }
        }
        self.read_char();
        tok
    }
}

} // verus!

