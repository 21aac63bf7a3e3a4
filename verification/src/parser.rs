use vstd::prelude::*;
use vstd::string::*;

use crate::ast::{
    Expression, ExpressionStatement, IdentifierStruct, InfixExpressionStruct,
    IntegerLiteralStruct, LetStatement, PrefixExpressionStruct, Program, ReturnStatement,
    SpecExpr, SpecStmt, Statement,
};
use crate::lexer::{lemma_stream_tok, pos_after, tok_at, toks_from, Lexer};
use crate::number::{parse_i64, spec_parse_i64};
use crate::token::{eof_token, SpecToken, Token, TokenType};

verus! {

// Operator precedence, ascending: the single source of truth for how
// tightly each operator binds. `CALL` is reserved for function invocation,
// which has no expression form yet.
pub const LOWEST: i32 = 1;

pub const EQUALS: i32 = 2;

pub const LESSGREATER: i32 = 3;

pub const SUM: i32 = 4;

pub const PRODUCT: i32 = 5;

pub const PREFIX: i32 = 6;

pub const CALL: i32 = 7;

/// The name a token category is reported under in diagnostics.
pub open spec fn kind_name(t: TokenType) -> Seq<char> {
    match t {
        TokenType::Illegal => "Illegal"@,
        TokenType::Eof => "Eof"@,
        TokenType::Ident => "Ident"@,
        TokenType::Int => "Int"@,
        TokenType::Assign => "Assign"@,
        TokenType::Plus => "Plus"@,
        TokenType::Minus => "Minus"@,
        TokenType::Bang => "Bang"@,
        TokenType::Asterisk => "Asterisk"@,
        TokenType::Slash => "Slash"@,
        TokenType::Lt => "Lt"@,
        TokenType::Gt => "Gt"@,
        TokenType::Eq => "Eq"@,
        TokenType::NotEq => "NotEq"@,
        TokenType::Comma => "Comma"@,
        TokenType::Semicolon => "Semicolon"@,
        TokenType::LParen => "LParen"@,
        TokenType::RParen => "RParen"@,
        TokenType::LBrace => "LBrace"@,
        TokenType::RBrace => "RBrace"@,
        TokenType::Function => "Function"@,
        TokenType::Let => "Let"@,
        TokenType::True => "True"@,
        TokenType::False => "False"@,
        TokenType::If => "If"@,
        TokenType::Else => "Else"@,
        TokenType::Return => "Return"@,
    }
}

/// The diagnostic recorded when the token after the current one is not of
/// the kind the grammar expects.
pub open spec fn peek_error_msg(expected: TokenType, got: TokenType) -> Seq<char> {
    "Expected next token to be "@ + kind_name(expected) + ", got "@ + kind_name(got)
        + " instead."@
}

/// The diagnostic recorded when no handler can begin an expression at the
/// current token.
pub open spec fn no_prefix_error_msg(t: TokenType) -> Seq<char> {
    "No prefix parse function found for "@ + kind_name(t)
}

/// The diagnostic recorded when an integer literal's digits do not fit.
pub open spec fn int_error_msg(lit: Seq<char>) -> Seq<char> {
    "Could not parse "@ + lit + " as integer"@
}

/// Outcome of parsing one expression: the node (absent when the statement
/// must be aborted), the index of the token the parser stands on afterwards,
/// and the diagnostics recorded along the way.
pub struct ExprOut {
    pub expr: Option<SpecExpr>,
    pub next: int,
    pub errs: Seq<Seq<char>>,
}

/// Outcome of parsing one statement.
pub struct StmtOut {
    pub stmt: Option<SpecStmt>,
    pub next: int,
    pub errs: Seq<Seq<char>>,
}

/// Outcome of parsing a whole program.
pub struct ProgOut {
    pub stmts: Seq<SpecStmt>,
    pub errs: Seq<Seq<char>>,
}

/// The binding power a token kind has in infix position, ascending from the
/// lowest level. Kinds that cannot continue an expression sit at the lowest
/// level.
pub open spec fn precedence_of(t: TokenType) -> int {
    match t {
        TokenType::Eq => EQUALS as int,
        TokenType::NotEq => EQUALS as int,
        TokenType::Lt => LESSGREATER as int,
        TokenType::Gt => LESSGREATER as int,
        TokenType::Plus => SUM as int,
        TokenType::Minus => SUM as int,
        TokenType::Slash => PRODUCT as int,
        TokenType::Asterisk => PRODUCT as int,
        _ => LOWEST as int,
    }
}

/// True when a token kind has an infix handler: exactly the arithmetic and
/// comparison operators, the kinds that bind above the lowest level.
pub open spec fn has_infix(t: TokenType) -> bool {
    precedence_of(t) > LOWEST as int
}

/// Restates that a sub-parse's continuation position lies between `lo` and
/// the end of the stream. `lemma_parse_expression_bounds` shows the raw
/// position already obeys these bounds, so the value never changes; spelling
/// them out makes the recursions below visibly well founded.
pub open spec fn clamp_pos(ts: Seq<SpecToken>, lo: int, next: int) -> int {
    if next < lo {
        lo
    } else if next > ts.len() {
        ts.len() as int
    } else {
        next
    }
}

/// Parse one expression with the current token at index `k`, at binding
/// power `prec`: run the prefix handler for the current token, then fold in
/// infix operators that bind more tightly than `prec`.
pub open spec fn spec_parse_expression(ts: Seq<SpecToken>, k: int, prec: int) -> ExprOut
    decreases ts.len() - k, 3int,
{
    let first = spec_parse_expression_prefix(ts, k);
    match first.expr {
        None => first,
        // The prefix step only yields a node when the token it begins with
        // exists, so the guard below never fails.
        Some(l) => if !(0 <= k < ts.len()) {
            first
        } else {
            let lo = spec_parse_infix_loop(ts, l, clamp_pos(ts, k, first.next), prec);
            ExprOut { expr: lo.expr, next: lo.next, errs: first.errs + lo.errs }
        },
    }
}

/// The prefix step of expression parsing: the handler for the token the
/// expression begins with. Identifiers and integer literals stand alone;
/// `!` and `-` recurse into their operand; any other token has no prefix
/// handler and yields a diagnostic.
pub open spec fn spec_parse_expression_prefix(ts: Seq<SpecToken>, k: int) -> ExprOut
    decreases ts.len() - k, 2int,
{
    let t = tok_at(ts, k);
    match t.kind {
        TokenType::Ident => ExprOut {
            expr: Some(SpecExpr::Identifier { token: t, value: t.literal }),
            next: k,
            errs: Seq::empty(),
        },
        TokenType::Int => match spec_parse_i64(t.literal) {
            Some(v) => ExprOut {
                expr: Some(SpecExpr::IntegerLiteral { token: t, value: Some(v) }),
                next: k,
                errs: Seq::empty(),
            },
            None => ExprOut {
                expr: Some(SpecExpr::IntegerLiteral { token: t, value: None }),
                next: k,
                errs: seq![int_error_msg(t.literal)],
            },
        },
        TokenType::Bang => spec_parse_prefix(ts, k),
        TokenType::Minus => spec_parse_prefix(ts, k),
        _ => ExprOut { expr: None, next: k, errs: seq![no_prefix_error_msg(t.kind)] },
    }
}

/// Parse a prefix-operator expression with the operator at index `k`: the
/// operand is parsed from the next token at prefix binding power; when it is
/// missing the whole expression is abandoned.
pub open spec fn spec_parse_prefix(ts: Seq<SpecToken>, k: int) -> ExprOut
    recommends
        tok_at(ts, k).kind == TokenType::Bang || tok_at(ts, k).kind == TokenType::Minus,
    decreases ts.len() - k, 0int,
{
    let t = tok_at(ts, k);
    if !(0 <= k < ts.len()) {
        ExprOut { expr: None, next: k, errs: Seq::empty() }
    } else {
        let inner = spec_parse_expression(ts, k + 1, PREFIX as int);
        match inner.expr {
            Some(e) => ExprOut {
                expr: Some(
                    SpecExpr::Prefix { token: t, operator: t.literal, right: Box::new(e) },
                ),
                next: inner.next,
                errs: inner.errs,
            },
            None => ExprOut { expr: None, next: inner.next, errs: inner.errs },
        }
    }
}

/// The infix loop of the operator-precedence algorithm: while the token
/// after the expression parsed so far is an infix operator binding more
/// tightly than `prec`, step onto it, parse its right operand at the
/// operator's own binding power, and fold the two into an infix node. The
/// strictly-greater comparison makes the operators left-associative. When a
/// right operand is missing the whole expression is abandoned.
pub open spec fn spec_parse_infix_loop(
    ts: Seq<SpecToken>,
    left: SpecExpr,
    k: int,
    prec: int,
) -> ExprOut
    decreases ts.len() - k, 1int,
{
    let op = tok_at(ts, k + 1);
    if has_infix(op.kind) && precedence_of(op.kind) > prec {
        let inner = spec_parse_expression(ts, k + 2, precedence_of(op.kind));
        match inner.expr {
            Some(r) => {
                let combined = SpecExpr::Infix {
                    token: op,
                    left: Box::new(left),
                    operator: op.literal,
                    right: Box::new(r),
                };
                let rest = spec_parse_infix_loop(ts, combined, clamp_pos(ts, k + 2, inner.next), prec);
                ExprOut { expr: rest.expr, next: rest.next, errs: inner.errs + rest.errs }
            },
            None => ExprOut { expr: None, next: inner.next, errs: inner.errs },
        }
    } else {
        ExprOut { expr: Some(left), next: k, errs: Seq::empty() }
    }
}

/// Parse a `let` statement with the `let` token at index `k`: the name must
/// be an identifier and must be followed by `=`, else the statement is
/// aborted with a peek error; the bound value is then parsed as a full
/// expression at the lowest binding power and attached, and an optional
/// trailing semicolon is consumed.
pub open spec fn spec_parse_let(ts: Seq<SpecToken>, k: int) -> StmtOut {
    let lt = tok_at(ts, k);
    let t1 = tok_at(ts, k + 1);
    if t1.kind != TokenType::Ident {
        StmtOut { stmt: None, next: k, errs: seq![peek_error_msg(TokenType::Ident, t1.kind)] }
    } else {
        let t2 = tok_at(ts, k + 2);
        if t2.kind != TokenType::Assign {
            StmtOut {
                stmt: None,
                next: k + 1,
                errs: seq![peek_error_msg(TokenType::Assign, t2.kind)],
            }
        } else {
            let eo = spec_parse_expression(ts, k + 3, LOWEST as int);
            let n2 = if tok_at(ts, eo.next + 1).kind == TokenType::Semicolon {
                eo.next + 1
            } else {
                eo.next
            };
            match eo.expr {
                Some(v) => StmtOut {
                    stmt: Some(
                        SpecStmt::Let {
                            token: lt,
                            name: SpecExpr::Identifier { token: t1, value: t1.literal },
                            value: Some(v),
                        },
                    ),
                    next: n2,
                    errs: eo.errs,
                },
                None => StmtOut { stmt: None, next: n2, errs: eo.errs },
            }
        }
    }
}

/// Parse a `return` statement with the `return` token at index `k`: the
/// returned value is parsed as a full expression at the lowest binding power
/// and attached, and an optional trailing semicolon is consumed; when the
/// value expression cannot be parsed the statement is aborted.
pub open spec fn spec_parse_return(ts: Seq<SpecToken>, k: int) -> StmtOut {
    let eo = spec_parse_expression(ts, k + 1, LOWEST as int);
    let n2 = if tok_at(ts, eo.next + 1).kind == TokenType::Semicolon {
        eo.next + 1
    } else {
        eo.next
    };
    match eo.expr {
        Some(v) => StmtOut {
            stmt: Some(SpecStmt::Return { token: tok_at(ts, k), value: Some(v) }),
            next: n2,
            errs: eo.errs,
        },
        None => StmtOut { stmt: None, next: n2, errs: eo.errs },
    }
}

/// Parse a bare expression as a statement: one expression at the lowest
/// precedence, then an optional trailing semicolon. The statement is
/// dropped, after the optional semicolon is consumed, when the expression
/// could not be parsed.
pub open spec fn spec_parse_expression_statement(ts: Seq<SpecToken>, k: int) -> StmtOut {
    let t = tok_at(ts, k);
    let eo = spec_parse_expression(ts, k, LOWEST as int);
    let n2 = if tok_at(ts, eo.next + 1).kind == TokenType::Semicolon {
        eo.next + 1
    } else {
        eo.next
    };
    match eo.expr {
        Some(e) => StmtOut {
            stmt: Some(SpecStmt::Expression { token: t, expression: Some(e) }),
            next: n2,
            errs: eo.errs,
        },
        None => StmtOut { stmt: None, next: n2, errs: eo.errs },
    }
}

/// Parse one statement with the current token at index `k`, dispatching on
/// its kind: `let` and `return` have their own forms, everything else is an
/// expression statement.
pub open spec fn spec_parse_statement(ts: Seq<SpecToken>, k: int) -> StmtOut {
    match tok_at(ts, k).kind {
        TokenType::Let => spec_parse_let(ts, k),
        TokenType::Return => spec_parse_return(ts, k),
        _ => spec_parse_expression_statement(ts, k),
    }
}

/// An expression parse never moves backwards over the token stream nor past
/// its end; the clamping in the definitions therefore never changes a
/// position.
pub proof fn lemma_parse_expression_bounds(ts: Seq<SpecToken>, k: int, prec: int)
    requires
        0 <= k <= ts.len(),
    ensures
        k <= spec_parse_expression(ts, k, prec).next <= ts.len(),
    decreases ts.len() - k, 3int,
{
    lemma_parse_expression_prefix_bounds(ts, k);
    let first = spec_parse_expression_prefix(ts, k);
    match first.expr {
        None => {},
        Some(l) => {
            assert(clamp_pos(ts, k, first.next) == first.next);
            lemma_infix_loop_bounds(ts, l, first.next, prec);
        },
    }
}

pub proof fn lemma_parse_expression_prefix_bounds(ts: Seq<SpecToken>, k: int)
    requires
        0 <= k <= ts.len(),
    ensures
        k <= spec_parse_expression_prefix(ts, k).next <= ts.len(),
    decreases ts.len() - k, 2int,
{
    let t = tok_at(ts, k);
    if t.kind == TokenType::Bang || t.kind == TokenType::Minus {
        lemma_parse_prefix_bounds(ts, k);
    }
}

pub proof fn lemma_parse_prefix_bounds(ts: Seq<SpecToken>, k: int)
    requires
        0 <= k <= ts.len(),
    ensures
        k <= spec_parse_prefix(ts, k).next <= ts.len(),
    decreases ts.len() - k, 0int,
{
    if 0 <= k < ts.len() {
        lemma_parse_expression_bounds(ts, k + 1, PREFIX as int);
    }
}

pub proof fn lemma_infix_loop_bounds(ts: Seq<SpecToken>, left: SpecExpr, k: int, prec: int)
    requires
        0 <= k <= ts.len(),
    ensures
        k <= spec_parse_infix_loop(ts, left, k, prec).next <= ts.len(),
    decreases ts.len() - k, 1int,
{
    let op = tok_at(ts, k + 1);
    if has_infix(op.kind) && precedence_of(op.kind) > prec {
        lemma_parse_expression_bounds(ts, k + 2, precedence_of(op.kind));
        let inner = spec_parse_expression(ts, k + 2, precedence_of(op.kind));
        match inner.expr {
            Some(r) => {
                assert(clamp_pos(ts, k + 2, inner.next) == inner.next);
                let combined = SpecExpr::Infix {
                    token: op,
                    left: Box::new(left),
                    operator: op.literal,
                    right: Box::new(r),
                };
                lemma_infix_loop_bounds(ts, combined, inner.next, prec);
            },
            None => {},
        }
    }
}

/// A statement parse never moves backwards over the token stream nor past
/// its end.
pub proof fn lemma_parse_statement_bounds(ts: Seq<SpecToken>, k: int)
    requires
        0 <= k <= ts.len(),
    ensures
        k <= spec_parse_statement(ts, k).next <= ts.len(),
{
    let t = tok_at(ts, k);
    if t.kind == TokenType::Let {
        if tok_at(ts, k + 1).kind == TokenType::Ident && tok_at(ts, k + 2).kind
            == TokenType::Assign {
            lemma_parse_expression_bounds(ts, k + 3, LOWEST as int);
        }
    } else if t.kind == TokenType::Return {
        lemma_parse_expression_bounds(ts, k + 1, LOWEST as int);
    } else {
        lemma_parse_expression_bounds(ts, k, LOWEST as int);
    }
}

/// Parse a whole program: one statement at a time until the current token
/// is the end-of-input token, keeping the statements that parsed and every
/// diagnostic, in order.
pub open spec fn spec_parse_program(ts: Seq<SpecToken>, k: int) -> ProgOut
    decreases ts.len() + 1 - k via spec_parse_program_dec
{
    if tok_at(ts, k).kind == TokenType::Eof {
        ProgOut { stmts: Seq::empty(), errs: Seq::empty() }
    } else {
        let so = spec_parse_statement(ts, k);
        let rest = spec_parse_program(ts, so.next + 1);
        ProgOut {
            stmts: match so.stmt {
                Some(st) => seq![st] + rest.stmts,
                None => rest.stmts,
            },
            errs: so.errs + rest.errs,
        }
    }
}

#[via_fn]
proof fn spec_parse_program_dec(ts: Seq<SpecToken>, k: int) {
    if tok_at(ts, k).kind != TokenType::Eof {
        lemma_parse_statement_bounds(ts, k);
    }
}

/// The name a token category is printed under in diagnostics.
fn token_type_name(t: TokenType) -> (r: &'static str)
    ensures
        r@ == kind_name(t),
{
    match t {
        TokenType::Illegal => "Illegal",
        TokenType::Eof => "Eof",
        TokenType::Ident => "Ident",
        TokenType::Int => "Int",
        TokenType::Assign => "Assign",
        TokenType::Plus => "Plus",
        TokenType::Minus => "Minus",
        TokenType::Bang => "Bang",
        TokenType::Asterisk => "Asterisk",
        TokenType::Slash => "Slash",
        TokenType::Lt => "Lt",
        TokenType::Gt => "Gt",
        TokenType::Eq => "Eq",
        TokenType::NotEq => "NotEq",
        TokenType::Comma => "Comma",
        TokenType::Semicolon => "Semicolon",
        TokenType::LParen => "LParen",
        TokenType::RParen => "RParen",
        TokenType::LBrace => "LBrace",
        TokenType::RBrace => "RBrace",
        TokenType::Function => "Function",
        TokenType::Let => "Let",
        TokenType::True => "True",
        TokenType::False => "False",
        TokenType::If => "If",
        TokenType::Else => "Else",
        TokenType::Return => "Return",
    }
}

/// The binding power of a token kind in infix position.
fn token_precedence(t: TokenType) -> (r: i32)
    ensures
        r as int == precedence_of(t),
        LOWEST <= r,
{
    match t {
        TokenType::Eq => EQUALS,
        TokenType::NotEq => EQUALS,
        TokenType::Lt => LESSGREATER,
        TokenType::Gt => LESSGREATER,
        TokenType::Plus => SUM,
        TokenType::Minus => SUM,
        TokenType::Slash => PRODUCT,
        TokenType::Asterisk => PRODUCT,
        _ => LOWEST,
    }
}

/// A structured parse error: a human-readable message naming an
/// expected-versus-actual token mismatch, a failed integer conversion or a
/// missing prefix handler.
#[derive(Clone)]
pub struct ParserError(pub String);

impl View for ParserError {
    type V = Seq<char>;

    open spec fn view(&self) -> Seq<char> {
        self.0@
    }
}

impl ParserError {
    pub fn new(error: String) -> (r: ParserError)
        ensures
            r@ == error@,
    {
        ParserError(error)
    }
}

/// Abstract state of a parser: the token stream it walks, the index of the
/// token it stands on, and the diagnostics recorded so far.
pub struct SpecParser {
    pub toks: Seq<SpecToken>,
    pub pos: int,
    pub errors: Seq<Seq<char>>,
}

/// Recursive-descent parser over a lexer's token stream, with one token of
/// lookahead and an accumulated list of parse errors.
pub struct Parser {
    l: Lexer,
    current_token: Token,
    peek_token: Token,
    errors: Vec<ParserError>,
    start: Ghost<int>,
    idx: Ghost<int>,
}

impl View for Parser {
    type V = SpecParser;

    closed spec fn view(&self) -> SpecParser {
        SpecParser {
            toks: toks_from(self.l@.input, self.start@),
            pos: self.idx@,
            errors: Seq::new(self.errors@.len(), |i: int| self.errors@[i]@),
        }
    }
}

impl Parser {
    /// The buffered current and peek tokens are the ones of the stream at
    /// the parser's index, and the lexer stands ready to produce the token
    /// after them.
    pub closed spec fn wf(&self) -> bool {
        &&& self.l.wf()
        &&& 0 <= self.start@ <= self.l@.input.len()
        &&& self.idx@ >= 0
        &&& self.current_token@ == tok_at(self@.toks, self@.pos)
        &&& self.peek_token@ == tok_at(self@.toks, self@.pos + 1)
        &&& self.l@.pos == pos_after(self.l@.input, self.start@, (self.idx@ + 2) as nat)
    }

    /// Build a parser over `l`, priming the current and peek tokens with the
    /// lexer's next two tokens.
    pub fn new(l: Lexer) -> (p: Parser)
        requires
            l.wf(),
        ensures
            p.wf(),
            p@.toks == toks_from(l@.input, l@.pos),
            p@.pos == 0,
            p@.errors == Seq::<Seq<char>>::empty(),
    {
        let ghost start = l@.pos;
        let ghost s = l@.input;
        proof {
            l.lemma_wf_pos_bounds();
        }
        let mut l = l;
        let current_token = l.next_token();
        let peek_token = l.next_token();
        proof {
            lemma_stream_tok(s, start, 0);
            lemma_stream_tok(s, start, 1);
        }
        let p = Parser {
            l,
            current_token,
            peek_token,
            errors: Vec::new(),
            start: Ghost(start),
            idx: Ghost(0),
        };
        proof {
            assert(p@.errors =~= Seq::<Seq<char>>::empty());
        }
        p
    }

    /// The diagnostics recorded so far, in the order they arose.
    pub fn errors(&self) -> (r: Vec<ParserError>)
        ensures
            r@.len() == self@.errors.len(),
            forall|i: int| 0 <= i < r@.len() ==> (#[trigger] r@[i])@ == self@.errors[i],
    {
        let mut r: Vec<ParserError> = Vec::new();
        let n = self.errors.len();
        let mut i: usize = 0;
        while i < n
            invariant
                0 <= i <= n,
                n == self.errors.len(),
                r@.len() == i,
                forall|j: int| 0 <= j < i ==> (#[trigger] r@[j])@ == self@.errors[j],
            decreases n - i,
        {
            proof {
                assert(self@.errors[i as int] == self.errors@[i as int]@);
            }
            r.push(ParserError::new(self.errors[i].0.clone()));
            i = i + 1;
        }
        r
    }

    /// Record that the token after the current one was not of the expected
    /// kind.
    fn peek_error(&mut self, t: TokenType)
        requires
            old(self).wf(),
        ensures
            final(self).wf(),
            final(self)@.toks == old(self)@.toks,
            final(self)@.pos == old(self)@.pos,
            final(self)@.errors == old(self)@.errors + seq![
                peek_error_msg(t, tok_at(old(self)@.toks, old(self)@.pos + 1).kind),
            ],
    {
        let mut msg = String::new();
        msg.append("Expected next token to be ");
        msg.append(token_type_name(t));
        msg.append(", got ");
        msg.append(token_type_name(self.peek_token.token_type));
        msg.append(" instead.");
        self.errors.push(ParserError::new(msg));
        proof {
            assert(final(self)@.errors =~= old(self)@.errors + seq![
                peek_error_msg(t, tok_at(old(self)@.toks, old(self)@.pos + 1).kind),
            ]);
        }
    }

    /// Step the token window forward by one token.
    fn next_token(&mut self)
        requires
            old(self).wf(),
        ensures
            final(self).wf(),
            final(self)@.toks == old(self)@.toks,
            final(self)@.pos == old(self)@.pos + 1,
            final(self)@.errors == old(self)@.errors,
    {
        let ghost s = self.l@.input;
        let ghost start = self.start@;
        let ghost k = self.idx@;
        self.current_token = self.peek_token.duplicate();
        self.peek_token = self.l.next_token();
        proof {
            self.idx@ = k + 1;
            lemma_stream_tok(s, start, (k + 2) as nat);
        }
    }

    /// True when the current token has kind `t`.
    fn cur_token_is(&self, t: TokenType) -> (r: bool)
        requires
            self.wf(),
        ensures
            r == (tok_at(self@.toks, self@.pos).kind == t),
    {
        self.current_token.token_type == t
    }

    /// True when the peek token has kind `t`.
    fn peek_token_is(&self, t: TokenType) -> (r: bool)
        requires
            self.wf(),
        ensures
            r == (tok_at(self@.toks, self@.pos + 1).kind == t),
    {
        self.peek_token.token_type == t
    }

    /// When the peek token has kind `t`, advance onto it; otherwise record a
    /// peek error and stay put, so the caller can abort the statement.
    fn expect_peek(&mut self, t: TokenType) -> (r: bool)
        requires
            old(self).wf(),
        ensures
            final(self).wf(),
            final(self)@.toks == old(self)@.toks,
            r == (tok_at(old(self)@.toks, old(self)@.pos + 1).kind == t),
            r ==> final(self)@.pos == old(self)@.pos + 1 && final(self)@.errors == old(
                self,
            )@.errors,
            !r ==> final(self)@.pos == old(self)@.pos && final(self)@.errors == old(self)@.errors
                + seq![peek_error_msg(t, tok_at(old(self)@.toks, old(self)@.pos + 1).kind)],
    {
        if self.peek_token_is(t) {
            self.next_token();
            return true;
        }
        self.peek_error(t);
        false
    }

    /// Record that no handler can begin an expression at a token of kind
    /// `t`.
    fn no_prefix_parse_fn_error(&mut self, t: TokenType)
        requires
            old(self).wf(),
        ensures
            final(self).wf(),
            final(self)@.toks == old(self)@.toks,
            final(self)@.pos == old(self)@.pos,
            final(self)@.errors == old(self)@.errors + seq![no_prefix_error_msg(t)],
    {
        let mut msg = String::new();
        msg.append("No prefix parse function found for ");
        msg.append(token_type_name(t));
        self.errors.push(ParserError::new(msg));
        proof {
            assert(final(self)@.errors =~= old(self)@.errors + seq![no_prefix_error_msg(t)]);
        }
    }

    /// Wrap the current token as an identifier expression; the token window
    /// does not move.
    fn parse_identifier(&mut self) -> (r: Expression)
        requires
            old(self).wf(),
        ensures
            *final(self) == *old(self),
            final(self).wf(),
            r@ == (SpecExpr::Identifier {
                token: tok_at(old(self)@.toks, old(self)@.pos),
                value: tok_at(old(self)@.toks, old(self)@.pos).literal,
            }),
    {
        Expression::Identifier(
            IdentifierStruct::new(
                self.current_token.duplicate(),
                self.current_token.literal.clone(),
            ),
        )
    }

    /// Read the current token's literal as a 64-bit integer and wrap it as
    /// an integer-literal expression; when the digits do not fit, record a
    /// diagnostic and emit the node with an absent value rather than
    /// aborting.
    fn parse_integer_literal(&mut self) -> (r: Expression)
        requires
            old(self).wf(),
        ensures
            final(self).wf(),
            final(self)@.toks == old(self)@.toks,
            final(self)@.pos == old(self)@.pos,
            ({
                let t = tok_at(old(self)@.toks, old(self)@.pos);
                match spec_parse_i64(t.literal) {
                    Some(v) => r@ == (SpecExpr::IntegerLiteral { token: t, value: Some(v) })
                        && final(self)@.errors == old(self)@.errors,
                    None => r@ == (SpecExpr::IntegerLiteral { token: t, value: None })
                        && final(self)@.errors == old(self)@.errors + seq![int_error_msg(t.literal)],
                }
            }),
    {
        let value = match parse_i64(self.current_token.literal.as_str()) {
            Some(val) => Some(val),
            None => {
                let mut msg = String::new();
                msg.append("Could not parse ");
                msg.append(self.current_token.literal.as_str());
                msg.append(" as integer");
                self.errors.push(ParserError::new(msg));
                proof {
                    assert(final(self)@.errors =~= old(self)@.errors + seq![
                        int_error_msg(tok_at(old(self)@.toks, old(self)@.pos).literal),
                    ]);
                }
                None
            },
        };
        Expression::IntegerLiteral(
            IntegerLiteralStruct::new(self.current_token.duplicate(), value),
        )
    }

    /// Parse a prefix-operator expression: capture the operator, step past
    /// it, and parse the operand at prefix precedence; when the operand is
    /// missing the expression is abandoned.
    fn parse_prefix_expression(&mut self) -> (r: Option<Expression>)
        requires
            old(self).wf(),
            tok_at(old(self)@.toks, old(self)@.pos).kind == TokenType::Bang || tok_at(
                old(self)@.toks,
                old(self)@.pos,
            ).kind == TokenType::Minus,
        ensures
            final(self).wf(),
            final(self)@.toks == old(self)@.toks,
            ({
                let eo = spec_parse_prefix(old(self)@.toks, old(self)@.pos);
                &&& final(self)@.pos == eo.next
                &&& final(self)@.errors == old(self)@.errors + eo.errs
                &&& match (r, eo.expr) {
                    (Some(e), Some(se)) => e@ == se,
                    (None, None) => true,
                    _ => false,
                }
            }),
        decreases self@.toks.len() - self@.pos, 0int,
    {
        let token = self.current_token.duplicate();
        let operator = self.current_token.literal.clone();
        self.next_token();
        let right = self.parse_expression(PREFIX);
        match right {
            Some(right_expr) => Some(
                Expression::PrefixExpression(
                    PrefixExpressionStruct::new(token, operator, right_expr),
                ),
            ),
            None => None,
        }
    }

    /// Look up and run the prefix handler for a token kind: identifiers,
    /// integer literals and the two prefix operators have handlers; every
    /// other kind has none yet and yields nothing.
    fn prefix_parse_fns(&mut self, token_type: TokenType) -> (r: Option<Expression>)
        requires
            old(self).wf(),
            token_type == tok_at(old(self)@.toks, old(self)@.pos).kind,
        ensures
            final(self).wf(),
            final(self)@.toks == old(self)@.toks,
            (token_type == TokenType::Ident || token_type == TokenType::Int || token_type
                == TokenType::Bang || token_type == TokenType::Minus) ==> ({
                let eo = spec_parse_expression_prefix(old(self)@.toks, old(self)@.pos);
                &&& final(self)@.pos == eo.next
                &&& final(self)@.errors == old(self)@.errors + eo.errs
                &&& match (r, eo.expr) {
                    (Some(e), Some(se)) => e@ == se,
                    (None, None) => true,
                    _ => false,
                }
            }),
            !(token_type == TokenType::Ident || token_type == TokenType::Int || token_type
                == TokenType::Bang || token_type == TokenType::Minus) ==> r is None && *final(self)
                == *old(self),
        decreases self@.toks.len() - self@.pos, 2int,
    {
        let ghost ts = self@.toks;
        let ghost k = self@.pos;
        match token_type {
            TokenType::Ident => {
                let e = self.parse_identifier();
                proof {
                    assert(old(self)@.errors + Seq::<Seq<char>>::empty() =~= old(self)@.errors);
                }
                Some(e)
            },
            TokenType::Int => {
                let e = self.parse_integer_literal();
                proof {
                    assert(old(self)@.errors + Seq::<Seq<char>>::empty() =~= old(self)@.errors);
                }
                Some(e)
            },
            TokenType::Bang => self.parse_prefix_expression(),
            TokenType::Minus => self.parse_prefix_expression(),
            _ => None,
        }
    }

    /// The binding power of the current token.
    fn cur_precedence(&self) -> (r: i32)
        requires
            self.wf(),
        ensures
            r as int == precedence_of(tok_at(self@.toks, self@.pos).kind),
            LOWEST <= r,
    {
        token_precedence(self.current_token.token_type)
    }

    /// The binding power of the peek token.
    fn peek_precedence(&self) -> (r: i32)
        requires
            self.wf(),
        ensures
            r as int == precedence_of(tok_at(self@.toks, self@.pos + 1).kind),
            LOWEST <= r,
    {
        token_precedence(self.peek_token.token_type)
    }

    /// Parse an infix-operator expression: the operator is the current token
    /// and `left` the already-parsed left operand; step past the operator
    /// and parse the right operand at the operator's own binding power. When
    /// the right operand is missing the whole expression is abandoned.
    fn parse_infix_expression(&mut self, left: Expression) -> (r: Option<Expression>)
        requires
            old(self).wf(),
            has_infix(tok_at(old(self)@.toks, old(self)@.pos).kind),
        ensures
            final(self).wf(),
            final(self)@.toks == old(self)@.toks,
            ({
                let op = tok_at(old(self)@.toks, old(self)@.pos);
                let inner = spec_parse_expression(
                    old(self)@.toks,
                    old(self)@.pos + 1,
                    precedence_of(op.kind),
                );
                &&& final(self)@.pos == inner.next
                &&& final(self)@.errors == old(self)@.errors + inner.errs
                &&& match (r, inner.expr) {
                    (Some(e), Some(ie)) => e@ == (SpecExpr::Infix {
                        token: op,
                        left: Box::new(left@),
                        operator: op.literal,
                        right: Box::new(ie),
                    }),
                    (None, None) => true,
                    _ => false,
                }
            }),
        decreases self@.toks.len() - self@.pos, 1int,
    {
        let token = self.current_token.duplicate();
        let operator = self.current_token.literal.clone();
        let precedence = self.cur_precedence();
        self.next_token();
        let right = self.parse_expression(precedence);
        match right {
            Some(right_expr) => Some(
                Expression::InfixExpression(
                    InfixExpressionStruct::new(token, left, operator, right_expr),
                ),
            ),
            None => None,
        }
    }

    /// Look up and run the infix handler for a token kind: the arithmetic
    /// and comparison operators share one handler; every other kind has none
    /// and yields nothing.
    fn infix_parse_fns(&mut self, token_type: TokenType, expression: Expression) -> (r: Option<
        Expression,
    >)
        requires
            old(self).wf(),
            token_type == tok_at(old(self)@.toks, old(self)@.pos).kind,
        ensures
            final(self).wf(),
            final(self)@.toks == old(self)@.toks,
            has_infix(token_type) ==> ({
                let op = tok_at(old(self)@.toks, old(self)@.pos);
                let inner = spec_parse_expression(
                    old(self)@.toks,
                    old(self)@.pos + 1,
                    precedence_of(op.kind),
                );
                &&& final(self)@.pos == inner.next
                &&& final(self)@.errors == old(self)@.errors + inner.errs
                &&& match (r, inner.expr) {
                    (Some(e), Some(ie)) => e@ == (SpecExpr::Infix {
                        token: op,
                        left: Box::new(expression@),
                        operator: op.literal,
                        right: Box::new(ie),
                    }),
                    (None, None) => true,
                    _ => false,
                }
            }),
            !has_infix(token_type) ==> r is None && *final(self) == *old(self),
        decreases self@.toks.len() - self@.pos, 2int,
    {
        match token_type {
            TokenType::Plus => self.parse_infix_expression(expression),
            TokenType::Minus => self.parse_infix_expression(expression),
            TokenType::Slash => self.parse_infix_expression(expression),
            TokenType::Asterisk => self.parse_infix_expression(expression),
            TokenType::Eq => self.parse_infix_expression(expression),
            TokenType::NotEq => self.parse_infix_expression(expression),
            TokenType::Lt => self.parse_infix_expression(expression),
            TokenType::Gt => self.parse_infix_expression(expression),
            _ => None,
        }
    }

    /// Parse one expression at binding power `precedence`: run the prefix
    /// handler for the current token (recording a diagnostic when there is
    /// none), then fold in infix operators that bind more tightly than
    /// `precedence`; the strictly-greater comparison makes them
    /// left-associative.
    fn parse_expression(&mut self, precedence: i32) -> (r: Option<Expression>)
        requires
            old(self).wf(),
            LOWEST <= precedence,
        ensures
            final(self).wf(),
            final(self)@.toks == old(self)@.toks,
            ({
                let eo = spec_parse_expression(
                    old(self)@.toks,
                    old(self)@.pos,
                    precedence as int,
                );
                &&& final(self)@.pos == eo.next
                &&& final(self)@.errors == old(self)@.errors + eo.errs
                &&& match (r, eo.expr) {
                    (Some(e), Some(se)) => e@ == se,
                    (None, None) => true,
                    _ => false,
                }
            }),
        decreases self@.toks.len() - self@.pos, 3int,
    {
        let ghost ts = self@.toks;
        let ghost k0 = self@.pos;
        let ghost e0 = self@.errors;
        let ghost first = spec_parse_expression_prefix(ts, k0);
        let token_type = self.current_token.token_type;
        let left_opt = match token_type {
            TokenType::Ident | TokenType::Int | TokenType::Bang | TokenType::Minus => {
                self.prefix_parse_fns(token_type)
            },
            _ => {
                self.no_prefix_parse_fn_error(token_type);
                return None;
            },
        };
        let mut left_exp = match left_opt {
            Some(e) => e,
            None => {
                return None;
            },
        };
        proof {
            lemma_parse_expression_prefix_bounds(ts, k0);
            assert(clamp_pos(ts, k0, first.next) == first.next);
        }
        let ghost l0 = left_exp@;
        let ghost p0 = self@.pos;
        let ghost e_entry = self@.errors;
        let ghost full = spec_parse_infix_loop(ts, l0, p0, precedence as int);
        #[verifier::loop_isolation(false)]
        while self.peek_precedence() > precedence
            invariant
                self.wf(),
                self@.toks == ts,
                LOWEST <= precedence,
                0 <= k0 <= self@.pos <= ts.len(),
                full == spec_parse_infix_loop(ts, l0, p0, precedence as int),
                ({
                    let now = spec_parse_infix_loop(ts, left_exp@, self@.pos, precedence as int);
                    &&& full.expr == now.expr
                    &&& full.next == now.next
                    &&& e_entry + full.errs == self@.errors + now.errs
                }),
            decreases ts.len() - self@.pos,
        {
            let ghost pos_b = self@.pos;
            let ghost left_b = left_exp@;
            let ghost e_b = self@.errors;
            let ghost op = tok_at(ts, pos_b + 1);
            let ghost inner = spec_parse_expression(ts, pos_b + 2, precedence_of(op.kind));
            proof {
                assert(0 <= pos_b + 1 < ts.len()) by {
                    if !(0 <= pos_b + 1 < ts.len()) {
                        assert(tok_at(ts, pos_b + 1) == eof_token());
                    }
                };
            }
            self.next_token();
            let result = self.infix_parse_fns(self.current_token.token_type, left_exp);
            proof {
                lemma_parse_expression_bounds(ts, pos_b + 2, precedence_of(op.kind));
                assert(clamp_pos(ts, pos_b + 2, inner.next) == inner.next);
            }
            match result {
                Some(e) => {
                    left_exp = e;
                    proof {
                        let rest = spec_parse_infix_loop(
                            ts,
                            left_exp@,
                            inner.next,
                            precedence as int,
                        );
                        assert(e_b + (inner.errs + rest.errs) =~= (e_b + inner.errs) + rest.errs);
                    }
                },
                None => {
                    proof {
                        assert(e_entry + full.errs =~= self@.errors);
                        assert((e0 + first.errs) + full.errs =~= e0 + (first.errs + full.errs));
                    }
                    return None;
                },
            }
        }
        proof {
            let now = spec_parse_infix_loop(ts, left_exp@, self@.pos, precedence as int);
            assert(now == (ExprOut {
                expr: Some(left_exp@),
                next: self@.pos,
                errs: Seq::<Seq<char>>::empty(),
            }));
            assert(e_entry + full.errs =~= self@.errors + now.errs);
            assert(self@.errors + Seq::<Seq<char>>::empty() =~= self@.errors);
            assert((e0 + first.errs) + full.errs =~= e0 + (first.errs + full.errs));
        }
        Some(left_exp)
    }

    /// Parse a `let` statement: the current token is `let`; the next must be
    /// the binding's name and the one after it `=`, else the statement is
    /// aborted with a peek error. The bound value is parsed as a full
    /// expression at the lowest binding power and attached, and an optional
    /// trailing semicolon is consumed.
    fn parse_let_statement(&mut self) -> (r: Option<Statement>)
        requires
            old(self).wf(),
            tok_at(old(self)@.toks, old(self)@.pos).kind == TokenType::Let,
        ensures
            final(self).wf(),
            final(self)@.toks == old(self)@.toks,
            ({
                let so = spec_parse_let(old(self)@.toks, old(self)@.pos);
                &&& final(self)@.pos == so.next
                &&& final(self)@.errors == old(self)@.errors + so.errs
                &&& match (r, so.stmt) {
                    (Some(st), Some(ss)) => st@ == ss,
                    (None, None) => true,
                    _ => false,
                }
            }),
    {
        let ghost ts = self@.toks;
        let let_token = self.current_token.duplicate();
        if !self.expect_peek(TokenType::Ident) {
            return None;
        }
        let statement_name = IdentifierStruct::new(
            self.current_token.duplicate(),
            self.current_token.literal.clone(),
        );
        if !self.expect_peek(TokenType::Assign) {
            proof {
                assert((old(self)@.errors + Seq::<Seq<char>>::empty()) + spec_parse_let(
                    ts,
                    old(self)@.pos,
                ).errs =~= old(self)@.errors + spec_parse_let(ts, old(self)@.pos).errs);
            }
            return None;
        }
        self.next_token();
        let value = self.parse_expression(LOWEST);
        if self.peek_token_is(TokenType::Semicolon) {
            self.next_token();
        }
        match value {
            Some(v) => Some(
                Statement::Let(LetStatement::new(let_token, statement_name, Some(v))),
            ),
            None => None,
        }
    }

    /// Parse a `return` statement: the current token is `return`; the
    /// returned value is parsed as a full expression at the lowest binding
    /// power and attached, and an optional trailing semicolon is consumed.
    fn parse_return_statement(&mut self) -> (r: Option<Statement>)
        requires
            old(self).wf(),
        ensures
            final(self).wf(),
            final(self)@.toks == old(self)@.toks,
            ({
                let so = spec_parse_return(old(self)@.toks, old(self)@.pos);
                &&& final(self)@.pos == so.next
                &&& final(self)@.errors == old(self)@.errors + so.errs
                &&& match (r, so.stmt) {
                    (Some(st), Some(ss)) => st@ == ss,
                    (None, None) => true,
                    _ => false,
                }
            }),
    {
        let return_token = self.current_token.duplicate();
        self.next_token();
        let value = self.parse_expression(LOWEST);
        if self.peek_token_is(TokenType::Semicolon) {
            self.next_token();
        }
        match value {
            Some(v) => Some(Statement::Return(ReturnStatement::new(return_token, Some(v)))),
            None => None,
        }
    }

    /// Parse a bare expression as a statement, then consume an optional
    /// trailing semicolon; the statement is dropped when the expression
    /// could not be parsed.
    fn parse_expression_statement(&mut self) -> (r: Option<Statement>)
        requires
            old(self).wf(),
        ensures
            final(self).wf(),
            final(self)@.toks == old(self)@.toks,
            ({
                let so = spec_parse_expression_statement(old(self)@.toks, old(self)@.pos);
                &&& final(self)@.pos == so.next
                &&& final(self)@.errors == old(self)@.errors + so.errs
                &&& match (r, so.stmt) {
                    (Some(st), Some(ss)) => st@ == ss,
                    (None, None) => true,
                    _ => false,
                }
            }),
    {
        let expression_token = self.current_token.duplicate();
        let expression = self.parse_expression(LOWEST);
        if self.peek_token_is(TokenType::Semicolon) {
            self.next_token();
        }
        match expression {
            Some(e) => Some(
                Statement::Expression(ExpressionStatement::new(expression_token, Some(e))),
            ),
            None => None,
        }
    }

    /// Parse one statement, dispatching on the kind of the current token:
    /// `let` and `return` have their own forms, everything else is parsed as
    /// an expression statement.
    fn parse_statement(&mut self) -> (r: Option<Statement>)
        requires
            old(self).wf(),
        ensures
            final(self).wf(),
            final(self)@.toks == old(self)@.toks,
            ({
                let so = spec_parse_statement(old(self)@.toks, old(self)@.pos);
                &&& final(self)@.pos == so.next
                &&& final(self)@.errors == old(self)@.errors + so.errs
                &&& match (r, so.stmt) {
                    (Some(st), Some(ss)) => st@ == ss,
                    (None, None) => true,
                    _ => false,
                }
            }),
    {
        match self.current_token.token_type {
            TokenType::Let => self.parse_let_statement(),
            TokenType::Return => self.parse_return_statement(),
            _ => self.parse_expression_statement(),
        }
    }

    /// Parse the whole input: one top-level statement at a time until the
    /// end of the input, appending each statement that parses and omitting
    /// the ones that fail, while the diagnostics accumulate in order. The
    /// parse never aborts: it always returns a program, however partial.
    pub fn parse_program(&mut self) -> (prog: Program)
        requires
            old(self).wf(),
        ensures
            final(self).wf(),
            final(self)@.toks == old(self)@.toks,
            ({
                let out = spec_parse_program(old(self)@.toks, old(self)@.pos);
                &&& prog@ == out.stmts
                &&& final(self)@.errors == old(self)@.errors + out.errs
            }),
            tok_at(old(self)@.toks, final(self)@.pos).kind == TokenType::Eof,
    {
        let ghost ts = self@.toks;
        let ghost e0 = self@.errors;
        let ghost out0 = spec_parse_program(ts, self@.pos);
        let mut program = Program::new();
        while !self.cur_token_is(TokenType::Eof)
            invariant
                self.wf(),
                self@.toks == ts,
                ({
                    let outk = spec_parse_program(ts, self@.pos);
                    &&& out0 == spec_parse_program(ts, old(self)@.pos)
                    &&& out0.stmts == program@ + outk.stmts
                    &&& e0 + out0.errs == self@.errors + outk.errs
                    &&& e0 == old(self)@.errors
                }),
            decreases ts.len() + 1 - self@.pos,
        {
            let ghost k = self@.pos;
            let ghost so = spec_parse_statement(ts, k);
            let ghost outk = spec_parse_program(ts, k);
            let ghost rest = spec_parse_program(ts, so.next + 1);
            let ghost prev_stmts = program@;
            let ghost prev_errs = self@.errors;
            proof {
                lemma_parse_statement_bounds(ts, k);
            }
            let statement = self.parse_statement();
            if let Some(stmt) = statement {
                proof {
                    assert(stmt@ == so.stmt.unwrap());
                }
                program.statements.push(stmt);
                proof {
                    assert(program@ =~= prev_stmts.push(so.stmt.unwrap()));
                }
            }
            self.next_token();
            proof {
                match so.stmt {
                    Some(st) => {
                        assert(prev_stmts + outk.stmts =~= program@ + rest.stmts);
                    },
                    None => {
                        assert(prev_stmts + outk.stmts =~= program@ + rest.stmts);
                    },
                }
                assert(prev_errs + outk.errs =~= (prev_errs + so.errs) + rest.errs);
            }
        }
        proof {
            let outk = spec_parse_program(ts, self@.pos);
            assert(outk.stmts =~= Seq::<SpecStmt>::empty());
            assert(outk.errs =~= Seq::<Seq<char>>::empty());
            assert(program@ + outk.stmts =~= program@);
            assert(self@.errors + outk.errs =~= self@.errors);
        }
        program
    }
}

} // verus!
