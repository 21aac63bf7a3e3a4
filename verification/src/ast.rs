use vstd::prelude::*;
use vstd::string::*;

use crate::number::{dec_str_i64, i64_to_string};
use crate::token::{SpecToken, Token};

verus! {

/// Mathematical model of an expression node.
pub enum SpecExpr {
    Identifier { token: SpecToken, value: Seq<char> },
    IntegerLiteral { token: SpecToken, value: Option<i64> },
    Prefix { token: SpecToken, operator: Seq<char>, right: Box<SpecExpr> },
    Infix { token: SpecToken, left: Box<SpecExpr>, operator: Seq<char>, right: Box<SpecExpr> },
}

/// Mathematical model of a statement node.
pub enum SpecStmt {
    Let { token: SpecToken, name: SpecExpr, value: Option<SpecExpr> },
    Return { token: SpecToken, value: Option<SpecExpr> },
    Expression { token: SpecToken, expression: Option<SpecExpr> },
}

/// The literal of the token an expression originated from.
pub open spec fn expr_token_literal(e: SpecExpr) -> Seq<char> {
    match e {
        SpecExpr::Identifier { token, .. } => token.literal,
        SpecExpr::IntegerLiteral { token, .. } => token.literal,
        SpecExpr::Prefix { token, .. } => token.literal,
        SpecExpr::Infix { token, .. } => token.literal,
    }
}

/// True when the printed form of an expression is defined: every integer
/// literal in it carries a value.
pub open spec fn expr_printable(e: SpecExpr) -> bool
    decreases e,
{
    match e {
        SpecExpr::Identifier { .. } => true,
        SpecExpr::IntegerLiteral { value, .. } => value is Some,
        SpecExpr::Prefix { right, .. } => expr_printable(*right),
        SpecExpr::Infix { left, right, .. } => expr_printable(*left) && expr_printable(*right),
    }
}

/// The printed form of an expression: an identifier's name, an integer's
/// decimal notation, or a parenthesized operator and operand.
pub open spec fn expr_string(e: SpecExpr) -> Seq<char>
    decreases e,
{
    match e {
        SpecExpr::Identifier { value, .. } => value,
        SpecExpr::IntegerLiteral { value, .. } => match value {
            Some(v) => dec_str_i64(v as int),
            None => Seq::empty(),
        },
        SpecExpr::Prefix { operator, right, .. } => seq!['('] + operator + expr_string(*right)
            + seq![')'],
        SpecExpr::Infix { left, operator, right, .. } => seq!['('] + expr_string(*left)
            + seq![' '] + operator + seq![' '] + expr_string(*right) + seq![')'],
    }
}

pub open spec fn opt_expr_printable(v: Option<SpecExpr>) -> bool {
    match v {
        Some(e) => expr_printable(e),
        None => true,
    }
}

/// The printed form of an optional expression slot; an absent value prints
/// as nothing.
pub open spec fn opt_expr_string(v: Option<SpecExpr>) -> Seq<char> {
    match v {
        Some(e) => expr_string(e),
        None => Seq::empty(),
    }
}

/// The literal of the token a statement was introduced by.
pub open spec fn stmt_token_literal(st: SpecStmt) -> Seq<char> {
    match st {
        SpecStmt::Let { token, .. } => token.literal,
        SpecStmt::Return { token, .. } => token.literal,
        SpecStmt::Expression { token, .. } => token.literal,
    }
}

/// True when the printed form of a statement is defined.
pub open spec fn stmt_printable(st: SpecStmt) -> bool {
    match st {
        SpecStmt::Let { name, value, .. } => expr_printable(name) && opt_expr_printable(value),
        SpecStmt::Return { value, .. } => opt_expr_printable(value),
        SpecStmt::Expression { expression, .. } => opt_expr_printable(expression),
    }
}

/// The printed form of a statement.
pub open spec fn stmt_string(st: SpecStmt) -> Seq<char> {
    match st {
        SpecStmt::Let { token, name, value } => token.literal + seq![' '] + expr_string(name)
            + seq![' ', '=', ' '] + opt_expr_string(value) + seq![';'],
        SpecStmt::Return { token, value } => token.literal + seq![' '] + opt_expr_string(value)
            + seq![';'],
        SpecStmt::Expression { expression, .. } => opt_expr_string(expression),
    }
}

/// The printed form of a sequence of statements, in order, with nothing
/// between them.
pub open spec fn stmts_string(sts: Seq<SpecStmt>) -> Seq<char>
    decreases sts.len(),
{
    if sts.len() == 0 {
        Seq::empty()
    } else {
        stmts_string(sts.drop_last()) + stmt_string(sts.last())
    }
}

/// A node of the syntax tree: it can reproduce the literal of the token it
/// originated from and print itself back as source-like text.
pub trait Node {
    spec fn spec_token_literal(&self) -> Seq<char>;

    spec fn spec_string(&self) -> Seq<char>;

    /// True when the node's printed form is defined; printing is only owed
    /// on such nodes.
    spec fn printable(&self) -> bool;

    fn token_literal(&self) -> (r: String)
        ensures
            r@ == self.spec_token_literal(),
    ;

    fn string(&self) -> (r: String)
        requires
            self.printable(),
        ensures
            r@ == self.spec_string(),
    ;
}

/// An identifier expression: a name, with the token it came from.
#[derive(Debug)]
pub struct IdentifierStruct {
    pub token: Token,
    pub value: String,
}

impl View for IdentifierStruct {
    type V = SpecExpr;

    open spec fn view(&self) -> SpecExpr {
        SpecExpr::Identifier { token: self.token@, value: self.value@ }
    }
}

impl IdentifierStruct {
    pub fn new(token: Token, value: String) -> (r: IdentifierStruct)
        ensures
            r@ == (SpecExpr::Identifier { token: token@, value: value@ }),
    {
        IdentifierStruct { token, value }
    }
}

/// An integer literal expression; the value is absent when the literal's
/// digits name a value that does not fit in 64 bits.
#[derive(Debug)]
pub struct IntegerLiteralStruct {
    pub token: Token,
    pub value: Option<i64>,
}

impl View for IntegerLiteralStruct {
    type V = SpecExpr;

    open spec fn view(&self) -> SpecExpr {
        SpecExpr::IntegerLiteral { token: self.token@, value: self.value }
    }
}

impl IntegerLiteralStruct {
    pub fn new(token: Token, value: Option<i64>) -> (r: IntegerLiteralStruct)
        ensures
            r@ == (SpecExpr::IntegerLiteral { token: token@, value: value }),
    {
        IntegerLiteralStruct { token, value }
    }
}

/// A prefix-operator expression: the operator's text and the operand it
/// applies to, which the node owns outright.
#[derive(Debug)]
pub struct PrefixExpressionStruct {
    pub token: Token,
    pub operator: String,
    pub right: Box<Expression>,
}

impl View for PrefixExpressionStruct {
    type V = SpecExpr;

    open spec fn view(&self) -> SpecExpr {
        SpecExpr::Prefix {
            token: self.token@,
            operator: self.operator@,
            right: Box::new(expr_view(*self.right)),
        }
    }
}

impl PrefixExpressionStruct {
    pub fn new(token: Token, operator: String, right: Expression) -> (r: PrefixExpressionStruct)
        ensures
            r@ == (SpecExpr::Prefix {
                token: token@,
                operator: operator@,
                right: Box::new(right@),
            }),
    {
        PrefixExpressionStruct { token, operator, right: Box::new(right) }
    }
}

/// An infix-operator expression: the operator's text and the two operands
/// it combines, which the node owns outright.
#[derive(Debug)]
pub struct InfixExpressionStruct {
    pub token: Token,
    pub left: Box<Expression>,
    pub operator: String,
    pub right: Box<Expression>,
}

impl View for InfixExpressionStruct {
    type V = SpecExpr;

    open spec fn view(&self) -> SpecExpr {
        SpecExpr::Infix {
            token: self.token@,
            left: Box::new(expr_view(*self.left)),
            operator: self.operator@,
            right: Box::new(expr_view(*self.right)),
        }
    }
}

impl InfixExpressionStruct {
    pub fn new(token: Token, left: Expression, operator: String, right: Expression) -> (r:
        InfixExpressionStruct)
        ensures
            r@ == (SpecExpr::Infix {
                token: token@,
                left: Box::new(left@),
                operator: operator@,
                right: Box::new(right@),
            }),
    {
        InfixExpressionStruct { token, left: Box::new(left), operator, right: Box::new(right) }
    }
}

/// An expression node: a closed variant set, designed to grow.
#[derive(Debug)]
pub enum Expression {
    Identifier(IdentifierStruct),
    IntegerLiteral(IntegerLiteralStruct),
    PrefixExpression(PrefixExpressionStruct),
    InfixExpression(InfixExpressionStruct),
}

/// The model of an expression node, child nodes included.
pub open spec fn expr_view(e: Expression) -> SpecExpr
    decreases e,
{
    match e {
        Expression::Identifier(i) => SpecExpr::Identifier { token: i.token@, value: i.value@ },
        Expression::IntegerLiteral(i) => SpecExpr::IntegerLiteral {
            token: i.token@,
            value: i.value,
        },
        Expression::PrefixExpression(p) => SpecExpr::Prefix {
            token: p.token@,
            operator: p.operator@,
            right: Box::new(expr_view(*p.right)),
        },
        Expression::InfixExpression(p) => SpecExpr::Infix {
            token: p.token@,
            left: Box::new(expr_view(*p.left)),
            operator: p.operator@,
            right: Box::new(expr_view(*p.right)),
        },
    }
}

impl View for Expression {
    type V = SpecExpr;

    open spec fn view(&self) -> SpecExpr {
        expr_view(*self)
    }
}

impl Expression {
    /// The identifier this expression wraps, or nothing when it is not an
    /// identifier expression.
    pub fn get_expression(&self) -> (r: Option<IdentifierStruct>)
        ensures
            (r is Some) == (self@ is Identifier),
            r is Some ==> r.unwrap()@ == self@,
    {
        match self {
            Expression::Identifier(i) => Some(
                IdentifierStruct { token: i.token.duplicate(), value: i.value.clone() },
            ),
            _ => None,
        }
    }
}

/// The model of an optional expression slot.
pub open spec fn opt_expr_view(v: Option<Expression>) -> Option<SpecExpr> {
    match v {
        Some(e) => Some(expr_view(e)),
        None => None,
    }
}

/// The printed form of an expression.
fn expr_string_exec(e: &Expression) -> (r: String)
    requires
        expr_printable(e@),
    ensures
        r@ == expr_string(e@),
    decreases *e,
{
    match e {
        Expression::Identifier(i) => i.value.clone(),
        Expression::IntegerLiteral(i) => match i.value {
            Some(v) => i64_to_string(v),
            None => String::new(),
        },
        Expression::PrefixExpression(p) => {
            let mut out = String::new();
            out.append("(");
            out.append(p.operator.as_str());
            let rs = expr_string_exec(&*p.right);
            out.append(rs.as_str());
            out.append(")");
            proof {
                reveal_strlit("(");
                reveal_strlit(")");
                assert("("@ =~= seq!['(']);
                assert(")"@ =~= seq![')']);
                assert(out@ =~= expr_string(e@));
            }
            out
        },
        Expression::InfixExpression(p) => {
            let mut out = String::new();
            out.append("(");
            let ls = expr_string_exec(&*p.left);
            out.append(ls.as_str());
            out.append(" ");
            out.append(p.operator.as_str());
            out.append(" ");
            let rs = expr_string_exec(&*p.right);
            out.append(rs.as_str());
            out.append(")");
            proof {
                reveal_strlit("(");
                reveal_strlit(")");
                reveal_strlit(" ");
                assert("("@ =~= seq!['(']);
                assert(")"@ =~= seq![')']);
                assert(" "@ =~= seq![' ']);
                assert(out@ =~= expr_string(e@));
            }
            out
        },
    }
}

impl Node for Expression {
    open spec fn spec_token_literal(&self) -> Seq<char> {
        expr_token_literal(self@)
    }

    open spec fn spec_string(&self) -> Seq<char> {
        expr_string(self@)
    }

    open spec fn printable(&self) -> bool {
        expr_printable(self@)
    }

    fn token_literal(&self) -> (r: String) {
        match self {
            Expression::Identifier(i) => i.token.literal.clone(),
            Expression::IntegerLiteral(i) => i.token.literal.clone(),
            Expression::PrefixExpression(p) => p.token.literal.clone(),
            Expression::InfixExpression(p) => p.token.literal.clone(),
        }
    }

    fn string(&self) -> (r: String) {
        expr_string_exec(self)
    }
}

/// A `let` statement: it binds a name to a value expression. The name slot
/// holds only the `Identifier` expression variant.
#[derive(Debug)]
pub struct LetStatement {
    pub token: Token,
    pub name: Expression,
    pub value: Option<Expression>,
}

impl View for LetStatement {
    type V = SpecStmt;

    open spec fn view(&self) -> SpecStmt {
        SpecStmt::Let {
            token: self.token@,
            name: self.name@,
            value: opt_expr_view(self.value),
        }
    }
}

impl LetStatement {
    pub fn new(token: Token, name: IdentifierStruct, value: Option<Expression>) -> (r:
        LetStatement)
        ensures
            r@ == (SpecStmt::Let { token: token@, name: name@, value: opt_expr_view(value) }),
    {
        LetStatement { token, name: Expression::Identifier(name), value }
    }
}

/// A `return` statement wrapping an optional value expression.
#[derive(Debug)]
pub struct ReturnStatement {
    pub token: Token,
    pub value: Option<Expression>,
}

impl View for ReturnStatement {
    type V = SpecStmt;

    open spec fn view(&self) -> SpecStmt {
        SpecStmt::Return { token: self.token@, value: opt_expr_view(self.value) }
    }
}

impl ReturnStatement {
    pub fn new(token: Token, value: Option<Expression>) -> (r: ReturnStatement)
        ensures
            r@ == (SpecStmt::Return { token: token@, value: opt_expr_view(value) }),
    {
        ReturnStatement { token, value }
    }
}

/// A bare expression used as a full statement.
#[derive(Debug)]
pub struct ExpressionStatement {
    pub token: Token,
    pub expression: Option<Expression>,
}

impl View for ExpressionStatement {
    type V = SpecStmt;

    open spec fn view(&self) -> SpecStmt {
        SpecStmt::Expression { token: self.token@, expression: opt_expr_view(self.expression) }
    }
}

impl ExpressionStatement {
    pub fn new(token: Token, expression: Option<Expression>) -> (r: ExpressionStatement)
        ensures
            r@ == (SpecStmt::Expression {
                token: token@,
                expression: opt_expr_view(expression),
            }),
    {
        ExpressionStatement { token, expression }
    }
}

/// A statement node: a closed variant set over let, return and expression
/// statements.
#[derive(Debug)]
pub enum Statement {
    Let(LetStatement),
    Return(ReturnStatement),
    Expression(ExpressionStatement),
}

impl View for Statement {
    type V = SpecStmt;

    open spec fn view(&self) -> SpecStmt {
        match self {
            Statement::Let(s) => s@,
            Statement::Return(s) => s@,
            Statement::Expression(s) => s@,
        }
    }
}

impl Node for Statement {
    open spec fn spec_token_literal(&self) -> Seq<char> {
        stmt_token_literal(self@)
    }

    open spec fn spec_string(&self) -> Seq<char> {
        stmt_string(self@)
    }

    open spec fn printable(&self) -> bool {
        stmt_printable(self@)
    }

    fn token_literal(&self) -> (r: String) {
        match self {
            Statement::Let(s) => s.token.literal.clone(),
            Statement::Return(s) => s.token.literal.clone(),
            Statement::Expression(s) => s.token.literal.clone(),
        }
    }

    fn string(&self) -> (r: String) {
        proof {
            reveal_strlit(" ");
            reveal_strlit(" = ");
            reveal_strlit(";");
            assert(" "@ =~= seq![' ']);
            assert(" = "@ =~= seq![' ', '=', ' ']);
            assert(";"@ =~= seq![';']);
        }
        match self {
            Statement::Let(ls) => {
                let mut out = String::new();
                out.append(ls.token.literal.as_str());
                out.append(" ");
                let ns = expr_string_exec(&ls.name);
                out.append(ns.as_str());
                out.append(" = ");
                match &ls.value {
                    Some(v) => {
                        let vs = expr_string_exec(v);
                        out.append(vs.as_str());
                    },
                    None => {},
                }
                out.append(";");
                proof {
                    assert(out@ =~= stmt_string(self@));
                }
                out
            },
            Statement::Return(rs) => {
                let mut out = String::new();
                out.append(rs.token.literal.as_str());
                out.append(" ");
                match &rs.value {
                    Some(v) => {
                        let vs = expr_string_exec(v);
                        out.append(vs.as_str());
                    },
                    None => {},
                }
                out.append(";");
                proof {
                    assert(out@ =~= stmt_string(self@));
                }
                out
            },
            Statement::Expression(es) => {
                match &es.expression {
                    Some(v) => expr_string_exec(v),
                    None => {
                        let out = String::new();
                        proof {
                            assert(out@ =~= stmt_string(self@));
                        }
                        out
                    },
                }
            },
        }
    }
}

/// The parsed form of a whole source text: its top-level statements in
/// source order.
pub struct Program {
    pub statements: Vec<Statement>,
}

impl View for Program {
    type V = Seq<SpecStmt>;

    open spec fn view(&self) -> Seq<SpecStmt> {
        Seq::new(self.statements@.len(), |i: int| self.statements@[i]@)
    }
}

impl Program {
    /// An empty program.
    pub fn new() -> (r: Program)
        ensures
            r@ == Seq::<SpecStmt>::empty(),
    {
        let r = Program { statements: Vec::new() };
        proof {
            assert(r@ =~= Seq::<SpecStmt>::empty());
        }
        r
    }
}

impl Node for Program {
    open spec fn spec_token_literal(&self) -> Seq<char> {
        if self@.len() > 0 {
            stmt_token_literal(self@[0])
        } else {
            Seq::empty()
        }
    }

    open spec fn spec_string(&self) -> Seq<char> {
        stmts_string(self@)
    }

    open spec fn printable(&self) -> bool {
        forall|i: int| 0 <= i < self@.len() ==> stmt_printable(#[trigger] self@[i])
    }

    fn token_literal(&self) -> (r: String) {
        if self.statements.len() > 0 {
            let st = &self.statements[0];
            st.token_literal()
        } else {
            String::new()
        }
    }

    fn string(&self) -> (r: String) {
        let mut out = String::new();
        let n = self.statements.len();
        let mut i: usize = 0;
        while i < n
            invariant
                0 <= i <= n,
                n == self.statements.len(),
                self.printable(),
                out@ == stmts_string(self@.take(i as int)),
            decreases n - i,
        {
            let st = &self.statements[i];
            proof {
                assert(self@[i as int] == self.statements@[i as int]@);
            }
            let ss = st.string();
            out.append(ss.as_str());
            proof {
                assert(self@.take(i + 1).drop_last() =~= self@.take(i as int));
                assert(self@.take(i + 1).last() == self@[i as int]);
                assert(stmt_string(st@) == stmt_string(self@[i as int]));
            }
            i = i + 1;
        }
        proof {
            assert(self@.take(n as int) =~= self@);
        }
        out
    }
}

/// A fresh copy of an expression tree, with the same model as the tree it
/// copies.
fn clone_expr(e: &Expression) -> (r: Expression)
    ensures
        r@ == e@,
    decreases *e,
{
    match e {
        Expression::Identifier(i) => Expression::Identifier(
            IdentifierStruct { token: i.token.duplicate(), value: i.value.clone() },
        ),
        Expression::IntegerLiteral(i) => Expression::IntegerLiteral(
            IntegerLiteralStruct { token: i.token.duplicate(), value: i.value },
        ),
        Expression::PrefixExpression(p) => Expression::PrefixExpression(
            PrefixExpressionStruct {
                token: p.token.duplicate(),
                operator: p.operator.clone(),
                right: Box::new(clone_expr(&*p.right)),
            },
        ),
        Expression::InfixExpression(p) => Expression::InfixExpression(
            InfixExpressionStruct {
                token: p.token.duplicate(),
                left: Box::new(clone_expr(&*p.left)),
                operator: p.operator.clone(),
                right: Box::new(clone_expr(&*p.right)),
            },
        ),
    }
}

impl Clone for IdentifierStruct {
    /// Cloning keeps the model of the node.
    fn clone(&self) -> (r: Self)
        ensures
            r@ == self@,
    {
        IdentifierStruct { token: self.token.duplicate(), value: self.value.clone() }
    }
}

impl Clone for IntegerLiteralStruct {
    /// Cloning keeps the model of the node.
    fn clone(&self) -> (r: Self)
        ensures
            r@ == self@,
    {
        IntegerLiteralStruct { token: self.token.duplicate(), value: self.value }
    }
}

impl Clone for PrefixExpressionStruct {
    /// Cloning keeps the model of the node.
    fn clone(&self) -> (r: Self)
        ensures
            r@ == self@,
    {
        PrefixExpressionStruct {
            token: self.token.duplicate(),
            operator: self.operator.clone(),
            right: Box::new(clone_expr(&*self.right)),
        }
    }
}

impl Clone for InfixExpressionStruct {
    /// Cloning keeps the model of the node.
    fn clone(&self) -> (r: Self)
        ensures
            r@ == self@,
    {
        InfixExpressionStruct {
            token: self.token.duplicate(),
            left: Box::new(clone_expr(&*self.left)),
            operator: self.operator.clone(),
            right: Box::new(clone_expr(&*self.right)),
        }
    }
}

impl Clone for Expression {
    /// Cloning keeps the model of the whole tree.
    fn clone(&self) -> (r: Self)
        ensures
            r@ == self@,
    {
        clone_expr(self)
    }
}

} // verus!
