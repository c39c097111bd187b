//! Turns a token stream into statements: recursive descent, with precedence
//! climbing for binary operators and one-token recovery after each error.
use vstd::prelude::*;
use vstd::string::*;
use crate::ast::{Expression, Statement, Type, TypeMapping};
use crate::grammar::{
    args_at, at, atom_at, binary_at, binary_rest, body_at, expr_at, expr_view, exprs_view,
    function_at, params_at, params_view, prefix_at, program_at, return_type_at, return_type_view,
    same_args, same_expr, same_stmt, stmt_at, stmt_view, stmts_view, texts_view, ExprV, StmtV,
    TypeV,
};
use crate::text::{decimal_of, push_decimal, push_str};
use crate::tokens::{kind_name, kind_text, location_text, Location, Token, TokenKind};

verus! {

/// `+ - * /`: the operators of binary expressions.
pub open spec fn is_binary_op(k: TokenKind) -> bool {
    k == TokenKind::Plus || k == TokenKind::Minus || k == TokenKind::Star || k == TokenKind::Slash
}

/// The (left, right) binding powers of an operator.
pub open spec fn binding_power(k: TokenKind) -> (usize, usize) {
    if k == TokenKind::Plus || k == TokenKind::Minus {
        (1, 2)
    } else if k == TokenKind::Star || k == TokenKind::Slash {
        (3, 4)
    } else {
        (0, 0)
    }
}

/// An expression that the grammar admits as an operand of a prefix sign.
pub open spec fn is_atom(e: Expression) -> bool {
    !(e is Binary) && !(e is Unary)
}

/// A parameter as the grammar produces it: an identifier of type `int`.
pub open spec fn param_wf(p: TypeMapping) -> bool {
    &&& p.t is Int
    &&& match p.expr {
        Expression::Id { name } => name.kind == TokenKind::Id,
        _ => false,
    }
}

/// An expression tree of the shape the parser builds.
pub open spec fn expr_wf(e: Expression) -> bool
    decreases e, 0int,
{
    match e {
        Expression::Binary { lhs, op, rhs } => is_binary_op(op) && expr_wf(*lhs) && expr_wf(*rhs),
        Expression::Unary { op, expr } => (op == TokenKind::Plus || op == TokenKind::Minus)
            && is_atom(*expr) && expr_wf(*expr),
        Expression::FunctionCall { callee, args } => {
            &&& (*callee is Id || *callee is FunctionLiteral)
            &&& expr_wf(*callee)
            &&& forall|i: int| 0 <= i < args@.len() ==> expr_wf(#[trigger] args@[i])
        },
        Expression::FunctionLiteral { name, params, return_type, body } => {
            &&& (name matches Some(t) ==> t.kind == TokenKind::Id)
            &&& forall|i: int| 0 <= i < params@.len() ==> param_wf(#[trigger] params@[i])
            &&& (return_type matches Some(t) ==> t is Int)
            &&& forall|i: int| 0 <= i < body@.len() ==> stmt_wf(#[trigger] body@[i])
        },
        Expression::Id { name } => name.kind == TokenKind::Id,
        Expression::Int { value } => value.kind == TokenKind::Int,
    }
}

/// A statement of the shape the parser hands out (never `Halt`).
pub open spec fn stmt_wf(s: Statement) -> bool
    decreases s, 0int,
{
    match s {
        Statement::Return { value } => match value {
            Some(e) => expr_wf(e),
            None => true,
        },
        Statement::ExpressionStatement { expression } => expr_wf(expression),
        Statement::Halt => false,
    }
}

/// `expected <Kind> at line <l> col <c>`.
pub open spec fn expected_text(kind: TokenKind, l: Location) -> Seq<char> {
    "expected "@ + kind_name(kind) + " at line "@ + decimal_of(l.line as nat) + " col "@
        + decimal_of(l.col as nat)
}

/// The diagnostic for a missing `kind` at index `pos` of `ts`.
pub open spec fn expect_error(ts: Seq<Token>, pos: int, kind: TokenKind) -> Seq<char> {
    if pos < ts.len() {
        expected_text(kind, ts[pos].location)
    } else if ts.len() > 0 {
        "input expected "@ + kind_text(kind) + " after token at line "@ + decimal_of(
            ts.last().location.line as nat,
        ) + " col "@ + decimal_of(ts.last().location.col as nat) + " "@
    } else {
        "input expected "@ + kind_text(kind)
    }
}

/// The diagnostic for a token where a type was expected.
pub open spec fn type_error(ts: Seq<Token>, pos: int) -> Seq<char> {
    if pos < ts.len() {
        "Expected type at line: "@ + decimal_of(ts[pos].location.line as nat) + ", col: "@
            + decimal_of(ts[pos].location.col as nat) + ", but got: "@ + kind_text(ts[pos].kind)
    } else {
        "Expected type at the end of stream"@
    }
}

/// The diagnostic for a token that cannot start an operand.
pub open spec fn unexpected_text(t: Token) -> Seq<char> {
    "unexpected token '"@ + t.literal@ + "' ("@ + kind_name(t.kind) + ") at "@ + location_text(
        t.location,
    )
}

/// The diagnostic for a function body cut short by the end of input.
pub open spec fn body_end_text(l: Location) -> Seq<char> {
    "unexpected end of input in function body at line: "@ + decimal_of(l.line as nat) + ", col: "@
        + decimal_of(l.col as nat)
}

pub struct Parser {
    tokens: Vec<Token>,
    pos: usize,
}

impl Parser {
    /// The token stream being parsed.
    pub closed spec fn tokens(&self) -> Seq<Token> {
        self.tokens@
    }

    /// The index of the current token.
    pub closed spec fn position(&self) -> int {
        self.pos as int
    }

    pub fn new(tokens: Vec<Token>) -> (r: Self)
        ensures
            r.tokens() == tokens@,
            r.position() == 0,
    {
        Self { tokens: tokens, pos: 0 }
    }

    /// Checks that the token at `pos` is of `kind`.
    fn expect_at(&self, pos: usize, kind: TokenKind) -> (r: Result<(), String>)
        ensures
            r is Ok <==> pos < self.tokens@.len() && self.tokens@[pos as int].kind == kind,
            r matches Err(e) ==> e@ == expect_error(self.tokens@, pos as int, kind),
    {
        if pos < self.tokens.len() {
            let t = &self.tokens[pos];
            if t.kind != kind {
                let mut e = String::from_str("expected ");
                push_str(&mut e, kind.name());
                push_str(&mut e, " at line ");
                push_decimal(&mut e, t.location.line);
                push_str(&mut e, " col ");
                push_decimal(&mut e, t.location.col);
                return Err(e);
            }
            return Ok(());
        }
        let mut e = String::from_str("input expected ");
        push_str(&mut e, kind.text());
        if self.tokens.len() > 0 {
            let last = &self.tokens[self.tokens.len() - 1];
            push_str(&mut e, " after token at line ");
            push_decimal(&mut e, last.location.line);
            push_str(&mut e, " col ");
            push_decimal(&mut e, last.location.col);
            push_str(&mut e, " ");
        }
        Err(e)
    }

    fn get_binding_power(op: TokenKind) -> (r: (usize, usize))
        ensures
            r == binding_power(op),
    {
        match op {
            TokenKind::Plus | TokenKind::Minus => (1, 2),
            TokenKind::Star | TokenKind::Slash => (3, 4),
            _ => (0, 0),
        }
    }

    fn is_binary_operator(kind: TokenKind) -> (r: bool)
        ensures
            r == is_binary_op(kind),
    {
        let ops = [TokenKind::Plus, TokenKind::Minus, TokenKind::Star, TokenKind::Slash];
        let r = kind.is_one_of(&ops);
        assert(r == is_binary_op(kind)) by {
            if is_binary_op(kind) {
                if kind == TokenKind::Plus {
                    assert(ops@[0] == kind);
                } else if kind == TokenKind::Minus {
                    assert(ops@[1] == kind);
                } else if kind == TokenKind::Star {
                    assert(ops@[2] == kind);
                } else {
                    assert(ops@[3] == kind);
                }
            }
        }
        r
    }

    /// Parses a type; only `int` is part of the grammar.
    fn parse_type(&self, pos: usize) -> (r: (Result<Type, String>, usize))
        requires
            pos <= self.tokens@.len(),
        ensures
            r.0 is Ok <==> pos < self.tokens@.len() && self.tokens@[pos as int].kind
                == TokenKind::Int,
            r.0 matches Ok(t) ==> t is Int && r.1 == pos + 1,
            r.0 matches Err(e) ==> e@ == type_error(self.tokens@, pos as int) && r.1 == pos,
    {
        if pos < self.tokens.len() {
            let t = &self.tokens[pos];
            if t.kind == TokenKind::Int {
                return (Ok(Type::Int), pos + 1);
            }
            let mut e = String::from_str("Expected type at line: ");
            push_decimal(&mut e, t.location.line);
            push_str(&mut e, ", col: ");
            push_decimal(&mut e, t.location.col);
            push_str(&mut e, ", but got: ");
            push_str(&mut e, t.kind.text());
            return (Err(e), pos);
        }
        (Err(String::from_str("Expected type at the end of stream")), pos)
    }
    /// Parses the whole token stream. Each statement that fails leaves one
    /// diagnostic, and parsing resumes one token further on; if any failed,
    /// all the diagnostics come back instead of the statements.
    pub fn parse(&mut self) -> (r: Result<Vec<Statement>, Vec<String>>)
        requires
            old(self).position() <= old(self).tokens().len(),
        ensures
            final(self).tokens() == old(self).tokens(),
            final(self).position() <= final(self).tokens().len(),
            r matches Ok(stmts) ==> forall|i: int|
                0 <= i < stmts@.len() ==> stmt_wf(#[trigger] stmts@[i]),
            r matches Err(errs) ==> 1 <= errs@.len() <= final(self).position() - old(
                self,
            ).position(),
            r matches Ok(stmts) ==> program_at(
                old(self).tokens(),
                old(self).position(),
                Seq::empty(),
                Seq::empty(),
            ) == Ok::<Seq<StmtV>, Seq<Seq<char>>>(stmts_view(stmts@)),
            r matches Err(errs) ==> program_at(
                old(self).tokens(),
                old(self).position(),
                Seq::empty(),
                Seq::empty(),
            ) == Err::<Seq<StmtV>, Seq<Seq<char>>>(texts_view(errs@)),
            old(self).position() == old(self).tokens().len() || old(self).tokens()[old(
                self,
            ).position()].kind == TokenKind::EOF ==> (r matches Ok(stmts) && stmts@.len() == 0),
    {
        let mut stmts: Vec<Statement> = Vec::new();
        let mut errs: Vec<String> = Vec::new();
        let ghost start = self.pos;
        assert(stmts_view(stmts@) =~= Seq::empty());
        assert(texts_view(errs@) =~= Seq::empty());
        while self.pos < self.tokens.len()
            invariant_except_break
                program_at(self.tokens@, start as int, Seq::empty(), Seq::empty()) == program_at(
                    self.tokens@,
                    self.pos as int,
                    stmts_view(stmts@),
                    texts_view(errs@),
                ),
            invariant
                self.tokens == old(self).tokens,
                start == old(self).pos,
                start <= self.pos <= self.tokens@.len(),
                forall|i: int| 0 <= i < stmts@.len() ==> stmt_wf(#[trigger] stmts@[i]),
                errs@.len() <= self.pos - start,
                self.pos == start ==> stmts@.len() == 0 && errs@.len() == 0,
                start < self.tokens@.len() && self.tokens@[start as int].kind == TokenKind::EOF
                    ==> self.pos == start,
            ensures
                program_at(self.tokens@, start as int, Seq::empty(), Seq::empty()) == (if errs@.len()
                    != 0 {
                    Err::<Seq<StmtV>, Seq<Seq<char>>>(texts_view(errs@))
                } else {
                    Ok(stmts_view(stmts@))
                }),
            decreases self.tokens@.len() - self.pos,
        {
            let (res, p) = self.parse_stmt(self.pos);
            match res {
                Ok(Statement::Halt) => {
                    break;
                },
                Ok(stmt) => {
                    let ghost before = stmts@;
                    stmts.push(stmt);
                    assert(stmts_view(stmts@) =~= stmts_view(before).push(stmt_view(stmt)));
                    self.pos = p;
                },
                Err(e) => {
                    let ghost before = errs@;
                    errs.push(e);
                    assert(texts_view(errs@) =~= texts_view(before).push(e@));
                    self.pos = if p < self.tokens.len() {
                        p + 1
                    } else {
                        self.tokens.len()
                    };
                },
            }
        }
        if errs.len() != 0 {
            return Err(errs);
        }
        Ok(stmts)
    }

    fn parse_stmt(&self, pos: usize) -> (r: (Result<Statement, String>, usize))
        requires
            pos <= self.tokens@.len(),
        ensures
            pos <= r.1 <= self.tokens@.len(),
            (r.0 matches Ok(Statement::Halt)) <==> (pos < self.tokens@.len()
                && self.tokens@[pos as int].kind == TokenKind::EOF),
            r.0 matches Ok(Statement::Halt) ==> r.1 == pos,
            r.0 matches Ok(s) ==> s is Halt || (stmt_wf(s) && pos < r.1),
            same_stmt(r, stmt_at(self.tokens@, pos as int)),
        decreases self.tokens@.len() - pos, 9int,
    {
        if pos >= self.tokens.len() {
            return (Err(String::from_str("expected statement before the end of input")), pos);
        }
        match self.tokens[pos].kind {
            TokenKind::EOF => (Ok(Statement::Halt), pos),
            TokenKind::Return => {
                let p = pos + 1;
                if self.expect_at(p, TokenKind::Semicolon).is_ok() {
                    return (Ok(Statement::Return { value: None }), p + 1);
                }
                let (res, p2) = self.parse_expr(p);
                match res {
                    Err(m) => (Err(m), p2),
                    Ok(e) => match self.expect_at(p2, TokenKind::Semicolon) {
                        Err(m) => (Err(m), p2),
                        Ok(_) => (Ok(Statement::Return { value: Some(e) }), p2 + 1),
                    },
                }
            },
            _ => {
                let (res, p2) = self.parse_expr(pos);
                match res {
                    Err(m) => (Err(m), p2),
                    Ok(e) => {
                        let closed_by_brace = match e {
                            Expression::FunctionLiteral { .. } => true,
                            _ => false,
                        };
                        if closed_by_brace {
                            return (Ok(Statement::ExpressionStatement { expression: e }), p2);
                        }
                        match self.expect_at(p2, TokenKind::Semicolon) {
                            Err(m) => (Err(m), p2),
                            Ok(_) => (
                                Ok(Statement::ExpressionStatement { expression: e }),
                                p2 + 1,
                            ),
                        }
                    },
                }
            },
        }
    }

    fn parse_expr(&self, pos: usize) -> (r: (Result<Expression, String>, usize))
        requires
            pos <= self.tokens@.len(),
        ensures
            pos <= r.1 <= self.tokens@.len(),
            r.0 matches Ok(e) ==> expr_wf(e) && pos < r.1,
            same_expr(r, expr_at(self.tokens@, pos as int)),
        decreases self.tokens@.len() - pos, 8int,
    {
        self.parse_binary(pos, 0)
    }

    /// Precedence climbing: folds operators whose left binding power is at
    /// least `min_bp` into the operand parsed first.
    fn parse_binary(&self, pos: usize, min_bp: usize) -> (r: (Result<Expression, String>, usize))
        requires
            pos <= self.tokens@.len(),
        ensures
            pos <= r.1 <= self.tokens@.len(),
            r.0 matches Ok(e) ==> expr_wf(e) && pos < r.1,
            same_expr(r, binary_at(self.tokens@, pos as int, min_bp as int)),
        decreases self.tokens@.len() - pos, 7int,
    {
        let (res, p0) = self.parse_prefix(pos);
        let mut lhs = match res {
            Ok(e) => e,
            Err(m) => {
                return (Err(m), p0);
            },
        };
        let mut p = p0;
        loop
            invariant
                pos < p <= self.tokens@.len(),
                expr_wf(lhs),
                binary_at(self.tokens@, pos as int, min_bp as int) == binary_rest(
                    self.tokens@,
                    p as int,
                    expr_view(lhs),
                    min_bp as int,
                ),
            ensures
                pos < p <= self.tokens@.len(),
                expr_wf(lhs),
                binary_at(self.tokens@, pos as int, min_bp as int) == (
                    Ok::<ExprV, Seq<char>>(expr_view(lhs)),
                    p as int,
                ),
            decreases self.tokens@.len() - p,
        {
            if p >= self.tokens.len() {
                break;
            }
            let op = self.tokens[p].kind;
            if !Self::is_binary_operator(op) {
                break;
            }
            let (l_bp, r_bp) = Self::get_binding_power(op);
            if l_bp < min_bp {
                break;
            }
            let (rres, p2) = self.parse_binary(p + 1, r_bp);
            match rres {
                Ok(rhs) => {
                    lhs = Expression::Binary { lhs: Box::new(lhs), op, rhs: Box::new(rhs) };
                    p = p2;
                },
                Err(m) => {
                    return (Err(m), p2);
                },
            }
        }
        (Ok(lhs), p)
    }

    /// An atom, optionally preceded by one sign.
    fn parse_prefix(&self, pos: usize) -> (r: (Result<Expression, String>, usize))
        requires
            pos <= self.tokens@.len(),
        ensures
            pos <= r.1 <= self.tokens@.len(),
            r.0 matches Ok(e) ==> expr_wf(e) && pos < r.1,
            same_expr(r, prefix_at(self.tokens@, pos as int)),
        decreases self.tokens@.len() - pos, 6int,
    {
        if pos < self.tokens.len() {
            let k = self.tokens[pos].kind;
            if k == TokenKind::Plus || k == TokenKind::Minus {
                let (res, p) = self.parse_atom(pos + 1);
                return match res {
                    Ok(a) => (Ok(Expression::Unary { op: k, expr: Box::new(a) }), p),
                    Err(m) => (Err(m), p),
                };
            }
        }
        self.parse_atom(pos)
    }

    fn parse_atom(&self, pos: usize) -> (r: (Result<Expression, String>, usize))
        requires
            pos <= self.tokens@.len(),
        ensures
            pos <= r.1 <= self.tokens@.len(),
            r.0 matches Ok(e) ==> expr_wf(e) && is_atom(e) && pos < r.1,
            pos == self.tokens@.len() || self.tokens@[pos as int].kind == TokenKind::EOF ==> (
            r.0 matches Err(m) && m@ == "unexpected end of input while parsing expression"@),
            same_expr(r, atom_at(self.tokens@, pos as int)),
        decreases self.tokens@.len() - pos, 5int,
    {
        if pos >= self.tokens.len() || self.tokens[pos].kind == TokenKind::EOF {
            return (
                Err(String::from_str("unexpected end of input while parsing expression")),
                pos,
            );
        }
        match self.tokens[pos].kind {
            TokenKind::Fn => self.parse_function_literal_or_call(pos),
            TokenKind::Id => self.parse_id_or_function_call(pos),
            TokenKind::Int => (Ok(Expression::Int { value: self.tokens[pos].duplicate() }), pos + 1),
            _ => (Err(unexpected_token(&self.tokens[pos])), pos),
        }
    }

    /// An identifier, or a call when `(` follows it.
    fn parse_id_or_function_call(&self, pos: usize) -> (r: (Result<Expression, String>, usize))
        requires
            pos < self.tokens@.len(),
            self.tokens@[pos as int].kind == TokenKind::Id,
        ensures
            pos < r.1 <= self.tokens@.len(),
            r.0 matches Ok(e) ==> expr_wf(e) && is_atom(e),
            !(pos + 1 < self.tokens@.len() && self.tokens@[pos + 1].kind == TokenKind::LParen)
                ==> (r.0 matches Ok(e) && e is Id && r.1 == pos + 1),
            same_expr(r, atom_at(self.tokens@, pos as int)),
        decreases self.tokens@.len() - pos, 4int,
    {
        if self.tokens.len() - pos > 1 && self.tokens[pos + 1].kind == TokenKind::LParen {
            return self.parse_function_call(pos);
        }
        (Ok(Expression::Id { name: self.tokens[pos].duplicate() }), pos + 1)
    }

    fn parse_function_call(&self, pos: usize) -> (r: (Result<Expression, String>, usize))
        requires
            pos + 1 < self.tokens@.len(),
            self.tokens@[pos as int].kind == TokenKind::Id,
            self.tokens@[pos + 1].kind == TokenKind::LParen,
        ensures
            pos < r.1 <= self.tokens@.len(),
            r.0 matches Ok(e) ==> expr_wf(e) && e is FunctionCall,
            same_expr(r, atom_at(self.tokens@, pos as int)),
        decreases self.tokens@.len() - pos, 3int,
    {
        let name = self.tokens[pos].duplicate();
        let len = self.tokens.len();
        assert(pos + 2 <= len);
        let (res, p) = self.parse_call_args(pos + 2);
        match res {
            Ok(args) => {
                let ghost nv = name;
                let callee = Box::new(Expression::Id { name });
                assert(expr_wf(*callee));
                assert(nv == self.tokens@[pos as int]);
                assert(expr_view(*callee) == ExprV::Id { name: nv });
                let ghost av = args@;
                let e = Expression::FunctionCall { callee, args };
                assert(expr_view(e)->Call_args =~= exprs_view(av));
                assert(*expr_view(e)->Call_callee == ExprV::Id { name: self.tokens@[pos as int] });
                (Ok(e), p)
            },
            Err(m) => (Err(m), p),
        }
    }

    /// The arguments of a call, after its `(`, up to and including the `)`.
    /// Commas between arguments, and one after the last, are optional.
    fn parse_call_args(&self, pos: usize) -> (r: (Result<Vec<Expression>, String>, usize))
        requires
            pos <= self.tokens@.len(),
        ensures
            pos <= r.1 <= self.tokens@.len(),
            r.0 matches Ok(args) ==> forall|i: int|
                0 <= i < args@.len() ==> expr_wf(#[trigger] args@[i]),
            same_args(r, args_at(self.tokens@, pos as int, Seq::empty())),
        decreases self.tokens@.len() - pos + 1, 0int,
    {
        let mut args: Vec<Expression> = Vec::new();
        let mut p = pos;
        assert(exprs_view(args@) =~= Seq::empty());
        loop
            invariant_except_break
                args_at(self.tokens@, pos as int, Seq::empty()) == args_at(
                    self.tokens@,
                    p as int,
                    exprs_view(args@),
                ),
            invariant
                pos <= p <= self.tokens@.len(),
                forall|i: int| 0 <= i < args@.len() ==> expr_wf(#[trigger] args@[i]),
            ensures
                pos <= p <= self.tokens@.len(),
                forall|i: int| 0 <= i < args@.len() ==> expr_wf(#[trigger] args@[i]),
                args_at(self.tokens@, pos as int, Seq::empty()) == (
                    Ok::<Seq<ExprV>, Seq<char>>(exprs_view(args@)),
                    p as int,
                ),
            decreases self.tokens@.len() - p,
        {
            if p >= self.tokens.len() {
                break;
            }
            if self.tokens[p].kind == TokenKind::RParen {
                p = p + 1;
                break;
            }
            let (res, p2) = self.parse_expr(p);
            match res {
                Err(m) => {
                    return (Err(m), p2);
                },
                Ok(e) => {
                    let ghost before = args@;
                    args.push(e);
                    assert(exprs_view(args@) =~= exprs_view(before).push(expr_view(e)));
                    p = p2;
                    if p < self.tokens.len() && self.tokens[p].kind == TokenKind::Comma {
                        p = p + 1;
                    }
                },
            }
        }
        (Ok(args), p)
    }

    /// `fn name(params) :: type { body }`, the name and the return type
    /// optional; an argument list right after the body invokes it at once.
    fn parse_function_literal_or_call(&self, pos: usize) -> (r: (
        Result<Expression, String>,
        usize,
    ))
        requires
            pos < self.tokens@.len(),
            self.tokens@[pos as int].kind == TokenKind::Fn,
        ensures
            pos < r.1 <= self.tokens@.len(),
            r.0 matches Ok(e) ==> expr_wf(e) && (e is FunctionLiteral || e is FunctionCall),
            same_expr(r, function_at(self.tokens@, pos as int)),
        decreases self.tokens@.len() - pos, 3int,
    {
        let len = self.tokens.len();
        let fn_location = self.tokens[pos].location;
        let mut p = pos + 1;
        let mut name: Option<Token> = None;
        if p < len && self.tokens[p].kind == TokenKind::Id {
            name = Some(self.tokens[p].duplicate());
            p = p + 1;
        }
        if let Err(m) = self.expect_at(p, TokenKind::LParen) {
            return (Err(m), p);
        }
        let ghost name_end = p as int;
        p = p + 1;
        let ghost params_start = p as int;
        let mut params: Vec<TypeMapping> = Vec::new();
        assert(params_view(params@) =~= Seq::empty());
        loop
            invariant
                pos < len,
                self.tokens@[pos as int].kind == TokenKind::Fn,
                name_end == (if at(self.tokens@, pos + 1, TokenKind::Id) {
                    pos + 2
                } else {
                    pos + 1
                }),
                name == (if at(self.tokens@, pos + 1, TokenKind::Id) {
                    Some(self.tokens@[pos + 1])
                } else {
                    None
                }),
                at(self.tokens@, name_end, TokenKind::LParen),
                params_start == name_end + 1,
                pos < p <= len,
                len == self.tokens@.len(),
                forall|i: int| 0 <= i < params@.len() ==> param_wf(#[trigger] params@[i]),
                params_at(self.tokens@, params_start, Seq::empty()) == params_at(
                    self.tokens@,
                    p as int,
                    params_view(params@),
                ),
            ensures
                params_at(self.tokens@, params_start, Seq::empty()) == (
                    Ok::<Seq<(ExprV, TypeV)>, Seq<char>>(params_view(params@)),
                    p as int,
                ),
                pos < p < len,
                self.tokens@[p as int].kind == TokenKind::RParen,
                forall|i: int| 0 <= i < params@.len() ==> param_wf(#[trigger] params@[i]),
            decreases len - p,
        {
            if p < len && self.tokens[p].kind == TokenKind::RParen {
                break;
            }
            if let Err(m) = self.expect_at(p, TokenKind::Id) {
                return (Err(m), p);
            }
            let param_name = self.tokens[p].duplicate();
            p = p + 1;
            if let Err(m) = self.expect_at(p, TokenKind::Colon) {
                return (Err(m), p);
            }
            p = p + 1;
            let (tres, p2) = self.parse_type(p);
            let t = match tres {
                Ok(t) => t,
                Err(m) => {
                    return (Err(m), p2);
                },
            };
            p = p2;
            let ghost before = params@;
            let param = TypeMapping::new(Expression::Id { name: param_name }, t);
            assert(expr_view(param.expr) == ExprV::Id { name: param_name });
            params.push(param);
            assert(params_view(params@) =~= params_view(before).push(
                (ExprV::Id { name: param_name }, TypeV::Int),
            ));
            if p < len && self.tokens[p].kind == TokenKind::Comma {
                p = p + 1;
            }
        }
        let ghost pv = params_view(params@);
        let ghost p1 = p as int;
        p = p + 1;
        let mut return_type: Option<Type> = None;
        if p < len && self.tokens[p].kind == TokenKind::Colon {
            p = p + 1;
            if let Err(m) = self.expect_at(p, TokenKind::Colon) {
                return (Err(m), p);
            }
            p = p + 1;
            let (tres, p2) = self.parse_type(p);
            match tres {
                Ok(t) => {
                    return_type = Some(t);
                },
                Err(m) => {
                    return (Err(m), p2);
                },
            }
            p = p2;
        }
        if let Err(m) = self.expect_at(p, TokenKind::LCurly) {
            return (Err(m), p);
        }
        let ghost rtv = return_type_view(return_type);
        let ghost p3 = p as int;
        assert(return_type_at(self.tokens@, p1 + 1) == (Ok::<Option<TypeV>, Seq<char>>(rtv), p3));
        p = p + 1;
        let ghost body_start = p as int;
        let mut body: Vec<Statement> = Vec::new();
        assert(stmts_view(body@) =~= Seq::empty());
        loop
            invariant
                pos < len,
                self.tokens@[pos as int].kind == TokenKind::Fn,
                name_end == (if at(self.tokens@, pos + 1, TokenKind::Id) {
                    pos + 2
                } else {
                    pos + 1
                }),
                name == (if at(self.tokens@, pos + 1, TokenKind::Id) {
                    Some(self.tokens@[pos + 1])
                } else {
                    None
                }),
                at(self.tokens@, name_end, TokenKind::LParen),
                params_start == name_end + 1,
                params_at(self.tokens@, params_start, Seq::empty()) == (
                    Ok::<Seq<(ExprV, TypeV)>, Seq<char>>(pv),
                    p1,
                ),
                return_type_at(self.tokens@, p1 + 1) == (Ok::<Option<TypeV>, Seq<char>>(rtv), p3),
                at(self.tokens@, p3, TokenKind::LCurly),
                pos <= p3,
                body_start == p3 + 1,
                pos < p <= len,
                len == self.tokens@.len(),
                fn_location == self.tokens@[pos as int].location,
                forall|i: int| 0 <= i < body@.len() ==> stmt_wf(#[trigger] body@[i]),
                body_at(self.tokens@, body_start, Seq::empty(), fn_location) == body_at(
                    self.tokens@,
                    p as int,
                    stmts_view(body@),
                    fn_location,
                ),
            ensures
                body_at(self.tokens@, body_start, Seq::empty(), fn_location) == (
                    Ok::<Seq<StmtV>, Seq<char>>(stmts_view(body@)),
                    p as int,
                ),
                pos < p < len,
                self.tokens@[p as int].kind == TokenKind::RCurly,
                forall|i: int| 0 <= i < body@.len() ==> stmt_wf(#[trigger] body@[i]),
            decreases len - p,
        {
            if p < len && self.tokens[p].kind == TokenKind::RCurly {
                break;
            }
            let (sres, p2) = self.parse_stmt(p);
            match sres {
                Err(m) => {
                    return (Err(m), p2);
                },
                Ok(Statement::Halt) => {
                    return (Err(body_end_error(fn_location)), p2);
                },
                Ok(s) => {
                    let ghost before = body@;
                    body.push(s);
                    assert(stmts_view(body@) =~= stmts_view(before).push(stmt_view(s)));
                    p = p2;
                },
            }
        }
        p = p + 1;
        let ghost (nv, pms, bv) = (name, params@, body@);
        let literal = Expression::FunctionLiteral { name, params, return_type, body };
        assert(expr_wf(literal));
        assert(expr_view(literal)->Literal_params =~= params_view(pms));
        assert(expr_view(literal)->Literal_body =~= stmts_view(bv));
        assert(expr_view(literal) == ExprV::Literal {
            name: nv,
            params: pv,
            return_type: rtv,
            body: stmts_view(bv),
        });
        if p < len && self.tokens[p].kind == TokenKind::LParen {
            let (ares, p2) = self.parse_call_args(p + 1);
            return match ares {
                Ok(args) => {
                    let ghost lv = expr_view(literal);
                    let callee = Box::new(literal);
                    assert(expr_wf(*callee));
                    let ghost av = args@;
                    let e = Expression::FunctionCall { callee, args };
                    assert(expr_view(e)->Call_args =~= exprs_view(av));
                    assert(expr_view(e) == ExprV::Call { callee: Box::new(lv), args: exprs_view(av) });
                    (Ok(e), p2)
                },
                Err(m) => (Err(m), p2),
            };
        }
        (Ok(literal), p)
    }
}

fn unexpected_token(t: &Token) -> (r: String)
    ensures
        r@ == unexpected_text(*t),
{
    let mut e = String::from_str("unexpected token '");
    push_str(&mut e, t.literal.as_str());
    push_str(&mut e, "' (");
    push_str(&mut e, t.kind.name());
    push_str(&mut e, ") at ");
    let l = t.location.to_string();
    push_str(&mut e, l.as_str());
    e
}

fn body_end_error(l: Location) -> (r: String)
    ensures
        r@ == body_end_text(l),
{
    let mut e = String::from_str("unexpected end of input in function body at line: ");
    push_decimal(&mut e, l.line);
    push_str(&mut e, ", col: ");
    push_decimal(&mut e, l.col);
    e
}

} // verus!
