//! The grammar as spec functions: what the parser returns for each token
//! stream, over a mathematical view of the syntax tree.
use vstd::prelude::*;
use crate::ast::{Expression, Statement, Type, TypeMapping};
use crate::parser::{binding_power, body_end_text, expect_error, is_binary_op, type_error,
    unexpected_text};
use crate::tokens::{Location, Token, TokenKind};

verus! {

pub enum TypeV {
    Int,
    String,
    Function { return_type: Box<TypeV>, param_types: Seq<TypeV> },
}

pub enum ExprV {
    Binary { lhs: Box<ExprV>, op: TokenKind, rhs: Box<ExprV> },
    Unary { op: TokenKind, expr: Box<ExprV> },
    Call { callee: Box<ExprV>, args: Seq<ExprV> },
    Literal {
        name: Option<Token>,
        params: Seq<(ExprV, TypeV)>,
        return_type: Option<TypeV>,
        body: Seq<StmtV>,
    },
    Id { name: Token },
    Int { value: Token },
}

pub enum StmtV {
    Return { value: Option<ExprV> },
    Expr { expression: ExprV },
    Halt,
}

pub open spec fn type_view(t: Type) -> TypeV
    decreases t,
{
    match t {
        Type::Int => TypeV::Int,
        Type::String => TypeV::String,
        Type::Function { return_type, param_types } => TypeV::Function {
            return_type: Box::new(type_view(*return_type)),
            param_types: Seq::new(param_types@.len(), |i: int|
                if 0 <= i < param_types@.len() {
                    type_view(param_types@[i])
                } else {
                    arbitrary()
                }),
        },
    }
}

pub open spec fn return_type_view(t: Option<Type>) -> Option<TypeV> {
    match t {
        Some(t) => Some(type_view(t)),
        None => None,
    }
}

pub open spec fn expr_view(e: Expression) -> ExprV
    decreases e,
{
    match e {
        Expression::Binary { lhs, op, rhs } => ExprV::Binary {
            lhs: Box::new(expr_view(*lhs)),
            op,
            rhs: Box::new(expr_view(*rhs)),
        },
        Expression::Unary { op, expr } => ExprV::Unary { op, expr: Box::new(expr_view(*expr)) },
        Expression::FunctionCall { callee, args } => ExprV::Call {
            callee: Box::new(expr_view(*callee)),
            args: Seq::new(args@.len(), |i: int|
                if 0 <= i < args@.len() {
                    expr_view(args@[i])
                } else {
                    arbitrary()
                }),
        },
        Expression::FunctionLiteral { name, params, return_type, body } => ExprV::Literal {
            name,
            params: Seq::new(
                params@.len(),
                |i: int|
                    if 0 <= i < params@.len() {
                        (expr_view(params@[i].expr), type_view(params@[i].t))
                    } else {
                        arbitrary()
                    },
            ),
            return_type: return_type_view(return_type),
            body: Seq::new(body@.len(), |i: int|
                if 0 <= i < body@.len() {
                    stmt_view(body@[i])
                } else {
                    arbitrary()
                }),
        },
        Expression::Id { name } => ExprV::Id { name },
        Expression::Int { value } => ExprV::Int { value },
    }
}

pub open spec fn stmt_view(s: Statement) -> StmtV
    decreases s,
{
    match s {
        Statement::Return { value } => StmtV::Return {
            value: match value {
                Some(e) => Some(expr_view(e)),
                None => None,
            },
        },
        Statement::ExpressionStatement { expression } => StmtV::Expr {
            expression: expr_view(expression),
        },
        Statement::Halt => StmtV::Halt,
    }
}

pub open spec fn exprs_view(s: Seq<Expression>) -> Seq<ExprV> {
    Seq::new(s.len(), |i: int| expr_view(s[i]))
}

pub open spec fn stmts_view(s: Seq<Statement>) -> Seq<StmtV> {
    Seq::new(s.len(), |i: int| stmt_view(s[i]))
}

pub open spec fn params_view(s: Seq<TypeMapping>) -> Seq<(ExprV, TypeV)> {
    Seq::new(s.len(), |i: int| (expr_view(s[i].expr), type_view(s[i].t)))
}

pub open spec fn texts_view(s: Seq<String>) -> Seq<Seq<char>> {
    Seq::new(s.len(), |i: int| s[i]@)
}

/// An executable parse result agrees with a spec one: same tree, or same
/// diagnostic, and the same next index.
pub open spec fn same_expr(r: (Result<Expression, String>, usize), s: (Result<ExprV, Seq<char>>, int)) -> bool {
    &&& r.1 as int == s.1
    &&& match r.0 {
        Ok(e) => s.0 == Ok::<ExprV, Seq<char>>(expr_view(e)),
        Err(m) => s.0 == Err::<ExprV, Seq<char>>(m@),
    }
}

pub open spec fn same_stmt(r: (Result<Statement, String>, usize), s: (Result<StmtV, Seq<char>>, int)) -> bool {
    &&& r.1 as int == s.1
    &&& match r.0 {
        Ok(e) => s.0 == Ok::<StmtV, Seq<char>>(stmt_view(e)),
        Err(m) => s.0 == Err::<StmtV, Seq<char>>(m@),
    }
}

pub open spec fn same_args(
    r: (Result<Vec<Expression>, String>, usize),
    s: (Result<Seq<ExprV>, Seq<char>>, int),
) -> bool {
    &&& r.1 as int == s.1
    &&& match r.0 {
        Ok(v) => s.0 == Ok::<Seq<ExprV>, Seq<char>>(exprs_view(v@)),
        Err(m) => s.0 == Err::<Seq<ExprV>, Seq<char>>(m@),
    }
}

/// The token at `p` exists and is of kind `k`.
pub open spec fn at(ts: Seq<Token>, p: int, k: TokenKind) -> bool {
    0 <= p < ts.len() && ts[p].kind == k
}

/// A statement starting at `pos`, and the index after it.
pub open spec fn stmt_at(ts: Seq<Token>, pos: int) -> (Result<StmtV, Seq<char>>, int)
    decreases ts.len() - pos, 9int,
{
    if pos < 0 || pos >= ts.len() {
        (Err("expected statement before the end of input"@), pos)
    } else if ts[pos].kind == TokenKind::EOF {
        (Ok(StmtV::Halt), pos)
    } else if ts[pos].kind == TokenKind::Return {
        if at(ts, pos + 1, TokenKind::Semicolon) {
            (Ok(StmtV::Return { value: None }), pos + 2)
        } else {
            let (r, p) = expr_at(ts, pos + 1);
            match r {
                Err(m) => (Err(m), p),
                Ok(e) => if at(ts, p, TokenKind::Semicolon) {
                    (Ok(StmtV::Return { value: Some(e) }), p + 1)
                } else {
                    (Err(expect_error(ts, p, TokenKind::Semicolon)), p)
                },
            }
        }
    } else {
        let (r, p) = expr_at(ts, pos);
        match r {
            Err(m) => (Err(m), p),
            Ok(e) => if e is Literal {
                (Ok(StmtV::Expr { expression: e }), p)
            } else if at(ts, p, TokenKind::Semicolon) {
                (Ok(StmtV::Expr { expression: e }), p + 1)
            } else {
                (Err(expect_error(ts, p, TokenKind::Semicolon)), p)
            },
        }
    }
}

/// An expression starting at `pos`.
pub open spec fn expr_at(ts: Seq<Token>, pos: int) -> (Result<ExprV, Seq<char>>, int)
    decreases ts.len() - pos, 8int,
{
    binary_at(ts, pos, 0)
}

/// Precedence climbing from `pos`: an operand, then the operators whose left
/// binding power is at least `min_bp`.
pub open spec fn binary_at(ts: Seq<Token>, pos: int, min_bp: int) -> (
    Result<ExprV, Seq<char>>,
    int,
)
    decreases ts.len() - pos, 7int,
{
    let (r, p) = prefix_at(ts, pos);
    match r {
        Err(m) => (Err(m), p),
        Ok(lhs) => if pos < p <= ts.len() {
            binary_rest(ts, p, lhs, min_bp)
        } else {
            (Err(Seq::empty()), p)
        },
    }
}

/// Folds the operators from `p` on into `lhs`, left to right.
pub open spec fn binary_rest(ts: Seq<Token>, p: int, lhs: ExprV, min_bp: int) -> (
    Result<ExprV, Seq<char>>,
    int,
)
    decreases ts.len() - p, 7int,
{
    if p < 0 || p >= ts.len() || !is_binary_op(ts[p].kind) || (binding_power(ts[p].kind).0 as int)
        < min_bp {
        (Ok(lhs), p)
    } else {
        let op = ts[p].kind;
        let (r, p2) = binary_at(ts, p + 1, binding_power(op).1 as int);
        match r {
            Err(m) => (Err(m), p2),
            Ok(rhs) => if p < p2 <= ts.len() {
                binary_rest(
                    ts,
                    p2,
                    ExprV::Binary { lhs: Box::new(lhs), op, rhs: Box::new(rhs) },
                    min_bp,
                )
            } else {
                (Err(Seq::empty()), p2)
            },
        }
    }
}

/// An atom, optionally after one sign.
pub open spec fn prefix_at(ts: Seq<Token>, pos: int) -> (Result<ExprV, Seq<char>>, int)
    decreases ts.len() - pos, 6int,
{
    if at(ts, pos, TokenKind::Plus) || at(ts, pos, TokenKind::Minus) {
        let (r, p) = atom_at(ts, pos + 1);
        match r {
            Err(m) => (Err(m), p),
            Ok(a) => (Ok(ExprV::Unary { op: ts[pos].kind, expr: Box::new(a) }), p),
        }
    } else {
        atom_at(ts, pos)
    }
}

/// A function literal (or its invocation), an identifier or call, or an integer;
/// the end of input (past the tokens, or at the end marker) is an error of its own.
pub open spec fn atom_at(ts: Seq<Token>, pos: int) -> (Result<ExprV, Seq<char>>, int)
    decreases ts.len() - pos, 5int,
{
    if pos < 0 || pos >= ts.len() || ts[pos].kind == TokenKind::EOF {
        (Err("unexpected end of input while parsing expression"@), pos)
    } else if ts[pos].kind == TokenKind::Fn {
        function_at(ts, pos)
    } else if ts[pos].kind == TokenKind::Id {
        if at(ts, pos + 1, TokenKind::LParen) {
            let (r, p) = args_at(ts, pos + 2, Seq::empty());
            match r {
                Err(m) => (Err(m), p),
                Ok(args) => (
                    Ok(ExprV::Call { callee: Box::new(ExprV::Id { name: ts[pos] }), args }),
                    p,
                ),
            }
        } else {
            (Ok(ExprV::Id { name: ts[pos] }), pos + 1)
        }
    } else if ts[pos].kind == TokenKind::Int {
        (Ok(ExprV::Int { value: ts[pos] }), pos + 1)
    } else {
        (Err(unexpected_text(ts[pos])), pos)
    }
}

/// Call arguments from `p` up to and including `)`, after those in `acc`.
pub open spec fn args_at(ts: Seq<Token>, p: int, acc: Seq<ExprV>) -> (
    Result<Seq<ExprV>, Seq<char>>,
    int,
)
    decreases ts.len() - p + 1, 0int,
{
    if p < 0 || p >= ts.len() {
        (Ok(acc), p)
    } else if ts[p].kind == TokenKind::RParen {
        (Ok(acc), p + 1)
    } else {
        let (r, p2) = expr_at(ts, p);
        match r {
            Err(m) => (Err(m), p2),
            Ok(e) => if p < p2 <= ts.len() {
                args_at(
                    ts,
                    if at(ts, p2, TokenKind::Comma) {
                        p2 + 1
                    } else {
                        p2
                    },
                    acc.push(e),
                )
            } else {
                (Err(Seq::empty()), p2)
            },
        }
    }
}

/// Parameters from `p` up to the `)`, which is not consumed.
pub open spec fn params_at(ts: Seq<Token>, p: int, acc: Seq<(ExprV, TypeV)>) -> (
    Result<Seq<(ExprV, TypeV)>, Seq<char>>,
    int,
)
    decreases ts.len() - p,
{
    if at(ts, p, TokenKind::RParen) {
        (Ok(acc), p)
    } else if !at(ts, p, TokenKind::Id) {
        (Err(expect_error(ts, p, TokenKind::Id)), p)
    } else if !at(ts, p + 1, TokenKind::Colon) {
        (Err(expect_error(ts, p + 1, TokenKind::Colon)), p + 1)
    } else if !at(ts, p + 2, TokenKind::Int) {
        (Err(type_error(ts, p + 2)), p + 2)
    } else {
        params_at(
            ts,
            if at(ts, p + 3, TokenKind::Comma) {
                p + 4
            } else {
                p + 3
            },
            acc.push((ExprV::Id { name: ts[p] }, TypeV::Int)),
        )
    }
}

/// An optional `:: int` at `p`.
pub open spec fn return_type_at(ts: Seq<Token>, p: int) -> (
    Result<Option<TypeV>, Seq<char>>,
    int,
) {
    if !at(ts, p, TokenKind::Colon) {
        (Ok(None), p)
    } else if !at(ts, p + 1, TokenKind::Colon) {
        (Err(expect_error(ts, p + 1, TokenKind::Colon)), p + 1)
    } else if !at(ts, p + 2, TokenKind::Int) {
        (Err(type_error(ts, p + 2)), p + 2)
    } else {
        (Ok(Some(TypeV::Int)), p + 3)
    }
}

/// Body statements from `p` up to the `}`, which is not consumed; `fn_loc`
/// is where the function starts.
pub open spec fn body_at(ts: Seq<Token>, p: int, acc: Seq<StmtV>, fn_loc: Location) -> (
    Result<Seq<StmtV>, Seq<char>>,
    int,
)
    decreases ts.len() - p + 1, 0int,
{
    if at(ts, p, TokenKind::RCurly) {
        (Ok(acc), p)
    } else if p < 0 || p > ts.len() {
        (Err(Seq::empty()), p)
    } else {
        let (r, p2) = stmt_at(ts, p);
        match r {
            Err(m) => (Err(m), p2),
            Ok(s) => if s is Halt {
                (Err(body_end_text(fn_loc)), p2)
            } else if p < p2 <= ts.len() {
                body_at(ts, p2, acc.push(s), fn_loc)
            } else {
                (Err(Seq::empty()), p2)
            },
        }
    }
}

/// A function literal at `pos`, invoked at once when `(` follows its body.
pub open spec fn function_at(ts: Seq<Token>, pos: int) -> (Result<ExprV, Seq<char>>, int)
    decreases ts.len() - pos, 3int,
{
    let named = at(ts, pos + 1, TokenKind::Id);
    let name = if named {
        Some(ts[pos + 1])
    } else {
        None
    };
    let p = if named {
        pos + 2
    } else {
        pos + 1
    };
    if pos < 0 || pos >= ts.len() {
        (Err(Seq::empty()), pos)
    } else if !at(ts, p, TokenKind::LParen) {
        (Err(expect_error(ts, p, TokenKind::LParen)), p)
    } else {
        let (pr, p1) = params_at(ts, p + 1, Seq::empty());
        match pr {
            Err(m) => (Err(m), p1),
            Ok(params) => {
                let (rt, p3) = return_type_at(ts, p1 + 1);
                match rt {
                    Err(m) => (Err(m), p3),
                    Ok(return_type) => if !at(ts, p3, TokenKind::LCurly) {
                        (Err(expect_error(ts, p3, TokenKind::LCurly)), p3)
                    } else if p3 < pos {
                        (Err(Seq::empty()), p3)
                    } else {
                        let (br, p4) = body_at(ts, p3 + 1, Seq::empty(), ts[pos].location);
                        match br {
                            Err(m) => (Err(m), p4),
                            Ok(body) => {
                                let literal = ExprV::Literal { name, params, return_type, body };
                                if !at(ts, p4 + 1, TokenKind::LParen) {
                                    (Ok(literal), p4 + 1)
                                } else if p4 + 1 < pos {
                                    (Err(Seq::empty()), p4)
                                } else {
                                    let (ar, p6) = args_at(ts, p4 + 2, Seq::empty());
                                    match ar {
                                        Err(m) => (Err(m), p6),
                                        Ok(args) => (
                                            Ok(ExprV::Call { callee: Box::new(literal), args }),
                                            p6,
                                        ),
                                    }
                                }
                            },
                        }
                    },
                }
            },
        }
    }
}

/// The whole program from `pos`, with the statements and diagnostics so far:
/// one diagnostic per failed statement, resuming one token after the failure.
pub open spec fn program_at(
    ts: Seq<Token>,
    pos: int,
    stmts: Seq<StmtV>,
    errs: Seq<Seq<char>>,
) -> Result<Seq<StmtV>, Seq<Seq<char>>>
    decreases ts.len() - pos,
{
    let done = if errs.len() != 0 {
        Err(errs)
    } else {
        Ok(stmts)
    };
    if pos < 0 || pos >= ts.len() {
        done
    } else {
        let (r, p) = stmt_at(ts, pos);
        match r {
            Ok(s) => if s is Halt {
                done
            } else if pos < p <= ts.len() {
                program_at(ts, p, stmts.push(s), errs)
            } else {
                done
            },
            Err(m) => if pos <= p < ts.len() {
                program_at(ts, p + 1, stmts, errs.push(m))
            } else {
                program_at(ts, ts.len() as int, stmts, errs.push(m))
            },
        }
    }
}

/// No diagnostic is dropped: once a statement has failed, parsing the rest of
/// the program ends in the diagnostics, and those recorded so far come first,
/// in the order they were found. Without any, the result is the statements.
pub proof fn lemma_diagnostics_kept(
    ts: Seq<Token>,
    pos: int,
    stmts: Seq<StmtV>,
    errs: Seq<Seq<char>>,
)
    ensures
        match program_at(ts, pos, stmts, errs) {
            Ok(_) => errs.len() == 0,
            Err(all) => errs.len() <= all.len() && all.subrange(0, errs.len() as int) == errs,
        },
    decreases ts.len() - pos,
{
    if pos < 0 || pos >= ts.len() {
        assert(errs.subrange(0, errs.len() as int) =~= errs);
    } else {
        let (r, p) = stmt_at(ts, pos);
        match r {
            Ok(s) => {
                if s is Halt || !(pos < p <= ts.len()) {
                    assert(errs.subrange(0, errs.len() as int) =~= errs);
                } else {
                    lemma_diagnostics_kept(ts, p, stmts.push(s), errs);
                }
            },
            Err(m) => {
                let next = if pos <= p < ts.len() {
                    p + 1
                } else {
                    ts.len() as int
                };
                lemma_diagnostics_kept(ts, next, stmts, errs.push(m));
                let all = program_at(ts, next, stmts, errs.push(m));
                if let Err(all) = all {
                    assert(all.subrange(0, errs.len() as int) =~= errs.push(m).subrange(
                        0,
                        errs.len() as int,
                    ));
                }
            },
        }
    }
}

/// An operand that is a single token: an integer, or an identifier not called.
pub open spec fn leaf(t: Token) -> ExprV {
    if t.kind == TokenKind::Int {
        ExprV::Int { value: t }
    } else {
        ExprV::Id { name: t }
    }
}

/// `*` and `/` bind tighter than `+` and `-`.
pub open spec fn precedence(op: TokenKind) -> int {
    if op == TokenKind::Star || op == TokenKind::Slash {
        2
    } else {
        1
    }
}

pub open spec fn bin(lhs: ExprV, op: TokenKind, rhs: ExprV) -> ExprV {
    ExprV::Binary { lhs: Box::new(lhs), op, rhs: Box::new(rhs) }
}

/// Precedence and associativity: in `a o1 b o2 c`, the second operator takes
/// `b` when it binds tighter than the first; otherwise (same or lower
/// precedence) the first operator's result becomes its left operand. The
/// operands are integers or identifiers, and what follows is neither an
/// operator nor the `(` of a call.
pub proof fn lemma_precedence_and_associativity(ts: Seq<Token>, pos: int)
    requires
        0 <= pos,
        pos + 5 < ts.len(),
        ts[pos].kind == TokenKind::Int || ts[pos].kind == TokenKind::Id,
        is_binary_op(ts[pos + 1].kind),
        ts[pos + 2].kind == TokenKind::Int || ts[pos + 2].kind == TokenKind::Id,
        is_binary_op(ts[pos + 3].kind),
        ts[pos + 4].kind == TokenKind::Int || ts[pos + 4].kind == TokenKind::Id,
        !is_binary_op(ts[pos + 5].kind),
        ts[pos + 5].kind != TokenKind::LParen,
    ensures
        binary_at(ts, pos, 0) == (
            Ok::<ExprV, Seq<char>>(
                if precedence(ts[pos + 3].kind) > precedence(ts[pos + 1].kind) {
                    bin(
                        leaf(ts[pos]),
                        ts[pos + 1].kind,
                        bin(leaf(ts[pos + 2]), ts[pos + 3].kind, leaf(ts[pos + 4])),
                    )
                } else {
                    bin(
                        bin(leaf(ts[pos]), ts[pos + 1].kind, leaf(ts[pos + 2])),
                        ts[pos + 3].kind,
                        leaf(ts[pos + 4]),
                    )
                },
            ),
            pos + 5,
        ),
{
    let (a, o1, b, o2, c) = (leaf(ts[pos]), ts[pos + 1].kind, leaf(ts[pos + 2]), ts[pos + 3].kind, leaf(ts[pos + 4]));
    let r1 = binding_power(o1).1 as int;
    let r2 = binding_power(o2).1 as int;
    assert(atom_at(ts, pos) == (Ok::<ExprV, Seq<char>>(a), pos + 1));
    assert(prefix_at(ts, pos) == (Ok::<ExprV, Seq<char>>(a), pos + 1));
    assert(atom_at(ts, pos + 2) == (Ok::<ExprV, Seq<char>>(b), pos + 3));
    assert(prefix_at(ts, pos + 2) == (Ok::<ExprV, Seq<char>>(b), pos + 3));
    assert(atom_at(ts, pos + 4) == (Ok::<ExprV, Seq<char>>(c), pos + 5));
    assert(prefix_at(ts, pos + 4) == (Ok::<ExprV, Seq<char>>(c), pos + 5));
    assert(binary_rest(ts, pos + 5, c, r2) == (Ok::<ExprV, Seq<char>>(c), pos + 5));
    assert(binary_at(ts, pos + 4, r2) == (Ok::<ExprV, Seq<char>>(c), pos + 5));
    if precedence(o2) > precedence(o1) {
        let bc = bin(b, o2, c);
        assert(binary_rest(ts, pos + 5, bc, r1) == (Ok::<ExprV, Seq<char>>(bc), pos + 5));
        assert(binary_rest(ts, pos + 3, b, r1) == (Ok::<ExprV, Seq<char>>(bc), pos + 5));
        assert(binary_at(ts, pos + 2, r1) == (Ok::<ExprV, Seq<char>>(bc), pos + 5));
        assert(binary_rest(ts, pos + 5, bin(a, o1, bc), 0) == (
            Ok::<ExprV, Seq<char>>(bin(a, o1, bc)),
            pos + 5,
        ));
        assert(binary_rest(ts, pos + 1, a, 0) == (Ok::<ExprV, Seq<char>>(bin(a, o1, bc)), pos + 5));
    } else {
        let ab = bin(a, o1, b);
        assert(binary_rest(ts, pos + 3, b, r1) == (Ok::<ExprV, Seq<char>>(b), pos + 3));
        assert(binary_at(ts, pos + 2, r1) == (Ok::<ExprV, Seq<char>>(b), pos + 3));
        assert(binary_rest(ts, pos + 5, bin(ab, o2, c), 0) == (
            Ok::<ExprV, Seq<char>>(bin(ab, o2, c)),
            pos + 5,
        ));
        assert(binary_rest(ts, pos + 3, ab, 0) == (Ok::<ExprV, Seq<char>>(bin(ab, o2, c)), pos + 5));
        assert(binary_rest(ts, pos + 1, a, 0) == (Ok::<ExprV, Seq<char>>(bin(ab, o2, c)), pos + 5));
    }
}

} // verus!
