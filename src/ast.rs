//! The syntax tree and its canonical textual rendering.
use vstd::prelude::*;
use crate::tokens::{kind_text, Token, TokenKind};
use crate::text::push_str;
use vstd::string::*;

verus! {

#[derive(Debug)]
pub enum Statement {
    Return { value: Option<Expression> },
    ExpressionStatement { expression: Expression },
    /// End of input reached where a statement was expected.
    Halt,
}

#[derive(Debug)]
pub enum Expression {
    Binary { lhs: Box<Expression>, op: TokenKind, rhs: Box<Expression> },
    Unary { op: TokenKind, expr: Box<Expression> },
    FunctionCall { callee: Box<Expression>, args: Vec<Expression> },
    FunctionLiteral {
        name: Option<Token>,
        params: Vec<TypeMapping>,
        return_type: Option<Type>,
        body: Vec<Statement>,
    },
    Id { name: Token },
    Int { value: Token },
}

#[derive(Debug)]
pub enum Type {
    Int,
    String,
    Function { return_type: Box<Type>, param_types: Vec<Type> },
}

/// A function parameter: its name and its declared type.
#[derive(Debug)]
pub struct TypeMapping {
    pub expr: Expression,
    pub t: Type,
}

impl TypeMapping {
    pub fn new(expr: Expression, t: Type) -> (r: Self)
        ensures
            r == (TypeMapping { expr, t }),
    {
        Self { expr, t }
    }

    /// `<name>: <type>`.
    pub fn to_string(&self) -> (r: String)
        ensures
            r@ == render_param(*self),
        decreases self, 0int,
    {
        let mut s = self.expr.to_string();
        push_str(&mut s, ": ");
        let t = self.t.to_string();
        push_str(&mut s, t.as_str());
        s
    }
}

/// Rendering is a function of the tree alone: equal trees render to the same
/// text, so rendering one tree twice gives the same output both times.
pub proof fn lemma_rendering_is_pure(a: Statement, b: Statement)
    requires
        a == b,
    ensures
        render_stmt(a) == render_stmt(b),
{
}

/// The rendering of a statement.
pub open spec fn render_stmt(s: Statement) -> Seq<char>
    decreases s, 0int,
{
    match s {
        Statement::ExpressionStatement { expression } => render_expr(expression) + ";"@,
        Statement::Return { value } => match value {
            Some(v) => "return "@ + render_expr(v),
            None => "return"@,
        },
        Statement::Halt => "EOF"@,
    }
}

/// The rendering of an expression.
pub open spec fn render_expr(e: Expression) -> Seq<char>
    decreases e, 0int,
{
    match e {
        Expression::Binary { lhs, op, rhs } => "("@ + render_expr(*lhs) + " "@ + kind_text(op)
            + " "@ + render_expr(*rhs) + ")"@,
        Expression::Unary { op, expr } => "("@ + kind_text(op) + render_expr(*expr) + ")"@,
        Expression::FunctionCall { callee, args } => "fcall: "@ + render_expr(*callee) + "("@
            + render_exprs(args@, args@.len() as int) + ")"@,
        Expression::FunctionLiteral { name, params, return_type, body } => "fn "@ + name_text(
            name,
        ) + "("@ + render_params(params@, params@.len() as int) + ") -> "@ + return_text(
            return_type,
        ) + " { "@ + render_stmts(body@, body@.len() as int) + " }"@,
        Expression::Id { name } => name.literal@,
        Expression::Int { value } => value.literal@,
    }
}

/// The name of a function literal, or `<anon>`.
pub open spec fn name_text(name: Option<Token>) -> Seq<char> {
    match name {
        Some(t) => t.literal@,
        None => "<anon>"@,
    }
}

/// The declared return type of a function literal, or `void`.
pub open spec fn return_text(t: Option<Type>) -> Seq<char> {
    match t {
        Some(t) => render_type(t),
        None => "void"@,
    }
}

/// The first `n` expressions of `s`, rendered and joined by `, `.
pub open spec fn render_exprs(s: Seq<Expression>, n: int) -> Seq<char>
    decreases s, n,
{
    if n <= 0 || n > s.len() {
        Seq::empty()
    } else if n == 1 {
        render_expr(s[0])
    } else {
        render_exprs(s, n - 1) + ", "@ + render_expr(s[n - 1])
    }
}

/// The first `n` statements of `s`, rendered and joined by a space.
pub open spec fn render_stmts(s: Seq<Statement>, n: int) -> Seq<char>
    decreases s, n,
{
    if n <= 0 || n > s.len() {
        Seq::empty()
    } else if n == 1 {
        render_stmt(s[0])
    } else {
        render_stmts(s, n - 1) + " "@ + render_stmt(s[n - 1])
    }
}

/// The rendering of a parameter.
pub open spec fn render_param(p: TypeMapping) -> Seq<char>
    decreases p, 0int,
{
    render_expr(p.expr) + ": "@ + render_type(p.t)
}

/// The first `n` parameters of `s`, rendered and joined by `, `.
pub open spec fn render_params(s: Seq<TypeMapping>, n: int) -> Seq<char>
    decreases s, n,
{
    if n <= 0 || n > s.len() {
        Seq::empty()
    } else if n == 1 {
        render_param(s[0])
    } else {
        render_params(s, n - 1) + ", "@ + render_param(s[n - 1])
    }
}

/// The rendering of a type.
pub open spec fn render_type(t: Type) -> Seq<char>
    decreases t, 0int,
{
    match t {
        Type::Int => "int"@,
        Type::String => "string"@,
        Type::Function { return_type, param_types } => "fn("@ + render_types(
            param_types@,
            param_types@.len() as int,
        ) + ") -> "@ + render_type(*return_type),
    }
}

/// The first `n` types of `s`, rendered and joined by `, `.
pub open spec fn render_types(s: Seq<Type>, n: int) -> Seq<char>
    decreases s, n,
{
    if n <= 0 || n > s.len() {
        Seq::empty()
    } else if n == 1 {
        render_type(s[0])
    } else {
        render_types(s, n - 1) + ", "@ + render_type(s[n - 1])
    }
}

impl Statement {
    /// The canonical rendering of this statement.
    pub fn to_string(&self) -> (r: String)
        ensures
            r@ == render_stmt(*self),
        decreases self, 0int,
    {
        match self {
            Statement::ExpressionStatement { expression } => {
                let mut s = expression.to_string();
                push_str(&mut s, ";");
                s
            },
            Statement::Return { value } => match value {
                Some(v) => {
                    let mut s = String::from_str("return ");
                    let e = v.to_string();
                    push_str(&mut s, e.as_str());
                    s
                },
                None => String::from_str("return"),
            },
            Statement::Halt => String::from_str("EOF"),
        }
    }
}

impl Expression {
    /// The canonical rendering of this expression.
    pub fn to_string(&self) -> (r: String)
        ensures
            r@ == render_expr(*self),
        decreases self, 0int,
    {
        match self {
            Expression::Binary { lhs, op, rhs } => {
                let mut s = String::from_str("(");
                let l = lhs.to_string();
                push_str(&mut s, l.as_str());
                push_str(&mut s, " ");
                push_str(&mut s, op.text());
                push_str(&mut s, " ");
                let r = rhs.to_string();
                push_str(&mut s, r.as_str());
                push_str(&mut s, ")");
                s
            },
            Expression::Unary { op, expr } => {
                let mut s = String::from_str("(");
                push_str(&mut s, op.text());
                let e = expr.to_string();
                push_str(&mut s, e.as_str());
                push_str(&mut s, ")");
                s
            },
            Expression::FunctionCall { callee, args } => {
                let mut s = String::from_str("fcall: ");
                let c = callee.to_string();
                push_str(&mut s, c.as_str());
                push_str(&mut s, "(");
                let a = join_exprs(args);
                push_str(&mut s, a.as_str());
                push_str(&mut s, ")");
                s
            },
            Expression::FunctionLiteral { name, params, return_type, body } => {
                let mut s = String::from_str("fn ");
                match name {
                    Some(t) => push_str(&mut s, t.literal.as_str()),
                    None => push_str(&mut s, "<anon>"),
                }
                push_str(&mut s, "(");
                let p = join_params(params);
                push_str(&mut s, p.as_str());
                push_str(&mut s, ") -> ");
                match return_type {
                    Some(t) => {
                        let ts = t.to_string();
                        push_str(&mut s, ts.as_str());
                    },
                    None => push_str(&mut s, "void"),
                }
                push_str(&mut s, " { ");
                let b = join_stmts(body);
                push_str(&mut s, b.as_str());
                push_str(&mut s, " }");
                s
            },
            Expression::Id { name } => name.literal.clone(),
            Expression::Int { value } => value.literal.clone(),
        }
    }
}

impl Clone for Statement {
    fn clone(&self) -> (r: Self)
        decreases self,
    {
        match self {
            Statement::Return { value } => Statement::Return {
                value: match value {
                    Some(e) => Some(e.clone()),
                    None => None,
                },
            },
            Statement::ExpressionStatement { expression } => Statement::ExpressionStatement {
                expression: expression.clone(),
            },
            Statement::Halt => Statement::Halt,
        }
    }
}

impl Clone for Expression {
    fn clone(&self) -> (r: Self)
        decreases self,
    {
        match self {
            Expression::Binary { lhs, op, rhs } => Expression::Binary {
                lhs: Box::new((**lhs).clone()),
                op: *op,
                rhs: Box::new((**rhs).clone()),
            },
            Expression::Unary { op, expr } => Expression::Unary {
                op: *op,
                expr: Box::new((**expr).clone()),
            },
            Expression::FunctionCall { callee, args } => {
                let mut cloned: Vec<Expression> = Vec::new();
                let mut i: usize = 0;
                while i < args.len()
                    invariant
                        i <= args@.len(),
                        decreases_to!(*self => args),
                    decreases args@.len() - i,
                {
                    proof {
                        assert(decreases_to!(args => args@[i as int]));
                    }
                    cloned.push(args[i].clone());
                    i = i + 1;
                }
                Expression::FunctionCall { callee: Box::new((**callee).clone()), args: cloned }
            },
            Expression::FunctionLiteral { name, params, return_type, body } => {
                let mut ps: Vec<TypeMapping> = Vec::new();
                let mut i: usize = 0;
                while i < params.len()
                    invariant
                        i <= params@.len(),
                        decreases_to!(*self => params),
                    decreases params@.len() - i,
                {
                    proof {
                        assert(decreases_to!(params => params@[i as int]));
                    }
                    ps.push(params[i].clone());
                    i = i + 1;
                }
                let mut bs: Vec<Statement> = Vec::new();
                i = 0;
                while i < body.len()
                    invariant
                        i <= body@.len(),
                        decreases_to!(*self => body),
                    decreases body@.len() - i,
                {
                    proof {
                        assert(decreases_to!(body => body@[i as int]));
                    }
                    bs.push(body[i].clone());
                    i = i + 1;
                }
                Expression::FunctionLiteral {
                    name: match name {
                        Some(t) => Some(t.duplicate()),
                        None => None,
                    },
                    params: ps,
                    return_type: match return_type {
                        Some(t) => Some(t.clone()),
                        None => None,
                    },
                    body: bs,
                }
            },
            Expression::Id { name } => Expression::Id { name: name.duplicate() },
            Expression::Int { value } => Expression::Int { value: value.duplicate() },
        }
    }
}

impl Clone for TypeMapping {
    fn clone(&self) -> (r: Self)
        decreases self,
    {
        TypeMapping { expr: self.expr.clone(), t: self.t.clone() }
    }
}

impl Clone for Type {
    fn clone(&self) -> (r: Self)
        decreases self,
    {
        match self {
            Type::Int => Type::Int,
            Type::String => Type::String,
            Type::Function { return_type, param_types } => {
                let mut ps: Vec<Type> = Vec::new();
                let mut i: usize = 0;
                while i < param_types.len()
                    invariant
                        i <= param_types@.len(),
                        decreases_to!(*self => param_types),
                    decreases param_types@.len() - i,
                {
                    proof {
                        assert(decreases_to!(param_types => param_types@[i as int]));
                    }
                    ps.push(param_types[i].clone());
                    i = i + 1;
                }
                Type::Function { return_type: Box::new((**return_type).clone()), param_types: ps }
            },
        }
    }
}

impl Type {
    /// The canonical rendering of this type.
    pub fn to_string(&self) -> (r: String)
        ensures
            r@ == render_type(*self),
        decreases self, 0int,
    {
        match self {
            Type::Int => String::from_str("int"),
            Type::String => String::from_str("string"),
            Type::Function { return_type, param_types } => {
                let mut s = String::from_str("fn(");
                let p = join_types(param_types);
                push_str(&mut s, p.as_str());
                push_str(&mut s, ") -> ");
                let r = return_type.to_string();
                push_str(&mut s, r.as_str());
                s
            },
        }
    }
}

fn join_exprs(v: &Vec<Expression>) -> (r: String)
    ensures
        r@ == render_exprs(v@, v@.len() as int),
    decreases v, 1int,
{
    let mut s = String::new();
    let mut i: usize = 0;
    while i < v.len()
        invariant
            i <= v@.len(),
            s@ == render_exprs(v@, i as int),
        decreases v@.len() - i,
    {
        if i > 0 {
            push_str(&mut s, ", ");
        }
        proof {
            assert(decreases_to!(v => v@[i as int]));
        }
        let e = v[i].to_string();
        push_str(&mut s, e.as_str());
        i = i + 1;
    }
    s
}

fn join_params(v: &Vec<TypeMapping>) -> (r: String)
    ensures
        r@ == render_params(v@, v@.len() as int),
    decreases v, 1int,
{
    let mut s = String::new();
    let mut i: usize = 0;
    while i < v.len()
        invariant
            i <= v@.len(),
            s@ == render_params(v@, i as int),
        decreases v@.len() - i,
    {
        if i > 0 {
            push_str(&mut s, ", ");
        }
        proof {
            assert(decreases_to!(v => v@[i as int]));
        }
        let e = v[i].to_string();
        push_str(&mut s, e.as_str());
        i = i + 1;
    }
    s
}

fn join_stmts(v: &Vec<Statement>) -> (r: String)
    ensures
        r@ == render_stmts(v@, v@.len() as int),
    decreases v, 1int,
{
    let mut s = String::new();
    let mut i: usize = 0;
    while i < v.len()
        invariant
            i <= v@.len(),
            s@ == render_stmts(v@, i as int),
        decreases v@.len() - i,
    {
        if i > 0 {
            push_str(&mut s, " ");
        }
        proof {
            assert(decreases_to!(v => v@[i as int]));
        }
        let e = v[i].to_string();
        push_str(&mut s, e.as_str());
        i = i + 1;
    }
    s
}

fn join_types(v: &Vec<Type>) -> (r: String)
    ensures
        r@ == render_types(v@, v@.len() as int),
    decreases v, 1int,
{
    let mut s = String::new();
    let mut i: usize = 0;
    while i < v.len()
        invariant
            i <= v@.len(),
            s@ == render_types(v@, i as int),
        decreases v@.len() - i,
    {
        if i > 0 {
            push_str(&mut s, ", ");
        }
        proof {
            assert(decreases_to!(v => v@[i as int]));
        }
        let e = v[i].to_string();
        push_str(&mut s, e.as_str());
        i = i + 1;
    }
    s
}

} // verus!
