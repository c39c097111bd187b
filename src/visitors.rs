//! Double dispatch over the syntax tree: a pass implements one method per
//! variant, and `visit` picks the method that fits the node.
use vstd::prelude::*;
use crate::ast::{Expression, Statement, Type, TypeMapping};
use crate::tokens::{Token, TokenKind};

verus! {

pub trait SVisitor<R>: Sized {
    /// What an implementation promises when `visit_return` turns `self` into `after`
    /// with result `r`; by default, nothing.
    open spec fn returned(&self, after: Self, value: Option<Expression>, r: Result<R, String>) -> bool {
        true
    }

    /// What an implementation promises when `visit_expression_stmt` turns `self` into `after`
    /// with result `r`; by default, nothing.
    open spec fn expression_stmt_visited(&self, after: Self, expr: Expression, r: Result<R, String>) -> bool {
        true
    }

    /// What an implementation promises when `visit_halt` turns `self` into `after`
    /// with result `r`; by default, nothing.
    open spec fn halted(&self, after: Self, r: Result<R, String>) -> bool {
        true
    }

    fn visit_return(&mut self, value: Option<&Expression>) -> (r: Result<R, String>)
        ensures
            old(self).returned(
                *final(self),
                match value {
                    Some(e) => Some(*e),
                    None => None,
                },
                r,
            ),
    ;

    fn visit_expression_stmt(&mut self, expr: &Expression) -> (r: Result<R, String>)
        ensures
            old(self).expression_stmt_visited(*final(self), *expr, r),
    ;

    fn visit_halt(&mut self) -> (r: Result<R, String>)
        ensures
            old(self).halted(*final(self), r),
    ;

    /// Hands `stmt` to the method for its variant and returns what it returns.
    fn visit(&mut self, stmt: &Statement) -> (r: Result<R, String>)
        ensures
            match *stmt {
                Statement::Return { value } => old(self).returned(*final(self), value, r),
                Statement::ExpressionStatement { expression } => old(
                    self,
                ).expression_stmt_visited(*final(self), expression, r),
                Statement::Halt => old(self).halted(*final(self), r),
            },
    {
        match stmt {
            Statement::Return { value } => self.visit_return(value.as_ref()),
            Statement::ExpressionStatement { expression } => self.visit_expression_stmt(
                expression,
            ),
            Statement::Halt => self.visit_halt(),
        }
    }
}

pub trait EVisitor<R>: Sized {
    /// What an implementation promises when `visit_binary` turns `self` into `after`
    /// with result `r`; by default, nothing.
    open spec fn binary_visited(
        &self,
        after: Self,
        lhs: Expression,
        op: TokenKind,
        rhs: Expression,
        r: Result<R, String>,
    ) -> bool {
        true
    }

    /// What an implementation promises when `visit_unary` turns `self` into `after`
    /// with result `r`; by default, nothing.
    open spec fn unary_visited(&self, after: Self, op: TokenKind, expr: Expression, r: Result<R, String>) -> bool {
        true
    }

    /// What an implementation promises when `visit_function_call` turns `self` into `after`
    /// with result `r`; by default, nothing.
    open spec fn call_visited(
        &self,
        after: Self,
        callee: Expression,
        args: Seq<Expression>,
        r: Result<R, String>,
    ) -> bool {
        true
    }

    /// What an implementation promises when `visit_function_literal` turns `self` into `after`
    /// with result `r`; by default, nothing.
    open spec fn literal_visited(
        &self,
        after: Self,
        name: Option<Token>,
        params: Seq<TypeMapping>,
        return_type: Option<Type>,
        body: Seq<Statement>,
        r: Result<R, String>,
    ) -> bool {
        true
    }

    /// What an implementation promises when `visit_id` turns `self` into `after`
    /// with result `r`; by default, nothing.
    open spec fn id_visited(&self, after: Self, name: Token, r: Result<R, String>) -> bool {
        true
    }

    /// What an implementation promises when `visit_int` turns `self` into `after`
    /// with result `r`; by default, nothing.
    open spec fn int_visited(&self, after: Self, value: Token, r: Result<R, String>) -> bool {
        true
    }

    fn visit_binary(&mut self, lhs: &Expression, op: &TokenKind, rhs: &Expression) -> (r: Result<
        R,
        String,
    >)
        ensures
            old(self).binary_visited(*final(self), *lhs, *op, *rhs, r),
    ;

    fn visit_unary(&mut self, op: &TokenKind, expr: &Expression) -> (r: Result<R, String>)
        ensures
            old(self).unary_visited(*final(self), *op, *expr, r),
    ;

    fn visit_function_call(&mut self, callee: &Expression, args: &[Expression]) -> (r: Result<
        R,
        String,
    >)
        ensures
            old(self).call_visited(*final(self), *callee, args@, r),
    ;

    fn visit_function_literal(
        &mut self,
        name: &Option<Token>,
        params: &[TypeMapping],
        return_type: &Option<Type>,
        body: &[Statement],
    ) -> (r: Result<R, String>)
        ensures
            old(self).literal_visited(*final(self), *name, params@, *return_type, body@, r),
    ;

    fn visit_id(&mut self, name: Token) -> (r: Result<R, String>)
        ensures
            old(self).id_visited(*final(self), name, r),
    ;

    fn visit_int(&mut self, value: Token) -> (r: Result<R, String>)
        ensures
            old(self).int_visited(*final(self), value, r),
    ;

    /// Hands `expr`'s own fields to the method for its variant and returns what
    /// it returns.
    fn visit(&mut self, expr: &Expression) -> (r: Result<R, String>)
        ensures
            match *expr {
                Expression::Binary { lhs, op, rhs } => old(self).binary_visited(
                    *final(self),
                    *lhs,
                    op,
                    *rhs,
                    r,
                ),
                Expression::Unary { op, expr } => old(self).unary_visited(*final(self), op, *expr, r),
                Expression::FunctionCall { callee, args } => old(self).call_visited(
                    *final(self),
                    *callee,
                    args@,
                    r,
                ),
                Expression::FunctionLiteral { name, params, return_type, body } => old(
                    self,
                ).literal_visited(*final(self), name, params@, return_type, body@, r),
                Expression::Id { name } => old(self).id_visited(*final(self), name, r),
                Expression::Int { value } => old(self).int_visited(*final(self), value, r),
            },
    {
        match expr {
            Expression::Binary { lhs, op, rhs } => self.visit_binary(lhs, op, rhs),
            Expression::Unary { op, expr } => self.visit_unary(op, expr),
            Expression::FunctionCall { callee, args } => self.visit_function_call(
                callee,
                args.as_slice(),
            ),
            Expression::FunctionLiteral { name, params, return_type, body } => self.visit_function_literal(
                name,
                params.as_slice(),
                return_type,
                body.as_slice(),
            ),
            Expression::Id { name } => self.visit_id(name.duplicate()),
            Expression::Int { value } => self.visit_int(value.duplicate()),
        }
    }
}

} // verus!
