use ice::ast::{Expression, Statement, Type, TypeMapping};
use ice::lexer::Lexer;
use ice::parser::Parser;
use ice::tokens::{Token, TokenKind};
use ice::visitors::{EVisitor, SVisitor};

struct Counter {
    nodes: usize,
}

impl EVisitor<usize> for Counter {
    fn visit_binary(&mut self, lhs: &Expression, _op: &TokenKind, rhs: &Expression) -> Result<usize, String> {
        self.nodes += 1;
        Ok(EVisitor::visit(self, lhs)? + EVisitor::visit(self, rhs)? + 1)
    }
    fn visit_unary(&mut self, _op: &TokenKind, expr: &Expression) -> Result<usize, String> {
        self.nodes += 1;
        Ok(EVisitor::visit(self, expr)? + 1)
    }
    fn visit_function_call(&mut self, callee: &Expression, args: &[Expression]) -> Result<usize, String> {
        self.nodes += 1;
        let mut n = EVisitor::visit(self, callee)? + 1;
        for a in args {
            n += EVisitor::visit(self, a)?;
        }
        Ok(n)
    }
    fn visit_function_literal(
        &mut self,
        _name: &Option<Token>,
        _params: &[TypeMapping],
        _return_type: &Option<Type>,
        _body: &[Statement],
    ) -> Result<usize, String> {
        self.nodes += 1;
        Ok(1)
    }
    fn visit_id(&mut self, _name: Token) -> Result<usize, String> {
        self.nodes += 1;
        Ok(1)
    }
    fn visit_int(&mut self, _value: Token) -> Result<usize, String> {
        self.nodes += 1;
        Ok(1)
    }
}

impl SVisitor<usize> for Counter {
    fn visit_return(&mut self, value: Option<&Expression>) -> Result<usize, String> {
        match value {
            Some(e) => EVisitor::visit(self, e),
            None => Ok(0),
        }
    }
    fn visit_expression_stmt(&mut self, expr: &Expression) -> Result<usize, String> {
        EVisitor::visit(self, expr)
    }
    fn visit_halt(&mut self) -> Result<usize, String> {
        Err("halt".to_string())
    }
}

#[test]
fn visitor_dispatches_on_each_variant() {
    let tokens = Lexer::new("f(1 + -x, 2); return; return 3 * 4;".to_string()).lex().unwrap();
    let stmts = Parser::new(tokens).parse().unwrap();
    let mut c = Counter { nodes: 0 };
    let counts: Vec<usize> = stmts.iter().map(|s| SVisitor::visit(&mut c, s).unwrap()).collect();
    assert_eq!(counts, vec![7, 0, 3]);
    assert_eq!(c.nodes, 10);
    assert_eq!(SVisitor::visit(&mut c, &Statement::Halt), Err("halt".to_string()));
}
