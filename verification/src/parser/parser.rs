use crate::ast::expression::{
    AssignExpression, BinaryExpression, BlockExpression, CallExpression, Expression,
    LiteralExpression, NullExpression, VariableExpression,
};
use crate::ast::function::{Function, FunctionParameter};
use crate::ast::model::{
    exprs_model, lemma_expr_span, lemma_exprs_model_prefix, lemma_stmt_span,
    lemma_stmts_model_prefix, params_model, stmts_model, ParamModel,
};
use crate::ast::statement::{LetStatement, ReturnStatement, Statement};
use crate::ast::tree::AST;
use crate::info::ValType;
use crate::lexer::lexer::Lexer;
use crate::lexer::rules::{
    carries, is_stream, lemma_rest_is_stream, lemma_rest_rest, rest,
};
use crate::lexer::token::{Token, TokenData, TokenType};
use crate::parser::error::{LexerError, ParserError, UnexpectedTokenError};
use crate::parser::expected::{
    expect1, expect2, expect3, expect5, expected_kinds, expects, ExpectedSet,
};
use crate::parser::grammar::{
    faults_of, g_args, g_assign, g_body, g_call, g_expression, g_factor,
    g_function, g_let, g_next, g_param, g_params, g_peek, g_program, g_statement, g_sync,
    g_term, lemma_expression_uses, lemma_statement_uses, lemma_takes_factor, lemma_takes_one,
    lemma_takes_two, Fault, Program,
};
use crate::position::Position;
use vstd::pervasive::unreached;
use vstd::prelude::*;

verus! {

/// Reads the functions of a text. It goes on behind a fault, at the next place
/// where the grammar can be taken up again, and gathers the faults.
pub struct Parser<'s> {
    pub lexer: Lexer<'s>,
    pub ast: AST<'s>,
    pub errs: Vec<ParserError<'s>>,
}

/// Whether `r` is what the grammar gives as `g`: the same thing read, or the
/// same fault.
pub open spec fn yields<T: View>(r: Result<T, ParserError>, g: Result<T::V, Fault>) -> bool {
    match (r, g) {
        (Ok(x), Ok(m)) => x@ == m,
        (Err(e), Err(f)) => e@ == f,
        _ => false,
    }
}

/// Whether `r` is what the grammar gives as `g`: the same thing read, or the
/// same faults, at least one.
pub open spec fn yields_all<T: View>(r: Result<T, Vec<ParserError>>, g: Result<T::V, Seq<Fault>>)
    -> bool {
    match (r, g) {
        (Ok(x), Ok(m)) => x@ == m,
        (Err(e), Err(f)) => faults_of(e@) == f && e@.len() > 0,
        _ => false,
    }
}

/// Hands back a single fault as the faults of a reading with recovery.
pub fn fail<'s, T>(err: ParserError<'s>) -> (r: Result<T, Vec<ParserError<'s>>>)
    ensures
        r matches Err(errors) && errors@ == seq![err],
        r matches Err(errors) && faults_of(errors@) == seq![err@],
{
    let mut errors = Vec::new();
    errors.push(err);
    assert(errors@ =~= seq![err]);
    assert(faults_of(errors@) =~= seq![err@]);
    Err(errors)
}

impl<'s> Parser<'s> {
    /// Whether `self` is `before` with `used` tokens more taken: the text is
    /// the same, the tokens ahead are those that were ahead but the first
    /// `used`, and neither the tree nor the faults gathered have changed.
    pub open spec fn parsed(&self, before: &Self, used: nat) -> bool {
        &&& self.lexer.wf()
        &&& self.lexer.text() == before.lexer.text()
        &&& self.lexer.upcoming() == rest(before.lexer.upcoming(), used)
        &&& self.ast == before.ast
        &&& self.errs == before.errs
    }

    /// A parser on the tokens of `lexer`, with an empty tree.
    pub fn new(lexer: Lexer<'s>) -> (r: Parser<'s>)
        ensures
            r.lexer == lexer,
            r.ast.functions@.len() == 0,
            r.errs@.len() == 0,
    {
        Parser { lexer, ast: AST::new(), errs: Vec::new() }
    }

    /// Takes the token ahead if it is of an expected kind. A token that the
    /// lexer failed on and a token of another kind are faults and stay ahead.
    pub fn next(&mut self, expected: ExpectedSet) -> (r: Result<Token<'s>, ParserError<'s>>)
        requires
            old(self).lexer.wf(),
        ensures
            is_stream(old(self).lexer.upcoming()),
            rest(old(self).lexer.upcoming(), 0) == old(self).lexer.upcoming(),
            final(self).parsed(
                old(self),
                g_next(old(self).lexer.upcoming(), expected_kinds(expected)).used,
            ),
            yields(r, g_next(old(self).lexer.upcoming(), expected_kinds(expected)).result),
            r matches Ok(token) ==> carries(token.token_type, token.data),
            r matches Err(ParserError::UnexpectedToken(e)) ==> e.expected == expected,
    {
        proof {
            self.lexer.lemma_upcoming();
            lemma_rest_is_stream(self.lexer.upcoming(), 0);
        }
        let token = self.lexer.peek();
        if token.token_type == TokenType::Error {
            let err = LexerError::new(token);
            return Err(ParserError::LexerError(err));
        }
        if expects(&expected, token.token_type) {
            return Ok(self.lexer.lex());
        }
        let err = UnexpectedTokenError::new(expected, token);
        Err(ParserError::UnexpectedToken(err))
    }

    /// Whether the token ahead is of an expected kind.
    pub fn peek(&self, expected: ExpectedSet) -> (r: bool)
        requires
            self.lexer.wf(),
        ensures
            r == g_peek(self.lexer.upcoming(), expected_kinds(expected)),
    {
        let token = self.lexer.peek();
        if token.token_type == TokenType::Error {
            return false;
        }
        expects(&expected, token.token_type)
    }

    /// Reads on up to a token of an expected kind, or the end of the text.
    pub fn sync(&mut self, expected: ExpectedSet)
        requires
            old(self).lexer.wf(),
        ensures
            final(self).parsed(
                old(self),
                g_sync(old(self).lexer.upcoming(), expected_kinds(expected)),
            ),
    {
        let ghost toks = self.lexer.upcoming();
        let ghost kinds = expected_kinds(expected);
        let ghost mut used: nat = 0;
        proof {
            self.lexer.lemma_upcoming();
            lemma_rest_is_stream(toks, 0);
        }
        loop
            invariant
                is_stream(toks),
                kinds == expected_kinds(expected),
                self.parsed(old(self), used),
                toks == old(self).lexer.upcoming(),
                g_sync(toks, kinds) == used + g_sync(self.lexer.upcoming(), kinds),
            ensures
                self.parsed(old(self), g_sync(toks, kinds)),
            decreases self.lexer.upcoming().len(),
        {
            proof {
                self.lexer.lemma_upcoming();
                lemma_rest_is_stream(self.lexer.upcoming(), 1);
                lemma_rest_rest(toks, used, 1);
            }
            let token = self.lexer.peek();
            if token.token_type == TokenType::Eof {
                break ;
            }
            if expects(&expected, token.token_type) {
                break ;
            }
            self.lexer.lex();
            proof {
                used = used + 1;
            }
        }
    }

    /// Reads `= expression`, the value of an assignment to `name`.
    pub fn parse_assign(&mut self, name: Option<&'s str>) -> (r: Result<
        AssignExpression<'s>,
        ParserError<'s>,
    >)
        requires
            old(self).lexer.wf(),
        ensures
            final(self).parsed(
                old(self),
                g_assign(
                    old(self).lexer.upcoming(),
                    match name {
                        Some(n) => Some(n@),
                        None => None,
                    },
                ).used,
            ),
            yields(
                r,
                g_assign(
                    old(self).lexer.upcoming(),
                    match name {
                        Some(n) => Some(n@),
                        None => None,
                    },
                ).result,
            ),
        decreases old(self).lexer.upcoming().len(), 4int,
    {
        let ghost toks = self.lexer.upcoming();
        let tok = match self.next(expect1(TokenType::Assign)) {
            Ok(tok) => tok,
            Err(err) => {
                return Err(err);
            },
        };
        proof {
            lemma_rest_is_stream(toks, 1);
        }
        let expr = match self.parse_expression() {
            Ok(expr) => expr,
            Err(err) => {
                proof {
                    lemma_rest_rest(toks, 1, g_expression(rest(toks, 1)).used);
                }
                return Err(err);
            },
        };
        proof {
            lemma_rest_rest(toks, 1, g_expression(rest(toks, 1)).used);
            lemma_expr_span(expr);
        }
        let pos = tok.pos.merge(expr.get_pos());
        Ok(AssignExpression::new(name, expr, pos))
    }

    /// Reads `( arguments )`, the call of the function that `name` names.
    pub fn parse_call_expr(&mut self, name: Token<'s>) -> (r: Result<
        Expression<'s>,
        ParserError<'s>,
    >)
        requires
            old(self).lexer.wf(),
        ensures
            final(self).parsed(old(self), g_call(old(self).lexer.upcoming(), name@).used),
            yields(r, g_call(old(self).lexer.upcoming(), name@).result),
        decreases old(self).lexer.upcoming().len(), 4int,
    {
        let ghost toks = self.lexer.upcoming();
        match self.next(expect1(TokenType::Paren(true))) {
            Ok(_) => {},
            Err(err) => {
                return Err(err);
            },
        }
        let ghost inner = rest(toks, 1);
        let ghost mut used: nat = 0;
        proof {
            lemma_rest_is_stream(toks, 1);
            lemma_rest_is_stream(inner, 0);
        }
        let mut args: Vec<Expression<'s>> = Vec::new();
        while !self.peek(expect1(TokenType::Paren(false)))
            invariant
                is_stream(toks),
                is_stream(inner),
                inner == rest(toks, 1),
                toks == old(self).lexer.upcoming(),
                toks.len() >= 2,
                inner.len() < toks.len(),
                g_next(toks, seq![TokenType::Paren(true)]).result is Ok,
                self.lexer.wf(),
                self.lexer.text() == old(self).lexer.text(),
                self.ast == old(self).ast,
                self.errs == old(self).errs,
                self.lexer.upcoming() == rest(inner, used),
                g_args(inner, Seq::empty()).result == g_args(
                    self.lexer.upcoming(),
                    exprs_model(args@, args@.len() as int),
                ).result,
                g_args(inner, Seq::empty()).used == used + g_args(
                    self.lexer.upcoming(),
                    exprs_model(args@, args@.len() as int),
                ).used,
            decreases self.lexer.upcoming().len(),
        {
            let ghost cur = self.lexer.upcoming();
            let ghost done = exprs_model(args@, args@.len() as int);
            let ghost before = args@;
            proof {
                self.lexer.lemma_upcoming();
                lemma_rest_is_stream(inner, used);
            }
            let arg = match self.parse_expression() {
                Ok(arg) => arg,
                Err(err) => {
                    proof {
                        lemma_rest_rest(inner, used, g_expression(cur).used);
                        lemma_rest_rest(toks, 1, used + g_expression(cur).used);
                    }
                    return Err(err);
                },
            };
            let ghost e = g_expression(cur);
            proof {
                lemma_expression_uses(cur);
                lemma_rest_is_stream(cur, e.used);
                lemma_rest_is_stream(rest(cur, e.used), 1);
                lemma_rest_is_stream(rest(cur, e.used), 0);
            }
            args.push(arg);
            proof {
                lemma_exprs_model_prefix(before, args@, before.len() as int);
                assert(exprs_model(args@, args@.len() as int) == done.push(arg@));
            }
            let ghost mut comma: nat = 0;
            if self.peek(expect1(TokenType::Comma)) {
                let _ = self.next(expect1(TokenType::Comma));
                proof {
                    comma = 1;
                }
            }
            proof {
                lemma_rest_rest(cur, e.used, comma);
                lemma_rest_rest(inner, used, e.used + comma);
                used = used + e.used + comma;
            }
        }
        let ghost list = exprs_model(args@, args@.len() as int);
        match self.next(expect1(TokenType::Paren(false))) {
            Ok(_) => {},
            Err(err) => {
                proof {
                    lemma_rest_rest(toks, 1, used);
                }
                return Err(err);
            },
        }
        proof {
            lemma_rest_rest(toks, 1, used);
            lemma_rest_rest(toks, 1 + used, 1);
            if args@.len() > 0 {
                lemma_expr_span(args@[args@.len() - 1]);
            }
        }
        let pos = if args.len() == 0 {
            name.pos
        } else {
            name.pos.merge(args[args.len() - 1].get_pos())
        };
        Ok(Expression::CallExpression(CallExpression::new(pos, name.lexeme, args)))
    }

    /// Reads a factor: a number, a name, an assignment, a call, `null`, or an
    /// expression in parentheses.
    pub fn parse_factor(&mut self) -> (r: Result<Expression<'s>, ParserError<'s>>)
        requires
            old(self).lexer.wf(),
        ensures
            final(self).parsed(old(self), g_factor(old(self).lexer.upcoming()).used),
            yields(r, g_factor(old(self).lexer.upcoming()).result),
        decreases old(self).lexer.upcoming().len(), 1int,
    {
        let ghost toks = self.lexer.upcoming();
        let tok = match self.next(
            expect5(
                TokenType::Integer,
                TokenType::Float,
                TokenType::Identifier,
                TokenType::Null,
                TokenType::Paren(true),
            ),
        ) {
            Ok(tok) => tok,
            Err(err) => {
                return Err(err);
            },
        };
        let ghost after = rest(toks, 1);
        proof {
            lemma_rest_is_stream(toks, 1);
            lemma_takes_factor(tok.token_type);
        }
        match tok.token_type {
            TokenType::Integer | TokenType::Float => {
                let val = match tok.data {
                    Some(TokenData::Type(ty)) => ty,
                    _ => unreached(),
                };
                let lit = LiteralExpression::new(tok.lexeme, val, tok.pos);
                Ok(Expression::LiteralExpression(lit))
            },
            TokenType::Identifier => {
                let name = tok.lexeme;
                if self.peek(expect1(TokenType::Assign)) {
                    proof {
                        lemma_rest_rest(toks, 1, g_assign(after, Some(name@)).used);
                    }
                    return match self.parse_assign(Some(name)) {
                        Ok(expr) => Ok(Expression::AssignExpression(expr)),
                        Err(err) => Err(err),
                    };
                } else if self.peek(expect1(TokenType::Paren(true))) {
                    proof {
                        lemma_rest_rest(toks, 1, g_call(after, tok@).used);
                    }
                    return self.parse_call_expr(tok);
                }
                let lit = VariableExpression::new(name, tok.pos);
                Ok(Expression::VariableExpression(lit))
            },
            TokenType::Null => {
                let lit = NullExpression::new(tok.pos);
                Ok(Expression::NullExpression(lit))
            },
            TokenType::Paren(true) => {
                let ghost e = g_expression(after);
                proof {
                    lemma_rest_rest(toks, 1, e.used);
                    lemma_rest_rest(toks, 1 + e.used, 1);
                }
                let expr = match self.parse_expression() {
                    Ok(expr) => expr,
                    Err(err) => {
                        return Err(err);
                    },
                };
                match self.next(expect1(TokenType::Paren(false))) {
                    Ok(_) => {},
                    Err(err) => {
                        return Err(err);
                    },
                }
                Ok(expr)
            },
            _ => unreached(),
        }
    }

    /// Reads a term: a factor, or a factor, `*` or `/`, and a term.
    pub fn parse_term(&mut self) -> (r: Result<Expression<'s>, ParserError<'s>>)
        requires
            old(self).lexer.wf(),
        ensures
            final(self).parsed(old(self), g_term(old(self).lexer.upcoming()).used),
            yields(r, g_term(old(self).lexer.upcoming()).result),
        decreases old(self).lexer.upcoming().len(), 2int,
    {
        let ghost toks = self.lexer.upcoming();
        proof {
            self.lexer.lemma_upcoming();
        }
        let lhs = match self.parse_factor() {
            Ok(lhs) => lhs,
            Err(err) => {
                return Err(err);
            },
        };
        let ghost f = g_factor(toks);
        let ghost after = rest(toks, f.used);
        proof {
            lemma_rest_is_stream(toks, f.used);
            lemma_rest_is_stream(after, 1);
        }
        if self.peek(expect2(TokenType::Mul, TokenType::Div)) {
            let tok = match self.next(expect2(TokenType::Mul, TokenType::Div)) {
                Ok(tok) => tok,
                Err(err) => {
                    return Err(err);
                },
            };
            proof {
                lemma_takes_two(TokenType::Mul, TokenType::Div, tok.token_type);
                lemma_rest_rest(toks, f.used, 1);
                lemma_rest_rest(toks, f.used + 1, g_term(rest(after, 1)).used);
            }
            let operator = match tok.data {
                Some(TokenData::Operator(op)) => op,
                _ => unreached(),
            };
            let rhs = match self.parse_term() {
                Ok(rhs) => rhs,
                Err(err) => {
                    return Err(err);
                },
            };
            proof {
                lemma_expr_span(rhs);
            }
            let pos = tok.pos.merge(rhs.get_pos());
            let expr = Expression::BinaryExpression(BinaryExpression::new(lhs, operator, rhs, pos));
            return Ok(expr);
        }
        Ok(lhs)
    }

    /// Reads an expression: a term, or a term, `+` or `-`, and an expression.
    pub fn parse_expression(&mut self) -> (r: Result<Expression<'s>, ParserError<'s>>)
        requires
            old(self).lexer.wf(),
        ensures
            final(self).parsed(old(self), g_expression(old(self).lexer.upcoming()).used),
            yields(r, g_expression(old(self).lexer.upcoming()).result),
        decreases old(self).lexer.upcoming().len(), 3int,
    {
        let ghost toks = self.lexer.upcoming();
        proof {
            self.lexer.lemma_upcoming();
        }
        let lhs = match self.parse_term() {
            Ok(lhs) => lhs,
            Err(err) => {
                return Err(err);
            },
        };
        let ghost t = g_term(toks);
        let ghost after = rest(toks, t.used);
        proof {
            lemma_rest_is_stream(toks, t.used);
            lemma_rest_is_stream(after, 1);
        }
        if self.peek(expect2(TokenType::Plus, TokenType::Minus)) {
            let tok = match self.next(expect2(TokenType::Plus, TokenType::Minus)) {
                Ok(tok) => tok,
                Err(err) => {
                    return Err(err);
                },
            };
            proof {
                lemma_takes_two(TokenType::Plus, TokenType::Minus, tok.token_type);
                lemma_rest_rest(toks, t.used, 1);
                lemma_rest_rest(toks, t.used + 1, g_expression(rest(after, 1)).used);
            }
            let operator = match tok.data {
                Some(TokenData::Operator(op)) => op,
                _ => unreached(),
            };
            let rhs = match self.parse_expression() {
                Ok(rhs) => rhs,
                Err(err) => {
                    return Err(err);
                },
            };
            proof {
                lemma_expr_span(rhs);
            }
            let pos = tok.pos.merge(rhs.get_pos());
            let expr = Expression::BinaryExpression(BinaryExpression::new(lhs, operator, rhs, pos));
            return Ok(expr);
        }
        Ok(lhs)
    }

    /// Reads what follows `let`: a type, a name, and `;` or an initializer and
    /// `;`.
    pub fn parse_variable_declaration(&mut self) -> (r: Result<
        LetStatement<'s>,
        ParserError<'s>,
    >)
        requires
            old(self).lexer.wf(),
        ensures
            final(self).parsed(old(self), g_let(old(self).lexer.upcoming()).used),
            yields(r, g_let(old(self).lexer.upcoming()).result),
    {
        let ghost toks = self.lexer.upcoming();
        let type_ = match self.next(expect1(TokenType::Type)) {
            Ok(tok) => tok,
            Err(err) => {
                return Err(err);
            },
        };
        proof {
            lemma_takes_one(TokenType::Type, type_.token_type);
            lemma_rest_is_stream(toks, 1);
            lemma_rest_is_stream(toks, 2);
            lemma_rest_rest(toks, 1, 1);
            lemma_rest_rest(toks, 2, 1);
            lemma_rest_rest(toks, 1, 0);
            lemma_rest_rest(toks, 2, 0);
        }
        let ty = match type_.data {
            Some(TokenData::Type(ty)) => ty,
            _ => unreached(),
        };
        let name = match self.next(expect1(TokenType::Identifier)) {
            Ok(tok) => tok,
            Err(err) => {
                return Err(err);
            },
        };
        let ghost after = rest(toks, 2);
        if self.peek(expect1(TokenType::Semicolon)) {
            let _ = self.next(expect1(TokenType::Semicolon));
            let pos = type_.pos.merge(name.pos);
            let var_decl = LetStatement::new(ty, name.lexeme, None, pos);
            return Ok(var_decl);
        }
        if self.peek(expect1(TokenType::Assign)) {
            let ghost a = g_assign(after, None);
            proof {
                lemma_rest_rest(toks, 2, a.used);
                lemma_rest_rest(toks, 2 + a.used, 1);
                lemma_rest_rest(toks, 2 + a.used, 0);
            }
            let expr = match self.parse_assign(None) {
                Ok(expr) => expr,
                Err(err) => {
                    return Err(err);
                },
            };
            let pos = type_.pos.merge(name.pos).merge(expr.get_pos());
            let var_decl = LetStatement::new(ty, name.lexeme, Some(expr), pos);
            match self.next(expect1(TokenType::Semicolon)) {
                Ok(_) => {},
                Err(err) => {
                    return Err(err);
                },
            }
            return Ok(var_decl);
        }
        proof {
            let kind = after[0].token_type;
            lemma_takes_one(TokenType::Semicolon, kind);
            lemma_takes_one(TokenType::Assign, kind);
            lemma_takes_two(TokenType::Semicolon, TokenType::Assign, kind);
        }
        match self.next(expect2(TokenType::Semicolon, TokenType::Assign)) {
            Ok(_) => unreached(),
            Err(err) => Err(err),
        }
    }

    /// Reads a statement: an expression and `;`, a `return`, or a `let`.
    pub fn parse_statement(&mut self) -> (r: Result<Statement<'s>, ParserError<'s>>)
        requires
            old(self).lexer.wf(),
        ensures
            final(self).parsed(old(self), g_statement(old(self).lexer.upcoming()).used),
            yields(r, g_statement(old(self).lexer.upcoming()).result),
    {
        let ghost toks = self.lexer.upcoming();
        proof {
            self.lexer.lemma_upcoming();
        }
        if self.peek(expect3(TokenType::Integer, TokenType::Float, TokenType::Identifier)) {
            let ghost e = g_expression(toks);
            proof {
                lemma_rest_rest(toks, e.used, 1);
                lemma_rest_rest(toks, e.used, 0);
            }
            let expr = match self.parse_expression() {
                Ok(expr) => expr,
                Err(err) => {
                    return Err(err);
                },
            };
            match self.next(expect1(TokenType::Semicolon)) {
                Ok(_) => {},
                Err(err) => {
                    return Err(err);
                },
            }
            let stmt = Statement::Expression(expr);
            return Ok(stmt);
        }
        let tok = match self.next(expect2(TokenType::Return, TokenType::Let)) {
            Ok(tok) => tok,
            Err(err) => {
                return Err(err);
            },
        };
        proof {
            lemma_takes_two(TokenType::Return, TokenType::Let, tok.token_type);
            lemma_rest_is_stream(toks, 1);
        }
        match tok.token_type {
            TokenType::Return => {
                let ghost e = g_expression(rest(toks, 1));
                proof {
                    lemma_rest_rest(toks, 1, e.used);
                    lemma_rest_rest(toks, 1 + e.used, 1);
                    lemma_rest_rest(toks, 1 + e.used, 0);
                }
                let expr = match self.parse_expression() {
                    Ok(expr) => expr,
                    Err(err) => {
                        return Err(err);
                    },
                };
                proof {
                    lemma_expr_span(expr);
                }
                let pos = tok.pos.merge(expr.get_pos());
                match self.next(expect1(TokenType::Semicolon)) {
                    Ok(_) => {},
                    Err(err) => {
                        return Err(err);
                    },
                }
                let stmt = Statement::ReturnStatement(
                    ReturnStatement::new(expr, ValType::Untyped, pos),
                );
                Ok(stmt)
            },
            TokenType::Let => {
                proof {
                    lemma_rest_rest(toks, 1, g_let(rest(toks, 1)).used);
                }
                match self.parse_variable_declaration() {
                    Ok(var_decl) => Ok(Statement::LetStatement(var_decl)),
                    Err(err) => Err(err),
                }
            },
            _ => unreached(),
        }
    }

    /// Reads the statements of a body, up to the `}` that closes it. Behind a
    /// fault it goes on with the statement after the next `;`; where no `;`
    /// comes before the `}` or the end of the text, it ends. Hands back the
    /// block where no statement had a fault, else the faults in order.
    pub fn parse_body(&mut self) -> (r: Result<BlockExpression<'s>, Vec<ParserError<'s>>>)
        requires
            old(self).lexer.wf(),
        ensures
            final(self).parsed(
                old(self),
                g_body(old(self).lexer.upcoming(), Seq::empty(), None, Seq::empty()).used,
            ),
            yields_all(
                r,
                g_body(old(self).lexer.upcoming(), Seq::empty(), None, Seq::empty()).result,
            ),
    {
        let ghost toks = self.lexer.upcoming();
        let ghost whole = g_body(toks, Seq::empty(), None, Seq::empty());
        let ghost mut used: nat = 0;
        let mut statements: Vec<Statement<'s>> = Vec::new();
        let mut errors: Vec<ParserError<'s>> = Vec::new();
        let mut pos: Option<Position> = None;
        proof {
            self.lexer.lemma_upcoming();
            lemma_rest_is_stream(toks, 0);
            assert(faults_of(errors@) =~= Seq::<Fault>::empty());
        }
        while !self.peek(expect1(TokenType::Brace(false)))
            invariant
                is_stream(toks),
                toks == old(self).lexer.upcoming(),
                whole == g_body(toks, Seq::empty(), None, Seq::empty()),
                self.lexer.wf(),
                self.lexer.text() == old(self).lexer.text(),
                self.ast == old(self).ast,
                self.errs == old(self).errs,
                self.lexer.upcoming() == rest(toks, used),
                whole.result == g_body(
                    self.lexer.upcoming(),
                    stmts_model(statements@, statements@.len() as int),
                    pos,
                    faults_of(errors@),
                ).result,
                whole.used == used + g_body(
                    self.lexer.upcoming(),
                    stmts_model(statements@, statements@.len() as int),
                    pos,
                    faults_of(errors@),
                ).used,
            decreases self.lexer.upcoming().len(),
        {
            let ghost cur = self.lexer.upcoming();
            let ghost done = stmts_model(statements@, statements@.len() as int);
            let ghost before = statements@;
            let ghost found = faults_of(errors@);
            let ghost s = g_statement(cur);
            proof {
                self.lexer.lemma_upcoming();
                lemma_rest_is_stream(cur, s.used);
                lemma_rest_rest(toks, used, s.used);
            }
            let statement = self.parse_statement();
            match statement {
                Ok(stmt) => {
                    proof {
                        lemma_statement_uses(cur);
                        lemma_stmt_span(stmt);
                    }
                    let stmt_pos = stmt.get_pos();
                    pos = match pos {
                        Some(p) => Some(p.merge(stmt_pos)),
                        None => Some(stmt_pos),
                    };
                    statements.push(stmt);
                    proof {
                        lemma_stmts_model_prefix(before, statements@, before.len() as int);
                        assert(stmts_model(statements@, statements@.len() as int) == done.push(
                            stmt@,
                        ));
                        used = used + s.used;
                    }
                },
                Err(err) => {
                    let ghost after = rest(cur, s.used);
                    let ghost skipped = g_sync(
                        after,
                        seq![TokenType::Semicolon, TokenType::Brace(false)],
                    );
                    let ghost at = rest(after, skipped);
                    proof {
                        lemma_rest_is_stream(after, skipped);
                        lemma_rest_is_stream(at, 1);
                        lemma_rest_is_stream(at, 0);
                        lemma_rest_rest(toks, used + s.used, skipped);
                        lemma_rest_rest(toks, used + s.used + skipped, 1);
                    }
                    errors.push(err);
                    proof {
                        assert(faults_of(errors@) =~= found.push(err@));
                    }
                    self.sync(expect2(TokenType::Semicolon, TokenType::Brace(false)));
                    if self.peek(expect1(TokenType::Semicolon)) {
                        let _ = self.next(expect1(TokenType::Semicolon));
                        proof {
                            used = used + s.used + skipped + 1;
                        }
                    } else {
                        return Err(errors);
                    }
                },
            }
        }
        proof {
            self.lexer.lemma_upcoming();
        }
        if errors.len() == 0 {
            let pos = match pos {
                Some(p) => p,
                None => Position::default(),
            };
            Ok(BlockExpression::new(statements, pos))
        } else {
            Err(errors)
        }
    }

    /// Reads a parameter: a type and a name.
    pub fn parse_param(&mut self) -> (r: Result<FunctionParameter<'s>, ParserError<'s>>)
        requires
            old(self).lexer.wf(),
        ensures
            final(self).parsed(old(self), g_param(old(self).lexer.upcoming()).used),
            yields(r, g_param(old(self).lexer.upcoming()).result),
    {
        let ghost toks = self.lexer.upcoming();
        let type_ = match self.next(expect1(TokenType::Type)) {
            Ok(tok) => tok,
            Err(err) => {
                return Err(err);
            },
        };
        proof {
            lemma_rest_is_stream(toks, 1);
            lemma_rest_rest(toks, 1, 1);
            lemma_rest_rest(toks, 1, 0);
            lemma_takes_one(TokenType::Type, type_.token_type);
        }
        let ty = match type_.data {
            Some(TokenData::Type(ty)) => ty,
            _ => unreached(),
        };
        let name = match self.next(expect1(TokenType::Identifier)) {
            Ok(tok) => tok,
            Err(err) => {
                return Err(err);
            },
        };
        let pos = type_.pos.merge(name.pos);
        Ok(FunctionParameter::new(name.lexeme, pos, ty))
    }

    /// Reads the parameters of a function, up to the `)`. A comma may stand
    /// behind a parameter.
    pub fn parse_params(&mut self) -> (r: Result<Vec<FunctionParameter<'s>>, ParserError<'s>>)
        requires
            old(self).lexer.wf(),
        ensures
            final(self).parsed(
                old(self),
                g_params(old(self).lexer.upcoming(), Seq::empty()).used,
            ),
            match (r, g_params(old(self).lexer.upcoming(), Seq::empty()).result) {
                (Ok(params), Ok(list)) => params_model(params@) == list,
                (Err(e), Err(f)) => e@ == f,
                _ => false,
            },
    {
        let ghost toks = self.lexer.upcoming();
        let ghost whole = g_params(toks, Seq::empty());
        let ghost mut used: nat = 0;
        let mut params: Vec<FunctionParameter<'s>> = Vec::new();
        proof {
            self.lexer.lemma_upcoming();
            lemma_rest_is_stream(toks, 0);
            assert(params_model(params@) =~= Seq::<ParamModel>::empty());
        }
        while !self.peek(expect1(TokenType::Paren(false)))
            invariant
                is_stream(toks),
                toks == old(self).lexer.upcoming(),
                whole == g_params(toks, Seq::empty()),
                self.lexer.wf(),
                self.lexer.text() == old(self).lexer.text(),
                self.ast == old(self).ast,
                self.errs == old(self).errs,
                self.lexer.upcoming() == rest(toks, used),
                whole.result == g_params(self.lexer.upcoming(), params_model(params@)).result,
                whole.used == used + g_params(self.lexer.upcoming(), params_model(params@)).used,
            decreases self.lexer.upcoming().len(),
        {
            let ghost cur = self.lexer.upcoming();
            let ghost done = params_model(params@);
            let ghost p = g_param(cur);
            proof {
                self.lexer.lemma_upcoming();
                lemma_rest_is_stream(cur, 1);
                lemma_rest_is_stream(cur, 2);
                lemma_rest_is_stream(rest(cur, 2), 1);
                lemma_rest_is_stream(rest(cur, 2), 0);
                lemma_rest_rest(toks, used, p.used);
            }
            let param = match self.parse_param() {
                Ok(param) => param,
                Err(err) => {
                    return Err(err);
                },
            };
            params.push(param);
            proof {
                assert(params_model(params@) =~= done.push(param@));
            }
            let ghost mut comma: nat = 0;
            if self.peek(expect1(TokenType::Comma)) {
                let _ = self.next(expect1(TokenType::Comma));
                proof {
                    comma = 1;
                }
            }
            proof {
                lemma_rest_rest(cur, 2, comma);
                lemma_rest_rest(toks, used, 2 + comma);
                used = used + 2 + comma;
            }
        }
        proof {
            self.lexer.lemma_upcoming();
        }
        Ok(params)
    }

    /// Reads what follows `func`: a return type, a name, the parameters in
    /// parentheses, and the body in braces.
    pub fn parse_function(&mut self) -> (r: Result<Function<'s>, Vec<ParserError<'s>>>)
        requires
            old(self).lexer.wf(),
        ensures
            final(self).parsed(old(self), g_function(old(self).lexer.upcoming()).used),
            yields_all(r, g_function(old(self).lexer.upcoming()).result),
    {
        let ghost toks = self.lexer.upcoming();
        proof {
            self.lexer.lemma_upcoming();
            lemma_rest_rest(toks, 1, 1);
            lemma_rest_rest(toks, 2, 1);
        }
        let type_ = match self.next(expect1(TokenType::Type)) {
            Ok(tok) => tok,
            Err(err) => {
                return fail(err);
            },
        };
        proof {
            lemma_takes_one(TokenType::Type, type_.token_type);
            lemma_rest_rest(toks, 1, 0);
            lemma_rest_rest(toks, 2, 0);
        }
        let ret_ty = match type_.data {
            Some(TokenData::Type(ty)) => ty,
            _ => unreached(),
        };
        let name = match self.next(expect1(TokenType::Identifier)) {
            Ok(tok) => tok,
            Err(err) => {
                return fail(err);
            },
        };
        match self.next(expect1(TokenType::Paren(true))) {
            Ok(_) => {},
            Err(err) => {
                return fail(err);
            },
        }
        let ghost p = g_params(rest(toks, 3), Seq::empty());
        let ghost n = 3 + p.used;
        proof {
            lemma_rest_rest(toks, 3, p.used);
            lemma_rest_rest(toks, n, 1);
            lemma_rest_rest(toks, n, 0);
            lemma_rest_rest(toks, n + 1, 1);
            lemma_rest_rest(toks, n + 1, 0);
        }
        let params = match self.parse_params() {
            Ok(params) => params,
            Err(err) => {
                return fail(err);
            },
        };
        match self.next(expect1(TokenType::Paren(false))) {
            Ok(_) => {},
            Err(err) => {
                return fail(err);
            },
        }
        match self.next(expect1(TokenType::Brace(true))) {
            Ok(_) => {},
            Err(err) => {
                return fail(err);
            },
        }
        let ghost b = g_body(rest(toks, n + 2), Seq::empty(), None, Seq::empty());
        let ghost m = n + 2 + b.used;
        proof {
            lemma_rest_rest(toks, n + 2, b.used);
            lemma_rest_rest(toks, m, 1);
            lemma_rest_rest(toks, m, 0);
        }
        let body = match self.parse_body() {
            Ok(body) => body,
            Err(errs) => {
                return Err(errs);
            },
        };
        match self.next(expect1(TokenType::Brace(false))) {
            Ok(_) => {},
            Err(err) => {
                return fail(err);
            },
        }
        let ty_pos = type_.pos.merge(name.pos);
        Ok(Function::new(name.lexeme, params, ty_pos, ret_ty, body))
    }

    /// What reading has come to so far: the functions of the tree and the
    /// faults gathered.
    pub open spec fn so_far(&self) -> Program {
        Program { functions: self.ast@, faults: faults_of(self.errs@) }
    }

    /// Reads the functions of the text up to its end. A function without fault
    /// joins the tree; behind a fault the parser goes on at the next `func`.
    /// Hands back the tree where no fault has been gathered, else all the
    /// faults in order.
    pub fn parse(&mut self) -> (r: Result<&AST<'s>, &Vec<ParserError<'s>>>)
        requires
            old(self).lexer.wf(),
        ensures
            final(self).lexer.wf(),
            final(self).lexer.text() == old(self).lexer.text(),
            final(self).so_far() == g_program(old(self).lexer.upcoming(), old(self).so_far()),
            match r {
                Ok(ast) => *ast == final(self).ast && final(self).errs@.len() == 0,
                Err(errors) => *errors == final(self).errs && errors@.len() > 0,
            },
    {
        let ghost toks = self.lexer.upcoming();
        let ghost whole = g_program(toks, self.so_far());
        loop
            invariant_except_break
                whole == g_program(self.lexer.upcoming(), self.so_far()),
            invariant
                self.lexer.wf(),
                self.lexer.text() == old(self).lexer.text(),
            ensures
                whole == self.so_far(),
            decreases self.lexer.upcoming().len(),
        {
            let ghost cur = self.lexer.upcoming();
            let ghost before = self.so_far();
            proof {
                self.lexer.lemma_upcoming();
                lemma_rest_is_stream(cur, 1);
                lemma_takes_two(TokenType::Func, TokenType::Eof, cur[0].token_type);
            }
            let tok = match self.next(expect2(TokenType::Func, TokenType::Eof)) {
                Ok(tok) => tok,
                Err(err) => {
                    let ghost skipped = g_sync(cur, seq![TokenType::Func, TokenType::Eof]);
                    proof {
                        lemma_rest_is_stream(cur, skipped);
                    }
                    self.errs.push(err);
                    proof {
                        assert(faults_of(self.errs@) =~= before.faults.push(err@));
                    }
                    self.sync(expect2(TokenType::Func, TokenType::Eof));
                    continue ;
                },
            };
            match tok.token_type {
                TokenType::Func => {
                    let ghost fun = g_function(rest(cur, 1));
                    let ghost after = rest(cur, 1 + fun.used);
                    proof {
                        lemma_rest_rest(cur, 1, fun.used);
                        lemma_rest_is_stream(cur, 1 + fun.used);
                    }
                    let res = self.parse_function();
                    match res {
                        Ok(f) => {
                            self.ast.add_func(f);
                            proof {
                                assert(self.ast@ =~= before.functions.push(f@));
                            }
                        },
                        Err(mut errs) => {
                            let ghost skipped = g_sync(after, seq![TokenType::Func, TokenType::Eof]);
                            let ghost found = faults_of(errs@);
                            proof {
                                lemma_rest_is_stream(after, skipped);
                            }
                            self.sync(expect2(TokenType::Func, TokenType::Eof));
                            self.errs.append(&mut errs);
                            proof {
                                assert(faults_of(self.errs@) =~= before.faults + found);
                            }
                        },
                    }
                },
                _ => {
                    break ;
                },
            }
        }
        if self.errs.len() != 0 {
            return Err(&self.errs);
        }
        Ok(&self.ast)
    }

    /// The tree read so far.
    pub fn get_ast(&self) -> (r: &AST<'s>)
        ensures
            *r == self.ast,
    {
        &self.ast
    }
}

} // verus!
