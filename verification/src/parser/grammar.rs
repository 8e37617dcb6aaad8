use crate::ast::model::{
    AssignModel, BlockModel, ExprModel, FunctionModel, LetModel, ParamModel, StmtModel,
};
use crate::info::{OperatorType, ValType};
use crate::lexer::rules::{is_stream, lemma_rest_is_stream, rest, TokenModel};
use crate::lexer::token::{TokenData, TokenType};
use crate::parser::error::ParserError;
use crate::parser::expected::expected_kinds;
use crate::position::Position;
use std::ops::Range;
use vstd::prelude::*;

verus! {

/// What a fault of the parser says.
pub enum Fault {
    /// The lexer could make no token of a character.
    Lexer(TokenModel),
    /// A token stands where one of other kinds is expected.
    Unexpected(Seq<TokenType>, TokenModel),
}

impl<'s> View for ParserError<'s> {
    type V = Fault;

    open spec fn view(&self) -> Fault {
        match *self {
            ParserError::UnexpectedToken(e) => Fault::Unexpected(
                expected_kinds(e.expected),
                e.found@,
            ),
            ParserError::LexerError(e) => Fault::Lexer(e.token@),
        }
    }
}

/// What some faults say.
pub open spec fn faults_of(errors: Seq<ParserError>) -> Seq<Fault> {
    errors.map_values(|e: ParserError| e@)
}

/// What reading a part of the text comes to: the number of tokens that were
/// taken, and what was read or the fault that ended the reading.
pub struct Parsed<T> {
    pub used: nat,
    pub result: Result<T, Fault>,
}

/// What reading a part of the text with recovery comes to: the number of
/// tokens that were taken, and what was read or the faults that were found.
pub struct ParsedAll<T> {
    pub used: nat,
    pub result: Result<T, Seq<Fault>>,
}

/// Whether the parser takes a token of a kind where it expects `set`: the kind
/// is in the set, and the token is not one that the lexer failed on.
pub open spec fn takes(set: Seq<TokenType>, kind: TokenType) -> bool {
    kind != TokenType::Error && set.contains(kind)
}

/// A set of one kind takes that kind and no other.
pub proof fn lemma_takes_one(a: TokenType, kind: TokenType)
    ensures
        takes(seq![a], kind) <==> kind != TokenType::Error && kind == a,
{
    if kind == a {
        assert(seq![a][0] == kind);
    }
}

/// A set of two kinds takes those kinds and no other.
pub proof fn lemma_takes_two(a: TokenType, b: TokenType, kind: TokenType)
    ensures
        takes(seq![a, b], kind) <==> kind != TokenType::Error && (kind == a || kind == b),
{
    if kind == a {
        assert(seq![a, b][0] == kind);
    }
    if kind == b {
        assert(seq![a, b][1] == kind);
    }
}

/// The fault of the first token where `expected` is expected.
pub open spec fn fault_at(toks: Seq<TokenModel>, expected: Seq<TokenType>) -> Fault {
    if toks[0].token_type == TokenType::Error {
        Fault::Lexer(toks[0])
    } else {
        Fault::Unexpected(expected, toks[0])
    }
}

/// Taking the first token if it is of an expected kind.
pub open spec fn g_next(toks: Seq<TokenModel>, expected: Seq<TokenType>) -> Parsed<TokenModel> {
    if takes(expected, toks[0].token_type) {
        Parsed { used: 1, result: Ok(toks[0]) }
    } else {
        Parsed { used: 0, result: Err(fault_at(toks, expected)) }
    }
}

/// Whether the first token is of an expected kind.
pub open spec fn g_peek(toks: Seq<TokenModel>, expected: Seq<TokenType>) -> bool {
    takes(expected, toks[0].token_type)
}

/// The number of tokens before the first that is `Eof` or of an expected
/// kind.
pub open spec fn g_sync(toks: Seq<TokenModel>, expected: Seq<TokenType>) -> nat
    decreases toks.len(),
{
    if toks.len() >= 2 && toks[0].token_type != TokenType::Eof && !expected.contains(
        toks[0].token_type,
    ) {
        proof {
            reveal(rest);
        }
        1 + g_sync(rest(toks, 1), expected)
    } else {
        0
    }
}

/// The type that a token carries; `Untyped` where it carries none.
pub open spec fn type_of(t: TokenModel) -> ValType {
    match t.data {
        Some(TokenData::Type(ty)) => ty,
        _ => ValType::Untyped,
    }
}

/// The operator that a token carries; `Add` where it carries none.
pub open spec fn operator_of(t: TokenModel) -> OperatorType {
    match t.data {
        Some(TokenData::Operator(op)) => op,
        _ => OperatorType::Add,
    }
}

/// The kinds of token that a factor can begin with.
pub open spec fn factor_kinds() -> Seq<TokenType> {
    seq![
        TokenType::Integer,
        TokenType::Float,
        TokenType::Identifier,
        TokenType::Null,
        TokenType::Paren(true),
    ]
}

/// A factor begins with a number, a name, `null` or `(`.
pub proof fn lemma_takes_factor(kind: TokenType)
    ensures
        takes(factor_kinds(), kind) <==> {
            ||| kind == TokenType::Integer
            ||| kind == TokenType::Float
            ||| kind == TokenType::Identifier
            ||| kind == TokenType::Null
            ||| kind == TokenType::Paren(true)
        },
{
    let kinds = factor_kinds();
    if kind == TokenType::Integer {
        assert(kinds[0] == kind);
    }
    if kind == TokenType::Float {
        assert(kinds[1] == kind);
    }
    if kind == TokenType::Identifier {
        assert(kinds[2] == kind);
    }
    if kind == TokenType::Null {
        assert(kinds[3] == kind);
    }
    if kind == TokenType::Paren(true) {
        assert(kinds[4] == kind);
    }
}

/// A factor: a number, a name, an assignment to a name, a call, `null`, or an
/// expression in parentheses.
pub open spec fn g_factor(toks: Seq<TokenModel>) -> Parsed<ExprModel>
    decreases toks.len(), 1int,
    when is_stream(toks)
{
    let first = g_next(toks, factor_kinds());
    match first.result {
        Err(f) => Parsed { used: 0, result: Err(f) },
        Ok(t) => {
            proof {
                lemma_rest_is_stream(toks, 1);
            }
            let after = rest(toks, 1);
            if t.token_type == TokenType::Integer || t.token_type == TokenType::Float {
                Parsed {
                    used: 1,
                    result: Ok(ExprModel::Literal { value: t.lexeme, type_: type_of(t), pos: t.pos }),
                }
            } else if t.token_type == TokenType::Identifier {
                if g_peek(after, seq![TokenType::Assign]) {
                    let a = g_assign(after, Some(t.lexeme));
                    Parsed {
                        used: 1 + a.used,
                        result: match a.result {
                            Ok(x) => Ok(ExprModel::Assign(x)),
                            Err(f) => Err(f),
                        },
                    }
                } else if g_peek(after, seq![TokenType::Paren(true)]) {
                    let c = g_call(after, t);
                    Parsed { used: 1 + c.used, result: c.result }
                } else {
                    Parsed { used: 1, result: Ok(ExprModel::Variable { name: t.lexeme, pos: t.pos }) }
                }
            } else if t.token_type == TokenType::Null {
                Parsed { used: 1, result: Ok(ExprModel::Null { pos: t.pos }) }
            } else {
                let e = g_expression(after);
                match e.result {
                    Err(f) => Parsed { used: 1 + e.used, result: Err(f) },
                    Ok(x) => match g_next(rest(after, e.used), seq![TokenType::Paren(false)]).result {
                        Err(f) => Parsed { used: 1 + e.used, result: Err(f) },
                        Ok(_) => Parsed { used: 1 + e.used + 1, result: Ok(x) },
                    },
                }
            }
        },
    }
}

/// The value of an assignment to `name`: `=` and an expression.
pub open spec fn g_assign(toks: Seq<TokenModel>, name: Option<Seq<char>>) -> Parsed<AssignModel>
    decreases toks.len(), 4int,
    when is_stream(toks)
{
    match g_next(toks, seq![TokenType::Assign]).result {
        Err(f) => Parsed { used: 0, result: Err(f) },
        Ok(t) => {
            proof {
                lemma_rest_is_stream(toks, 1);
            }
            let e = g_expression(rest(toks, 1));
            match e.result {
                Err(f) => Parsed { used: 1 + e.used, result: Err(f) },
                Ok(x) => Parsed {
                    used: 1 + e.used,
                    result: Ok(
                        AssignModel { asignee: name, value: Box::new(x), pos: t.pos.merged(x.span()) },
                    ),
                },
            }
        },
    }
}

/// Where a call stands: from the name to the last argument.
pub open spec fn call_span(name: TokenModel, args: Seq<ExprModel>) -> Position {
    if args.len() == 0 {
        name.pos
    } else {
        name.pos.merged(args.last().span())
    }
}

/// The call of the function that `name` names: the arguments in parentheses.
pub open spec fn g_call(toks: Seq<TokenModel>, name: TokenModel) -> Parsed<ExprModel>
    decreases toks.len(), 4int,
    when is_stream(toks)
{
    match g_next(toks, seq![TokenType::Paren(true)]).result {
        Err(f) => Parsed { used: 0, result: Err(f) },
        Ok(_) => {
            proof {
                lemma_rest_is_stream(toks, 1);
            }
            let args = g_args(rest(toks, 1), Seq::empty());
            match args.result {
                Err(f) => Parsed { used: 1 + args.used, result: Err(f) },
                Ok(list) => match g_next(
                    rest(toks, 1 + args.used),
                    seq![TokenType::Paren(false)],
                ).result {
                    Err(f) => Parsed { used: 1 + args.used, result: Err(f) },
                    Ok(_) => Parsed {
                        used: 1 + args.used + 1,
                        result: Ok(
                            ExprModel::Call {
                                pos: call_span(name, list),
                                callee: name.lexeme,
                                args: list,
                            },
                        ),
                    },
                },
            }
        },
    }
}

/// The arguments of a call behind those already read, `done`, up to the `)`.
/// A comma may stand behind an argument. (An expression always takes a token;
/// the test for it shows that the reading ends.)
pub open spec fn g_args(toks: Seq<TokenModel>, done: Seq<ExprModel>) -> Parsed<Seq<ExprModel>>
    decreases toks.len(), 4int,
    when is_stream(toks)
{
    if g_peek(toks, seq![TokenType::Paren(false)]) {
        Parsed { used: 0, result: Ok(done) }
    } else {
        let e = g_expression(toks);
        match e.result {
            Err(f) => Parsed { used: e.used, result: Err(f) },
            Ok(x) => {
                proof {
                    lemma_rest_is_stream(toks, e.used);
                    lemma_rest_is_stream(rest(toks, e.used), 1);
                }
                let after = rest(toks, e.used);
                let comma: nat = if g_peek(after, seq![TokenType::Comma]) {
                    1
                } else {
                    0
                };
                if e.used >= 1 && toks.len() >= 2 {
                    let more = g_args(rest(after, comma), done.push(x));
                    Parsed { used: e.used + comma + more.used, result: more.result }
                } else {
                    Parsed { used: e.used, result: Ok(done.push(x)) }
                }
            },
        }
    }
}

/// A term: a factor, or a factor, `*` or `/`, and a term.
pub open spec fn g_term(toks: Seq<TokenModel>) -> Parsed<ExprModel>
    decreases toks.len(), 2int,
    when is_stream(toks)
{
    let f = g_factor(toks);
    match f.result {
        Err(fault) => Parsed { used: f.used, result: Err(fault) },
        Ok(lhs) => {
            proof {
                lemma_rest_is_stream(toks, f.used);
                lemma_rest_is_stream(rest(toks, f.used), 1);
            }
            let after = rest(toks, f.used);
            if g_peek(after, seq![TokenType::Mul, TokenType::Div]) {
                let r = g_term(rest(after, 1));
                match r.result {
                    Err(fault) => Parsed { used: f.used + 1 + r.used, result: Err(fault) },
                    Ok(rhs) => Parsed {
                        used: f.used + 1 + r.used,
                        result: Ok(
                            ExprModel::Binary {
                                left: Box::new(lhs),
                                operator: operator_of(after[0]),
                                right: Box::new(rhs),
                                pos: after[0].pos.merged(rhs.span()),
                            },
                        ),
                    },
                }
            } else {
                Parsed { used: f.used, result: Ok(lhs) }
            }
        },
    }
}

/// An expression: a term, or a term, `+` or `-`, and an expression.
pub open spec fn g_expression(toks: Seq<TokenModel>) -> Parsed<ExprModel>
    decreases toks.len(), 3int,
    when is_stream(toks)
{
    let t = g_term(toks);
    match t.result {
        Err(fault) => Parsed { used: t.used, result: Err(fault) },
        Ok(lhs) => {
            proof {
                lemma_rest_is_stream(toks, t.used);
                lemma_rest_is_stream(rest(toks, t.used), 1);
            }
            let after = rest(toks, t.used);
            if g_peek(after, seq![TokenType::Plus, TokenType::Minus]) {
                let r = g_expression(rest(after, 1));
                match r.result {
                    Err(fault) => Parsed { used: t.used + 1 + r.used, result: Err(fault) },
                    Ok(rhs) => Parsed {
                        used: t.used + 1 + r.used,
                        result: Ok(
                            ExprModel::Binary {
                                left: Box::new(lhs),
                                operator: operator_of(after[0]),
                                right: Box::new(rhs),
                                pos: after[0].pos.merged(rhs.span()),
                            },
                        ),
                    },
                }
            } else {
                Parsed { used: t.used, result: Ok(lhs) }
            }
        },
    }
}

/// A factor that is read takes at least one token, and not the last of the
/// stream.
pub proof fn lemma_factor_uses(toks: Seq<TokenModel>)
    requires
        is_stream(toks),
        g_factor(toks).result is Ok,
    ensures
        g_factor(toks).used >= 1,
        toks.len() >= 2,
{
    lemma_rest_is_stream(toks, 1);
}

/// A term that is read takes at least one token, and not the last of the
/// stream.
pub proof fn lemma_term_uses(toks: Seq<TokenModel>)
    requires
        is_stream(toks),
        g_term(toks).result is Ok,
    ensures
        g_term(toks).used >= 1,
        toks.len() >= 2,
{
    lemma_factor_uses(toks);
}

/// An expression that is read takes at least one token, and not the last of
/// the stream.
pub proof fn lemma_expression_uses(toks: Seq<TokenModel>)
    requires
        is_stream(toks),
        g_expression(toks).result is Ok,
    ensures
        g_expression(toks).used >= 1,
        toks.len() >= 2,
{
    lemma_term_uses(toks);
}

/// What follows `let`: a type, a name, and `;` or an initializer and `;`.
pub open spec fn g_let(toks: Seq<TokenModel>) -> Parsed<LetModel> {
    match g_next(toks, seq![TokenType::Type]).result {
        Err(f) => Parsed { used: 0, result: Err(f) },
        Ok(ty) => match g_next(rest(toks, 1), seq![TokenType::Identifier]).result {
            Err(f) => Parsed { used: 1, result: Err(f) },
            Ok(name) => {
                let after = rest(toks, 2);
                if g_peek(after, seq![TokenType::Semicolon]) {
                    Parsed {
                        used: 3,
                        result: Ok(
                            LetModel {
                                type_: type_of(ty),
                                name: name.lexeme,
                                assignee: None,
                                pos: ty.pos.merged(name.pos),
                            },
                        ),
                    }
                } else if g_peek(after, seq![TokenType::Assign]) {
                    let a = g_assign(after, None);
                    match a.result {
                        Err(f) => Parsed { used: 2 + a.used, result: Err(f) },
                        Ok(x) => match g_next(
                            rest(toks, 2 + a.used),
                            seq![TokenType::Semicolon],
                        ).result {
                            Err(f) => Parsed { used: 2 + a.used, result: Err(f) },
                            Ok(_) => Parsed {
                                used: 2 + a.used + 1,
                                result: Ok(
                                    LetModel {
                                        type_: type_of(ty),
                                        name: name.lexeme,
                                        assignee: Some(x),
                                        pos: ty.pos.merged(name.pos).merged(x.pos),
                                    },
                                ),
                            },
                        },
                    }
                } else {
                    Parsed {
                        used: 2,
                        result: Err(
                            fault_at(after, seq![TokenType::Semicolon, TokenType::Assign]),
                        ),
                    }
                }
            },
        },
    }
}

/// A statement: an expression and `;`, `return`, an expression and `;`, or
/// `let` and what follows it.
pub open spec fn g_statement(toks: Seq<TokenModel>) -> Parsed<StmtModel> {
    if g_peek(toks, seq![TokenType::Integer, TokenType::Float, TokenType::Identifier]) {
        let e = g_expression(toks);
        match e.result {
            Err(f) => Parsed { used: e.used, result: Err(f) },
            Ok(x) => match g_next(rest(toks, e.used), seq![TokenType::Semicolon]).result {
                Err(f) => Parsed { used: e.used, result: Err(f) },
                Ok(_) => Parsed { used: e.used + 1, result: Ok(StmtModel::Expression(x)) },
            },
        }
    } else {
        match g_next(toks, seq![TokenType::Return, TokenType::Let]).result {
            Err(f) => Parsed { used: 0, result: Err(f) },
            Ok(t) => if t.token_type == TokenType::Return {
                let e = g_expression(rest(toks, 1));
                match e.result {
                    Err(f) => Parsed { used: 1 + e.used, result: Err(f) },
                    Ok(x) => match g_next(
                        rest(toks, 1 + e.used),
                        seq![TokenType::Semicolon],
                    ).result {
                        Err(f) => Parsed { used: 1 + e.used, result: Err(f) },
                        Ok(_) => Parsed {
                            used: 1 + e.used + 1,
                            result: Ok(
                                StmtModel::Return {
                                    value: x,
                                    type_: ValType::Untyped,
                                    pos: t.pos.merged(x.span()),
                                },
                            ),
                        },
                    },
                }
            } else {
                let l = g_let(rest(toks, 1));
                Parsed {
                    used: 1 + l.used,
                    result: match l.result {
                        Ok(x) => Ok(StmtModel::Let(x)),
                        Err(f) => Err(f),
                    },
                }
            },
        }
    }
}

/// A statement that is read takes at least one token, and not the last of the
/// stream.
pub proof fn lemma_statement_uses(toks: Seq<TokenModel>)
    requires
        is_stream(toks),
        g_statement(toks).result is Ok,
    ensures
        g_statement(toks).used >= 1,
        toks.len() >= 2,
{
    lemma_rest_is_stream(toks, 1);
    if g_peek(toks, seq![TokenType::Integer, TokenType::Float, TokenType::Identifier]) {
        lemma_expression_uses(toks);
    }
}

/// The span of a block: that of its statements together, or the empty span
/// where it has none.
pub open spec fn block_span(pos: Option<Position>) -> Position {
    match pos {
        Some(p) => p,
        None => Position { line: 0, column: 0, range: Range { start: 0, end: 0 } },
    }
}

/// The span of the statements of a block with one more statement.
pub open spec fn grown_span(pos: Option<Position>, s: StmtModel) -> Option<Position> {
    match pos {
        Some(p) => Some(p.merged(s.span())),
        None => Some(s.span()),
    }
}

/// The statements of a body behind those already read, up to the `}` that
/// closes it. Behind a fault the reading goes on behind the next `;`; where
/// none comes before the `}` or the end of the text, it ends. `done`, `pos`
/// and `faults` are what was read and found before.
pub open spec fn g_body(
    toks: Seq<TokenModel>,
    done: Seq<StmtModel>,
    pos: Option<Position>,
    faults: Seq<Fault>,
) -> ParsedAll<BlockModel>
    decreases toks.len(),
    when is_stream(toks)
{
    if g_peek(toks, seq![TokenType::Brace(false)]) {
        ParsedAll {
            used: 0,
            result: if faults.len() == 0 {
                Ok(BlockModel { stmts: done, pos: block_span(pos) })
            } else {
                Err(faults)
            },
        }
    } else {
        let s = g_statement(toks);
        match s.result {
            Ok(st) => {
                proof {
                    lemma_statement_uses(toks);
                    lemma_rest_is_stream(toks, s.used);
                }
                let more = g_body(rest(toks, s.used), done.push(st), grown_span(pos, st), faults);
                ParsedAll { used: s.used + more.used, result: more.result }
            },
            Err(f) => {
                let after = rest(toks, s.used);
                let skipped = g_sync(after, seq![TokenType::Semicolon, TokenType::Brace(false)]);
                let at = rest(after, skipped);
                proof {
                    lemma_rest_is_stream(toks, s.used);
                    lemma_rest_is_stream(after, skipped);
                    lemma_rest_is_stream(at, 1);
                }
                if g_peek(at, seq![TokenType::Semicolon]) {
                    let more = g_body(rest(at, 1), done, pos, faults.push(f));
                    ParsedAll { used: s.used + skipped + 1 + more.used, result: more.result }
                } else {
                    ParsedAll { used: s.used + skipped, result: Err(faults.push(f)) }
                }
            },
        }
    }
}

/// A parameter: a type and a name.
pub open spec fn g_param(toks: Seq<TokenModel>) -> Parsed<ParamModel> {
    match g_next(toks, seq![TokenType::Type]).result {
        Err(f) => Parsed { used: 0, result: Err(f) },
        Ok(ty) => match g_next(rest(toks, 1), seq![TokenType::Identifier]).result {
            Err(f) => Parsed { used: 1, result: Err(f) },
            Ok(name) => Parsed {
                used: 2,
                result: Ok(
                    ParamModel {
                        name: name.lexeme,
                        pos: ty.pos.merged(name.pos),
                        type_: type_of(ty),
                    },
                ),
            },
        },
    }
}

/// The parameters behind those already read, `done`, up to the `)`. A comma
/// may stand behind a parameter.
pub open spec fn g_params(toks: Seq<TokenModel>, done: Seq<ParamModel>) -> Parsed<Seq<ParamModel>>
    decreases toks.len(),
    when is_stream(toks)
{
    if g_peek(toks, seq![TokenType::Paren(false)]) {
        Parsed { used: 0, result: Ok(done) }
    } else {
        let p = g_param(toks);
        match p.result {
            Err(f) => Parsed { used: p.used, result: Err(f) },
            Ok(x) => {
                proof {
                    lemma_rest_is_stream(toks, 2);
                    lemma_rest_is_stream(rest(toks, 2), 1);
                }
                let after = rest(toks, 2);
                let comma: nat = if g_peek(after, seq![TokenType::Comma]) {
                    1
                } else {
                    0
                };
                let more = g_params(rest(after, comma), done.push(x));
                Parsed { used: 2 + comma + more.used, result: more.result }
            },
        }
    }
}

/// What follows `func`: a return type, a name, the parameters in parentheses,
/// and the body in braces.
pub open spec fn g_function(toks: Seq<TokenModel>) -> ParsedAll<FunctionModel> {
    match g_next(toks, seq![TokenType::Type]).result {
        Err(f) => ParsedAll { used: 0, result: Err(seq![f]) },
        Ok(ty) => match g_next(rest(toks, 1), seq![TokenType::Identifier]).result {
            Err(f) => ParsedAll { used: 1, result: Err(seq![f]) },
            Ok(name) => match g_next(rest(toks, 2), seq![TokenType::Paren(true)]).result {
                Err(f) => ParsedAll { used: 2, result: Err(seq![f]) },
                Ok(_) => {
                    let params = g_params(rest(toks, 3), Seq::empty());
                    let n = 3 + params.used;
                    match params.result {
                        Err(f) => ParsedAll { used: n, result: Err(seq![f]) },
                        Ok(list) => match g_next(rest(toks, n), seq![TokenType::Paren(false)]).result {
                            Err(f) => ParsedAll { used: n, result: Err(seq![f]) },
                            Ok(_) => match g_next(
                                rest(toks, n + 1),
                                seq![TokenType::Brace(true)],
                            ).result {
                                Err(f) => ParsedAll { used: n + 1, result: Err(seq![f]) },
                                Ok(_) => {
                                    let body = g_body(
                                        rest(toks, n + 2),
                                        Seq::empty(),
                                        None,
                                        Seq::empty(),
                                    );
                                    let m = n + 2 + body.used;
                                    match body.result {
                                        Err(faults) => ParsedAll { used: m, result: Err(faults) },
                                        Ok(block) => match g_next(
                                            rest(toks, m),
                                            seq![TokenType::Brace(false)],
                                        ).result {
                                            Err(f) => ParsedAll { used: m, result: Err(seq![f]) },
                                            Ok(_) => ParsedAll {
                                                used: m + 1,
                                                result: Ok(
                                                    FunctionModel {
                                                        name: name.lexeme,
                                                        pos: ty.pos.merged(name.pos),
                                                        ret_type: type_of(ty),
                                                        params: list,
                                                        body: block,
                                                    },
                                                ),
                                            },
                                        },
                                    }
                                },
                            },
                        },
                    }
                },
            },
        },
    }
}

/// What reading a whole text comes to: the functions read and the faults
/// found, behind those that were there.
pub struct Program {
    pub functions: Seq<FunctionModel>,
    pub faults: Seq<Fault>,
}

/// The functions of a text up to its end: each is `func` and what follows it.
/// A function without fault joins the functions; behind a fault the reading
/// goes on at the next `func`.
pub open spec fn g_program(toks: Seq<TokenModel>, so_far: Program) -> Program
    decreases toks.len(),
    when is_stream(toks)
{
    match g_next(toks, seq![TokenType::Func, TokenType::Eof]).result {
        Err(f) => {
            let skipped = g_sync(toks, seq![TokenType::Func, TokenType::Eof]);
            proof {
                lemma_rest_is_stream(toks, skipped);
                assert(seq![TokenType::Func, TokenType::Eof][1] == TokenType::Eof);
            }
            g_program(
                rest(toks, skipped),
                Program { functions: so_far.functions, faults: so_far.faults.push(f) },
            )
        },
        Ok(t) => if t.token_type == TokenType::Func {
            let fun = g_function(rest(toks, 1));
            let after = rest(toks, 1 + fun.used);
            proof {
                lemma_rest_is_stream(toks, 1 + fun.used);
            }
            match fun.result {
                Ok(f) => g_program(
                    after,
                    Program { functions: so_far.functions.push(f), faults: so_far.faults },
                ),
                Err(faults) => {
                    let skipped = g_sync(after, seq![TokenType::Func, TokenType::Eof]);
                    proof {
                        lemma_rest_is_stream(after, skipped);
                    }
                    g_program(
                        rest(after, skipped),
                        Program { functions: so_far.functions, faults: so_far.faults + faults },
                    )
                },
            }
        } else {
            so_far
        },
    }
}

} // verus!
