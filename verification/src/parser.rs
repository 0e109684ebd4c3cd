//! The Pratt parser: one-token lookahead over the lexer's token stream,
//! prefix and infix handlers dispatched on token kind, and precedence
//! climbing for infix expressions.
//!
//! The parser is fail-soft: it always produces a [`Program`] and never
//! panics. A failed expectation records a message and abandons only the
//! node being parsed; the statement loop then continues at the next
//! token. Callers must inspect [`Parser::errors`] before evaluating.
//!
//! The parser's behaviour is pinned to a functional parser over the token
//! stream: `Parser::new` is proved to hold exactly [`spec_tokens`] of the
//! source, and every parsing function is proved to return exactly the
//! node, the new position and the error list that the corresponding
//! grammar function (`sp_parse_program` and friends) assigns to its
//! starting position — including which failures occur and the exact
//! message each one records.

use vstd::prelude::*;

use crate::ast::{
    opt_block_view, opt_expr_view, opt_stmt_view, BlockStatement, BlockV, Boolean, CallExpression, Expression, ExpressionStatement, ExprV,
    FunctionLiteral, Identifier, IfExpression, InfixExpression, IntegerLiteral, LetStatement,
    PrefixExpression, Program, ReturnStatement, Statement, StmtV, StringLiteral,
};
use crate::lexer::{lemma_next_token_progress, spec_next_token, Lexer};
use crate::strutil::{append_str, parse_i64_digits, spec_all_digits, spec_digits_val};
use crate::token::{spec_token_type_name, token_type_name, Token, TokenType, TokenV};

verus! {

pub const PREC_LOWEST: u8 = 1;

pub const PREC_EQUALS: u8 = 2;

pub const PREC_LESSGREATER: u8 = 3;

pub const PREC_SUM: u8 = 4;

pub const PREC_PRODUCT: u8 = 5;

pub const PREC_PREFIX: u8 = 6;

pub const PREC_CALL: u8 = 7;

/// The binding power of a token kind when it appears in infix position.
pub open spec fn spec_precedence(t: TokenType) -> u8 {
    match t {
        TokenType::EQ => PREC_EQUALS,
        TokenType::NOT_EQ => PREC_EQUALS,
        TokenType::LT => PREC_LESSGREATER,
        TokenType::RT => PREC_LESSGREATER,
        TokenType::PLUS => PREC_SUM,
        TokenType::MINUS => PREC_SUM,
        TokenType::SLASH => PREC_PRODUCT,
        TokenType::ASTERISK => PREC_PRODUCT,
        TokenType::MODULO => PREC_PRODUCT,
        TokenType::LPAREN => PREC_CALL,
        _ => PREC_LOWEST,
    }
}

/// The whole token stream of a source text: the tokens from `pos` up to
/// and including the first EOF token.
pub open spec fn spec_tokens(input: Seq<char>, pos: int) -> Seq<TokenV>
    decreases input.len() - pos,
        when 0 <= pos <= input.len()
        via spec_tokens_decreases
{
    let (t, p2) = spec_next_token(input, pos);
    if t.token_type == TokenType::EOF {
        seq![t]
    } else {
        seq![t] + spec_tokens(input, p2)
    }
}

#[via_fn]
proof fn spec_tokens_decreases(input: Seq<char>, pos: int) {
    lemma_next_token_progress(input, pos);
}

/// The message recorded when the next token is not the expected one.
pub open spec fn expected_msg(expected: TokenType, got: TokenType) -> Seq<char> {
    "expected next token to be "@ + spec_token_type_name(expected) + ", got "@
        + spec_token_type_name(got) + " instead"@
}

/// The message recorded when no prefix handler exists for a token kind.
pub open spec fn no_prefix_msg(t: TokenType) -> Seq<char> {
    "no prefix parse function for "@ + spec_token_type_name(t) + " found"@
}

/// The message recorded when an integer literal does not fit.
pub open spec fn int_parse_msg(lit: Seq<char>) -> Seq<char> {
    "could not parse "@ + lit + " as integer"@
}

/// Errors only ever grow: `b` extends `a`.
pub open spec fn errs_extend(a: Seq<Seq<char>>, b: Seq<Seq<char>>) -> bool {
    a.len() <= b.len() && forall|i: int| 0 <= i < a.len() ==> a[i] == b[i]
}

// ----------------------------------------------------------------------
// The grammar: a functional parser over the token stream
// ----------------------------------------------------------------------
//
// Each function below takes the token stream, the index of the current
// token and the error messages so far, and returns the parsed node, the
// new index and the new messages, mirroring one parsing step of the
// grammar. The executable parser is proved to return exactly these
// values. The definitions are total: branches guarded by `sp_at_least`
// or an explicit index test exist only to keep the recursion well
// founded, and are never taken on a stream that satisfies `Parser::wf`
// (one trailing EOF token, position in range).

/// The index the peek token is read from: one past the current token,
/// saturating at the trailing EOF token.
pub open spec fn sp_peek_at(toks: Seq<TokenV>, pos: int) -> int {
    if pos + 1 < toks.len() {
        pos + 1
    } else {
        toks.len() - 1
    }
}

/// The kind of the current token.
pub open spec fn sp_cur_tt(toks: Seq<TokenV>, pos: int) -> TokenType {
    toks[pos].token_type
}

/// The kind of the peek token.
pub open spec fn sp_peek_tt(toks: Seq<TokenV>, pos: int) -> TokenType {
    toks[sp_peek_at(toks, pos)].token_type
}

/// The index after stepping over the current token; at the trailing EOF
/// token the position stays put.
pub open spec fn sp_next_at(toks: Seq<TokenV>, pos: int) -> int {
    if pos + 1 < toks.len() {
        pos + 1
    } else {
        pos
    }
}

/// The larger of two indices.
pub open spec fn sp_at_least(p: int, q: int) -> int {
    if p >= q {
        p
    } else {
        q
    }
}

/// The tokens left from `pos` on, never negative.
pub open spec fn sp_remaining(toks: Seq<TokenV>, pos: int) -> int {
    if toks.len() - pos >= 0 {
        toks.len() - pos
    } else {
        0
    }
}

/// One expectation step: advances over the peek token when it has the
/// expected kind, else records the exact mismatch message and stays put.
pub open spec fn sp_expect(toks: Seq<TokenV>, pos: int, errs: Seq<Seq<char>>, t: TokenType) -> (
    bool,
    int,
    Seq<Seq<char>>,
) {
    if sp_peek_tt(toks, pos) == t {
        (true, sp_next_at(toks, pos), errs)
    } else {
        (false, pos, errs.push(expected_msg(t, sp_peek_tt(toks, pos))))
    }
}

/// The identifier node made from the token at `pos`.
pub open spec fn sp_ident_at(toks: Seq<TokenV>, pos: int) -> crate::ast::IdentifierV {
    crate::ast::IdentifierV { token: toks[pos], value: toks[pos].literal }
}

/// The token kinds that have an infix handler other than call.
pub open spec fn sp_is_binary_op(t: TokenType) -> bool {
    t == TokenType::PLUS || t == TokenType::MINUS || t == TokenType::SLASH || t
        == TokenType::ASTERISK || t == TokenType::LT || t == TokenType::RT || t == TokenType::EQ
        || t == TokenType::NOT_EQ || t == TokenType::MODULO
}

/// The token kinds that have a prefix handler.
pub open spec fn sp_has_prefix_handler(t: TokenType) -> bool {
    t == TokenType::IDENT || t == TokenType::INT || t == TokenType::STRING || t == TokenType::TRUE
        || t == TokenType::FALSE || t == TokenType::BANG || t == TokenType::MINUS || t
        == TokenType::LPAREN || t == TokenType::IF || t == TokenType::FUNCTION
}

/// Statements until the EOF token, collecting those that parsed.
pub open spec fn sp_parse_prog_stmts(
    toks: Seq<TokenV>,
    pos: int,
    errs: Seq<Seq<char>>,
    acc: Seq<StmtV>,
) -> (Seq<StmtV>, int, Seq<Seq<char>>)
    decreases sp_remaining(toks, pos), 11int,
{
    if 0 <= pos < toks.len() && sp_cur_tt(toks, pos) != TokenType::EOF {
        let (s, p1, e1) = sp_parse_statement(toks, pos, errs);
        let acc1 = match s {
            Option::Some(sv) => acc.push(sv),
            Option::None => acc,
        };
        let p2 = sp_at_least(p1, pos);
        let p3 = if sp_cur_tt(toks, p2) != TokenType::EOF {
            sp_next_at(toks, p2)
        } else {
            p2
        };
        sp_parse_prog_stmts(toks, sp_at_least(p3, pos + 1), e1, acc1)
    } else {
        (acc, pos, errs)
    }
}

/// The whole program: every statement of the stream, with every error.
pub open spec fn sp_parse_program(toks: Seq<TokenV>, pos: int, errs: Seq<Seq<char>>) -> (
    crate::ast::ProgramV,
    int,
    Seq<Seq<char>>,
) {
    let (stmts, p1, e1) = sp_parse_prog_stmts(toks, pos, errs, Seq::empty());
    (crate::ast::ProgramV { statements: stmts }, p1, e1)
}

/// Statement dispatch on the current token kind.
pub open spec fn sp_parse_statement(toks: Seq<TokenV>, pos: int, errs: Seq<Seq<char>>) -> (
    Option<StmtV>,
    int,
    Seq<Seq<char>>,
)
    decreases sp_remaining(toks, pos), 10int,
{
    if sp_cur_tt(toks, pos) == TokenType::LET {
        sp_parse_let_statement(toks, pos, errs)
    } else if sp_cur_tt(toks, pos) == TokenType::RETURN {
        sp_parse_return_statement(toks, pos, errs)
    } else if sp_cur_tt(toks, pos) == TokenType::LBRACE {
        let (b, p1, e1) = sp_parse_block_statement(toks, pos, errs);
        (
            match b {
                Option::Some(bv) => Option::Some(StmtV::Block(bv)),
                Option::None => Option::None,
            },
            p1,
            e1,
        )
    } else {
        sp_parse_expression_statement(toks, pos, errs)
    }
}

/// An expression in statement position; a trailing semicolon is consumed.
pub open spec fn sp_parse_expression_statement(
    toks: Seq<TokenV>,
    pos: int,
    errs: Seq<Seq<char>>,
) -> (Option<StmtV>, int, Seq<Seq<char>>)
    decreases sp_remaining(toks, pos), 9int,
{
    let token = toks[pos];
    let (e, p1, e1) = sp_parse_expression(toks, pos, errs, PREC_LOWEST);
    let p2 = sp_at_least(p1, pos);
    let p3 = if sp_peek_tt(toks, p2) == TokenType::SEMICOLON {
        sp_next_at(toks, p2)
    } else {
        p2
    };
    (Option::Some(StmtV::Expr { token, expression: e }), p3, e1)
}

/// `let IDENT = expression ;?` — a failed expectation records its message
/// and abandons the statement.
pub open spec fn sp_parse_let_statement(toks: Seq<TokenV>, pos: int, errs: Seq<Seq<char>>) -> (
    Option<StmtV>,
    int,
    Seq<Seq<char>>,
)
    decreases sp_remaining(toks, pos), 9int,
{
    let token = toks[pos];
    let (ok1, p1, e1) = sp_expect(toks, pos, errs, TokenType::IDENT);
    if !ok1 {
        (Option::None, p1, e1)
    } else {
        let name = sp_ident_at(toks, p1);
        let (ok2, p2, e2) = sp_expect(toks, p1, e1, TokenType::ASSIGN);
        if !ok2 {
            (Option::None, p2, e2)
        } else {
            let p3 = sp_next_at(toks, p2);
            let (v, p4, e4) = sp_parse_expression(toks, p3, e2, PREC_LOWEST);
            let p5 = sp_at_least(p4, p3);
            let p6 = if sp_peek_tt(toks, p5) == TokenType::SEMICOLON {
                sp_next_at(toks, p5)
            } else {
                p5
            };
            (Option::Some(StmtV::Let { token, name, value: v }), p6, e4)
        }
    }
}

/// `return expression ;?`.
pub open spec fn sp_parse_return_statement(toks: Seq<TokenV>, pos: int, errs: Seq<Seq<char>>) -> (
    Option<StmtV>,
    int,
    Seq<Seq<char>>,
)
    decreases sp_remaining(toks, pos), 9int,
{
    let token = toks[pos];
    let p1 = sp_next_at(toks, pos);
    let (v, p2, e2) = sp_parse_expression(toks, p1, errs, PREC_LOWEST);
    let p3 = sp_at_least(p2, p1);
    let p4 = if sp_peek_tt(toks, p3) == TokenType::SEMICOLON {
        sp_next_at(toks, p3)
    } else {
        p3
    };
    (Option::Some(StmtV::Ret { token, value: v }), p4, e2)
}

/// `{ statement* }` — statements until the closing brace or the end of
/// the stream.
pub open spec fn sp_parse_block_statement(toks: Seq<TokenV>, pos: int, errs: Seq<Seq<char>>) -> (
    Option<BlockV>,
    int,
    Seq<Seq<char>>,
)
    decreases sp_remaining(toks, pos), 9int,
{
    let token = toks[pos];
    if pos + 1 < toks.len() {
        let (stmts, p1, e1) = sp_parse_block_stmts(toks, pos + 1, errs, Seq::empty());
        (Option::Some(BlockV { token, statements: stmts }), p1, e1)
    } else {
        (Option::Some(BlockV { token, statements: Seq::empty() }), pos, errs)
    }
}

/// The statements of a block, until `}` or EOF.
pub open spec fn sp_parse_block_stmts(
    toks: Seq<TokenV>,
    pos: int,
    errs: Seq<Seq<char>>,
    acc: Seq<StmtV>,
) -> (Seq<StmtV>, int, Seq<Seq<char>>)
    decreases sp_remaining(toks, pos), 11int,
{
    if 0 <= pos < toks.len() && sp_cur_tt(toks, pos) != TokenType::RBRACE && sp_cur_tt(toks, pos)
        != TokenType::EOF {
        let (s, p1, e1) = sp_parse_statement(toks, pos, errs);
        let acc1 = match s {
            Option::Some(sv) => acc.push(sv),
            Option::None => acc,
        };
        let p2 = sp_at_least(p1, pos);
        let p3 = if sp_cur_tt(toks, p2) != TokenType::EOF {
            sp_next_at(toks, p2)
        } else {
            p2
        };
        sp_parse_block_stmts(toks, sp_at_least(p3, pos + 1), e1, acc1)
    } else {
        (acc, pos, errs)
    }
}

/// The Pratt core: a prefix form, then infix folding while the peek token
/// binds tighter than `precedence`. A kind without a prefix handler
/// records the exact no-prefix message and yields nothing.
pub open spec fn sp_parse_expression(
    toks: Seq<TokenV>,
    pos: int,
    errs: Seq<Seq<char>>,
    precedence: u8,
) -> (Option<ExprV>, int, Seq<Seq<char>>)
    decreases sp_remaining(toks, pos), 5int,
{
    let ct = sp_cur_tt(toks, pos);
    let (left, p1, e1) = if ct == TokenType::IDENT {
        sp_parse_identifier(toks, pos, errs)
    } else if ct == TokenType::INT {
        sp_parse_integer_literal(toks, pos, errs)
    } else if ct == TokenType::STRING {
        sp_parse_string_literal(toks, pos, errs)
    } else if ct == TokenType::TRUE || ct == TokenType::FALSE {
        sp_parse_boolean(toks, pos, errs)
    } else if ct == TokenType::BANG || ct == TokenType::MINUS {
        sp_parse_prefix_expression(toks, pos, errs)
    } else if ct == TokenType::LPAREN {
        sp_parse_grouped_expression(toks, pos, errs)
    } else if ct == TokenType::IF {
        sp_parse_if_expression(toks, pos, errs)
    } else if ct == TokenType::FUNCTION {
        sp_parse_function_literal(toks, pos, errs)
    } else {
        (Option::None, pos, errs.push(no_prefix_msg(ct)))
    };
    match left {
        Option::None => (Option::None, p1, e1),
        Option::Some(l) => sp_parse_infix_loop(toks, sp_at_least(p1, pos), e1, l, precedence),
    }
}

/// Folds infix operators into `left` while the peek token binds tighter
/// than `precedence` and is not a semicolon.
pub open spec fn sp_parse_infix_loop(
    toks: Seq<TokenV>,
    pos: int,
    errs: Seq<Seq<char>>,
    left: ExprV,
    precedence: u8,
) -> (Option<ExprV>, int, Seq<Seq<char>>)
    decreases sp_remaining(toks, pos), 3int,
{
    let pt = sp_peek_tt(toks, pos);
    if pt == TokenType::SEMICOLON || precedence >= spec_precedence(pt) || !(pos + 1 < toks.len()) {
        (Option::Some(left), pos, errs)
    } else if sp_is_binary_op(pt) {
        let (e, p1, e1) = sp_parse_infix_expression(toks, pos + 1, errs, left);
        match e {
            Option::None => (Option::None, p1, e1),
            Option::Some(l2) => sp_parse_infix_loop(
                toks,
                sp_at_least(p1, pos + 1),
                e1,
                l2,
                precedence,
            ),
        }
    } else if pt == TokenType::LPAREN {
        let (e, p1, e1) = sp_parse_call_expression(toks, pos + 1, errs, left);
        match e {
            Option::None => (Option::None, p1, e1),
            Option::Some(l2) => sp_parse_infix_loop(
                toks,
                sp_at_least(p1, pos + 1),
                e1,
                l2,
                precedence,
            ),
        }
    } else {
        (Option::Some(left), pos, errs)
    }
}

/// The current identifier token as an expression.
pub open spec fn sp_parse_identifier(toks: Seq<TokenV>, pos: int, errs: Seq<Seq<char>>) -> (
    Option<ExprV>,
    int,
    Seq<Seq<char>>,
)
    decreases sp_remaining(toks, pos), 4int,
{
    (Option::Some(ExprV::Ident(sp_ident_at(toks, pos))), pos, errs)
}

/// The current INT token: its digit run's value when it fits an `i64`,
/// else nothing and the exact could-not-parse message.
pub open spec fn sp_parse_integer_literal(toks: Seq<TokenV>, pos: int, errs: Seq<Seq<char>>) -> (
    Option<ExprV>,
    int,
    Seq<Seq<char>>,
)
    decreases sp_remaining(toks, pos), 4int,
{
    let lit = toks[pos].literal;
    if lit.len() > 0 && crate::strutil::spec_all_digits(lit) && crate::strutil::spec_digits_val(lit)
        <= i64::MAX as int {
        (
            Option::Some(
                ExprV::IntLit {
                    token: toks[pos],
                    value: crate::strutil::spec_digits_val(lit) as i64,
                },
            ),
            pos,
            errs,
        )
    } else {
        (Option::None, pos, errs.push(int_parse_msg(lit)))
    }
}

/// The current STRING token as a string literal.
pub open spec fn sp_parse_string_literal(toks: Seq<TokenV>, pos: int, errs: Seq<Seq<char>>) -> (
    Option<ExprV>,
    int,
    Seq<Seq<char>>,
)
    decreases sp_remaining(toks, pos), 4int,
{
    (
        Option::Some(ExprV::StrLit { token: toks[pos], value: toks[pos].literal }),
        pos,
        errs,
    )
}

/// The current TRUE or FALSE token as a boolean literal.
pub open spec fn sp_parse_boolean(toks: Seq<TokenV>, pos: int, errs: Seq<Seq<char>>) -> (
    Option<ExprV>,
    int,
    Seq<Seq<char>>,
)
    decreases sp_remaining(toks, pos), 4int,
{
    (
        Option::Some(
            ExprV::BoolLit { token: toks[pos], value: sp_cur_tt(toks, pos) == TokenType::TRUE },
        ),
        pos,
        errs,
    )
}

/// `!` or `-` applied to the expression after it, parsed at prefix
/// binding power.
pub open spec fn sp_parse_prefix_expression(toks: Seq<TokenV>, pos: int, errs: Seq<Seq<char>>) -> (
    Option<ExprV>,
    int,
    Seq<Seq<char>>,
)
    decreases sp_remaining(toks, pos), 4int,
{
    let token = toks[pos];
    if pos + 1 < toks.len() {
        let (r, p1, e1) = sp_parse_expression(toks, pos + 1, errs, PREC_PREFIX);
        match r {
            Option::Some(right) => (
                Option::Some(
                    ExprV::Prefix {
                        token,
                        operator: token.literal,
                        right: Box::new(right),
                    },
                ),
                p1,
                e1,
            ),
            Option::None => (Option::None, p1, e1),
        }
    } else {
        (Option::None, pos, errs)
    }
}

/// A binary operator applied to `left` and the expression after it,
/// parsed at the operator's own binding power (left association).
pub open spec fn sp_parse_infix_expression(
    toks: Seq<TokenV>,
    pos: int,
    errs: Seq<Seq<char>>,
    left: ExprV,
) -> (Option<ExprV>, int, Seq<Seq<char>>)
    decreases sp_remaining(toks, pos), 4int,
{
    let token = toks[pos];
    if pos + 1 < toks.len() {
        let (r, p1, e1) = sp_parse_expression(
            toks,
            pos + 1,
            errs,
            spec_precedence(token.token_type),
        );
        match r {
            Option::Some(right) => (
                Option::Some(
                    ExprV::Infix {
                        token,
                        left: Box::new(left),
                        operator: token.literal,
                        right: Box::new(right),
                    },
                ),
                p1,
                e1,
            ),
            Option::None => (Option::None, p1, e1),
        }
    } else {
        (Option::None, pos, errs)
    }
}

/// `( expression )`.
pub open spec fn sp_parse_grouped_expression(toks: Seq<TokenV>, pos: int, errs: Seq<Seq<char>>) -> (
    Option<ExprV>,
    int,
    Seq<Seq<char>>,
)
    decreases sp_remaining(toks, pos), 4int,
{
    if pos + 1 < toks.len() {
        let (e, p1, e1) = sp_parse_expression(toks, pos + 1, errs, PREC_LOWEST);
        let (ok, p2, e2) = sp_expect(toks, sp_at_least(p1, pos + 1), e1, TokenType::RPAREN);
        if ok {
            (e, p2, e2)
        } else {
            (Option::None, p2, e2)
        }
    } else {
        (Option::None, pos, errs)
    }
}

/// `if ( condition ) { block } (else { block })?`.
pub open spec fn sp_parse_if_expression(toks: Seq<TokenV>, pos: int, errs: Seq<Seq<char>>) -> (
    Option<ExprV>,
    int,
    Seq<Seq<char>>,
)
    decreases sp_remaining(toks, pos), 4int,
{
    let token = toks[pos];
    let (ok1, p1, e1) = sp_expect(toks, pos, errs, TokenType::LPAREN);
    if !ok1 {
        (Option::None, p1, e1)
    } else {
        let p2 = sp_next_at(toks, p1);
        if p2 > pos {
            let (c, p3, e3) = sp_parse_expression(toks, p2, e1, PREC_LOWEST);
            match c {
                Option::None => (Option::None, p3, e3),
                Option::Some(cond) => {
                    let (ok2, p4, e4) = sp_expect(toks, sp_at_least(p3, p2), e3, TokenType::RPAREN);
                    if !ok2 {
                        (Option::None, p4, e4)
                    } else {
                        let (ok3, p5, e5) = sp_expect(toks, p4, e4, TokenType::LBRACE);
                        if !ok3 {
                            (Option::None, p5, e5)
                        } else {
                            let (b, p6, e6) = sp_parse_block_statement(toks, p5, e5);
                            match b {
                                Option::None => (Option::None, p6, e6),
                                Option::Some(cons) => {
                                    let p7 = sp_at_least(p6, p5);
                                    if sp_peek_tt(toks, p7) == TokenType::ELSE {
                                        let p8 = sp_next_at(toks, p7);
                                        let (ok4, p9, e9) = sp_expect(
                                            toks,
                                            p8,
                                            e6,
                                            TokenType::LBRACE,
                                        );
                                        if !ok4 {
                                            (Option::None, p9, e9)
                                        } else {
                                            let (a, p10, e10) = sp_parse_block_statement(
                                                toks,
                                                p9,
                                                e9,
                                            );
                                            match a {
                                                Option::None => (Option::None, p10, e10),
                                                Option::Some(alt) => (
                                                    Option::Some(
                                                        ExprV::If {
                                                            token,
                                                            condition: Box::new(cond),
                                                            consequence: cons,
                                                            alternative: Option::Some(alt),
                                                        },
                                                    ),
                                                    p10,
                                                    e10,
                                                ),
                                            }
                                        }
                                    } else {
                                        (
                                            Option::Some(
                                                ExprV::If {
                                                    token,
                                                    condition: Box::new(cond),
                                                    consequence: cons,
                                                    alternative: Option::None,
                                                },
                                            ),
                                            p7,
                                            e6,
                                        )
                                    }
                                },
                            }
                        }
                    }
                },
            }
        } else {
            (Option::None, p1, e1)
        }
    }
}

/// `fn ( parameters ) { block }`.
pub open spec fn sp_parse_function_literal(toks: Seq<TokenV>, pos: int, errs: Seq<Seq<char>>) -> (
    Option<ExprV>,
    int,
    Seq<Seq<char>>,
)
    decreases sp_remaining(toks, pos), 4int,
{
    let token = toks[pos];
    let (ok1, p1, e1) = sp_expect(toks, pos, errs, TokenType::LPAREN);
    if !ok1 {
        (Option::None, p1, e1)
    } else {
        let (params, p2, e2) = sp_parse_function_parameters(toks, p1, e1);
        let (ok2, p3, e3) = sp_expect(toks, sp_at_least(p2, p1), e2, TokenType::LBRACE);
        if !ok2 {
            (Option::None, p3, e3)
        } else if p3 > pos {
            let (b, p4, e4) = sp_parse_block_statement(toks, p3, e3);
            match b {
                Option::None => (Option::None, p4, e4),
                Option::Some(body) => (
                    Option::Some(ExprV::Func { token, parameters: params, body }),
                    p4,
                    e4,
                ),
            }
        } else {
            (Option::None, p3, e3)
        }
    }
}

/// The comma-separated parameter names between the parentheses; a missing
/// closing parenthesis records its message and yields no parameters.
pub open spec fn sp_parse_function_parameters(
    toks: Seq<TokenV>,
    pos: int,
    errs: Seq<Seq<char>>,
) -> (Seq<crate::ast::IdentifierV>, int, Seq<Seq<char>>)
    decreases sp_remaining(toks, pos), 3int,
{
    if sp_peek_tt(toks, pos) == TokenType::RPAREN {
        (Seq::empty(), sp_next_at(toks, pos), errs)
    } else {
        let p1 = sp_next_at(toks, pos);
        let (idents, p2) = sp_parse_params_rest(toks, p1, seq![sp_ident_at(toks, p1)]);
        let (ok, p3, e3) = sp_expect(toks, p2, errs, TokenType::RPAREN);
        if ok {
            (idents, p3, e3)
        } else {
            (Seq::empty(), p3, e3)
        }
    }
}

/// Parameters after the first: one more identifier for every comma.
pub open spec fn sp_parse_params_rest(
    toks: Seq<TokenV>,
    pos: int,
    acc: Seq<crate::ast::IdentifierV>,
) -> (Seq<crate::ast::IdentifierV>, int)
    decreases sp_remaining(toks, pos),
{
    if sp_peek_tt(toks, pos) == TokenType::COMMA && pos + 1 < toks.len() {
        let p1 = sp_next_at(toks, pos + 1);
        sp_parse_params_rest(toks, sp_at_least(p1, pos + 1), acc.push(sp_ident_at(toks, p1)))
    } else {
        (acc, pos)
    }
}

/// A call of `left` on the arguments between the parentheses.
pub open spec fn sp_parse_call_expression(
    toks: Seq<TokenV>,
    pos: int,
    errs: Seq<Seq<char>>,
    left: ExprV,
) -> (Option<ExprV>, int, Seq<Seq<char>>)
    decreases sp_remaining(toks, pos), 4int,
{
    let token = toks[pos];
    let (args, p1, e1) = sp_parse_call_arguments(toks, pos, errs);
    (
        Option::Some(
            ExprV::Call { token, function: Box::new(left), arguments: args },
        ),
        p1,
        e1,
    )
}

/// The comma-separated argument expressions of a call; a failed argument
/// or a missing closing parenthesis records its message and yields no
/// arguments.
pub open spec fn sp_parse_call_arguments(toks: Seq<TokenV>, pos: int, errs: Seq<Seq<char>>) -> (
    Seq<ExprV>,
    int,
    Seq<Seq<char>>,
)
    decreases sp_remaining(toks, pos), 3int,
{
    if sp_peek_tt(toks, pos) == TokenType::RPAREN {
        (Seq::empty(), sp_next_at(toks, pos), errs)
    } else if pos + 1 < toks.len() {
        let (a, p1, e1) = sp_parse_expression(toks, pos + 1, errs, PREC_LOWEST);
        match a {
            Option::None => (Seq::empty(), p1, e1),
            Option::Some(first) => {
                let (args, p2, e2) = sp_parse_args_rest(
                    toks,
                    sp_at_least(p1, pos + 1),
                    e1,
                    seq![first],
                );
                match args {
                    Option::None => (Seq::empty(), p2, e2),
                    Option::Some(items) => {
                        let (ok, p3, e3) = sp_expect(toks, p2, e2, TokenType::RPAREN);
                        if ok {
                            (items, p3, e3)
                        } else {
                            (Seq::empty(), p3, e3)
                        }
                    },
                }
            },
        }
    } else {
        (Seq::empty(), pos, errs)
    }
}

/// Arguments after the first: one more expression for every comma;
/// nothing if one of them fails to parse.
pub open spec fn sp_parse_args_rest(
    toks: Seq<TokenV>,
    pos: int,
    errs: Seq<Seq<char>>,
    acc: Seq<ExprV>,
) -> (Option<Seq<ExprV>>, int, Seq<Seq<char>>)
    decreases sp_remaining(toks, pos), 2int,
{
    if sp_peek_tt(toks, pos) == TokenType::COMMA && pos + 1 < toks.len() {
        let p1 = sp_next_at(toks, pos + 1);
        let (a, p2, e2) = sp_parse_expression(toks, p1, errs, PREC_LOWEST);
        match a {
            Option::None => (Option::None, p2, e2),
            Option::Some(item) => sp_parse_args_rest(
                toks,
                sp_at_least(p2, sp_at_least(p1, pos + 1)),
                e2,
                acc.push(item),
            ),
        }
    } else {
        (Option::Some(acc), pos, errs)
    }
}

/// The Pratt parser over a fixed token stream.
pub struct Parser {
    tokens: Vec<Token>,
    position: usize,
    errors: Vec<String>,
}

impl Parser {
    /// The views of the tokens being parsed.
    pub closed spec fn toks(&self) -> Seq<TokenV> {
        self.tokens@.map_values(|t: Token| t@)
    }

    /// The index of the current token.
    pub closed spec fn pos(&self) -> int {
        self.position as int
    }

    /// The views of the error messages recorded so far.
    pub closed spec fn errs(&self) -> Seq<Seq<char>> {
        self.errors@.map_values(|s: String| s@)
    }

    /// The index of the peek token: one past the current one, saturating
    /// at the trailing EOF token.
    pub open spec fn peek_idx(&self) -> int {
        if self.pos() + 1 < self.toks().len() {
            self.pos() + 1
        } else {
            self.toks().len() - 1
        }
    }

    /// The stream shape every method preserves: at least one token, the
    /// last and only the last is EOF, and the position is in range.
    pub closed spec fn wf(&self) -> bool {
        &&& self.tokens@.len() >= 1
        &&& self.position < self.tokens@.len()
        &&& self.toks()[self.toks().len() - 1].token_type == TokenType::EOF
        &&& forall|i: int|
            0 <= i < self.toks().len() - 1 ==> self.toks()[i].token_type != TokenType::EOF
    }

    /// The kind of the current token.
    pub closed spec fn cur_type(&self) -> TokenType {
        self.toks()[self.pos()].token_type
    }

    /// The kind of the peek token.
    pub closed spec fn peek_type(&self) -> TokenType {
        self.toks()[self.peek_idx()].token_type
    }

    /// Drains the lexer into a token vector ending at its first EOF
    /// token, which the parser then walks by index.
    pub fn new(lexer: Lexer) -> (p: Parser)
        requires
            lexer.wf(),
            lexer.at() == 0,
        ensures
            p.wf(),
            p.toks() == spec_tokens(lexer.src(), 0),
            p.pos() == 0,
            p.errs() == Seq::<Seq<char>>::empty(),
    {
        let ghost src0 = lexer.src();
        let mut lexer = lexer;
        let mut tokens: Vec<Token> = Vec::new();
        proof {
            assert(tokens@.map_values(|t: Token| t@) =~= Seq::<TokenV>::empty());
        }
        loop
            invariant_except_break
                lexer.wf(),
                lexer.src() == src0,
                0 <= lexer.at() <= src0.len(),
                forall|i: int|
                    0 <= i < tokens@.len() ==> (#[trigger] tokens@[i])@.token_type
                        != TokenType::EOF,
                spec_tokens(src0, 0) == tokens@.map_values(|t: Token| t@) + spec_tokens(
                    src0,
                    lexer.at(),
                ),
            ensures
                tokens@.len() >= 1,
                tokens@.map_values(|t: Token| t@) == spec_tokens(src0, 0),
                tokens@.map_values(|t: Token| t@)[tokens@.len() - 1].token_type == TokenType::EOF,
                forall|i: int|
                    0 <= i < tokens@.len() - 1 ==> (#[trigger] tokens@[i])@.token_type
                        != TokenType::EOF,
            decreases src0.len() - lexer.at(),
        {
            let ghost at0 = lexer.at();
            let ghost pre = tokens@.map_values(|t: Token| t@);
            proof {
                lemma_next_token_progress(src0, at0);
            }
            let t = lexer.next_token();
            let is_eof = t.token_type == TokenType::EOF;
            let ghost tv = t@;
            tokens.push(t);
            proof {
                assert(tokens@.map_values(|t: Token| t@) =~= pre.push(tv));
                if tv.token_type == TokenType::EOF {
                    assert(spec_tokens(src0, at0) =~= seq![tv]);
                    assert(pre + seq![tv] =~= pre.push(tv));
                } else {
                    assert(spec_tokens(src0, at0) == seq![tv] + spec_tokens(src0, lexer.at()));
                    assert(pre + (seq![tv] + spec_tokens(src0, lexer.at())) =~= pre.push(tv)
                        + spec_tokens(src0, lexer.at()));
                }
            }
            if is_eof {
                proof {
                    assert(spec_tokens(src0, 0) =~= pre.push(tv));
                }
                break;
            }
        }
        Parser { tokens, position: 0, errors: Vec::new() }
    }

    /// A copy of the error messages recorded so far.
    pub fn errors(&self) -> (r: Vec<String>)
        ensures
            r@.map_values(|s: String| s@) == self.errs(),
    {
        let mut r: Vec<String> = Vec::new();
        let mut i: usize = 0;
        while i < self.errors.len()
            invariant
                i <= self.errors.len(),
                r@.len() == i,
                forall|j: int| 0 <= j < i ==> r@[j]@ == #[trigger] self.errors@[j]@,
            decreases self.errors.len() - i,
        {
            r.push(self.errors[i].clone());
            i = i + 1;
        }
        assert(r@.map_values(|s: String| s@) =~= self.errs());
        r
    }

    /// Steps to the next token; at the trailing EOF token the position
    /// stays put, so EOF is observed repeatedly.
    pub fn next_token(&mut self)
        requires
            old(self).wf(),
        ensures
            final(self).wf(),
            final(self).toks() == old(self).toks(),
            final(self).errs() == old(self).errs(),
            final(self).pos() == old(self).peek_idx(),
    {
        if self.position < self.tokens.len() - 1 {
            self.position = self.position + 1;
        }
    }

    /// A copy of the current token.
    fn current_token(&self) -> (t: Token)
        requires
            self.wf(),
        ensures
            t@ == self.toks()[self.pos()],
    {
        self.tokens[self.position].duplicate()
    }

    fn current_token_is(&self, token_type: TokenType) -> (r: bool)
        requires
            self.wf(),
        ensures
            r == (self.cur_type() == token_type),
    {
        self.tokens[self.position].token_type == token_type
    }

    fn peek_token_is(&self, token_type: TokenType) -> (r: bool)
        requires
            self.wf(),
        ensures
            r == (self.peek_type() == token_type),
    {
        let peek: usize = if self.position < self.tokens.len() - 1 {
            self.position + 1
        } else {
            self.tokens.len() - 1
        };
        self.tokens[peek].token_type == token_type
    }

    /// Records that the peek token was not what the grammar expected.
    fn add_peak_error(&mut self, token_type: TokenType)
        requires
            old(self).wf(),
        ensures
            final(self).wf(),
            final(self).toks() == old(self).toks(),
            final(self).pos() == old(self).pos(),
            final(self).errs() == old(self).errs().push(
                expected_msg(token_type, old(self).peek_type()),
            ),
    {
        let peek: usize = if self.position < self.tokens.len() - 1 {
            self.position + 1
        } else {
            self.tokens.len() - 1
        };
        let mut msg = String::new();
        append_str(&mut msg, "expected next token to be ");
        append_str(&mut msg, token_type_name(token_type));
        append_str(&mut msg, ", got ");
        append_str(&mut msg, token_type_name(self.tokens[peek].token_type));
        append_str(&mut msg, " instead");
        let ghost mv = msg@;
        self.errors.push(msg);
        proof {
            assert(self.errs() =~= old(self).errs().push(mv));
        }
    }

    /// Records that no prefix handler exists for the current token kind.
    fn no_prefix_parse_fn_error(&mut self, token_type: TokenType)
        requires
            old(self).wf(),
        ensures
            final(self).wf(),
            final(self).toks() == old(self).toks(),
            final(self).pos() == old(self).pos(),
            final(self).errs() == old(self).errs().push(no_prefix_msg(token_type)),
    {
        let mut msg = String::new();
        append_str(&mut msg, "no prefix parse function for ");
        append_str(&mut msg, token_type_name(token_type));
        append_str(&mut msg, " found");
        let ghost mv = msg@;
        self.errors.push(msg);
        proof {
            assert(self.errs() =~= old(self).errs().push(mv));
        }
    }

    /// Advances over the peek token when it has the expected kind;
    /// otherwise records the exact mismatch message and stays put.
    fn expect_peek(&mut self, token_type: TokenType) -> (r: bool)
        requires
            old(self).wf(),
        ensures
            final(self).wf(),
            final(self).toks() == old(self).toks(),
            r == (old(self).peek_type() == token_type),
            r ==> final(self).pos() == old(self).peek_idx() && final(self).errs() == old(
                self,
            ).errs(),
            !r ==> final(self).pos() == old(self).pos() && final(self).errs() == old(
                self,
            ).errs().push(expected_msg(token_type, old(self).peek_type())),
    {
        if self.peek_token_is(token_type) {
            self.next_token();
            true
        } else {
            self.add_peak_error(token_type);
            false
        }
    }

    /// The kind of the current token, read out.
    fn cur_token_type(&self) -> (t: TokenType)
        requires
            self.wf(),
        ensures
            t == self.cur_type(),
    {
        self.tokens[self.position].token_type
    }

    /// The kind of the peek token, read out.
    fn peek_token_type(&self) -> (t: TokenType)
        requires
            self.wf(),
        ensures
            t == self.peek_type(),
    {
        let peek: usize = if self.position < self.tokens.len() - 1 {
            self.position + 1
        } else {
            self.tokens.len() - 1
        };
        self.tokens[peek].token_type
    }

    /// The binding power a token kind has in infix position.
    pub fn get_precedence(token_type: TokenType) -> (r: u8)
        ensures
            r == spec_precedence(token_type),
    {
        match token_type {
            TokenType::EQ => PREC_EQUALS,
            TokenType::NOT_EQ => PREC_EQUALS,
            TokenType::LT => PREC_LESSGREATER,
            TokenType::RT => PREC_LESSGREATER,
            TokenType::PLUS => PREC_SUM,
            TokenType::MINUS => PREC_SUM,
            TokenType::SLASH => PREC_PRODUCT,
            TokenType::ASTERISK => PREC_PRODUCT,
            TokenType::MODULO => PREC_PRODUCT,
            TokenType::LPAREN => PREC_CALL,
            _ => PREC_LOWEST,
        }
    }

    /// Parses statements until the EOF token, collecting every statement
    /// that parsed and every error that did not. Always yields a program;
    /// the whole token stream is consumed.
    #[verifier::loop_isolation(false)]
    #[verifier::rlimit(100)]
    #[verifier::spinoff_prover]
    pub fn parse_program(&mut self) -> (r: Program)
        requires
            old(self).wf(),
        ensures
            final(self).wf(),
            final(self).toks() == old(self).toks(),
            old(self).pos() <= final(self).pos(),
            errs_extend(old(self).errs(), final(self).errs()),
            final(self).cur_type() == TokenType::EOF,
            ({
                let o = sp_parse_program(old(self).toks(), old(self).pos(), old(self).errs());
                r@ == o.0 && final(self).pos() == o.1 && final(self).errs() == o.2
            }),
    {
        let ghost t0 = self.toks();
        let ghost p0 = self.pos();
        let ghost e0 = self.errs();
        let ghost o = sp_parse_program(t0, p0, e0);
        let ghost inner = sp_parse_prog_stmts(t0, p0, e0, Seq::empty());
        let mut statements: Vec<Statement> = Vec::new();
        assert(crate::ast::stmts_view(statements@) =~= Seq::<StmtV>::empty());
        while !self.current_token_is(TokenType::EOF)
            invariant
                self.wf(),
                self.toks() == t0,
                p0 <= self.pos(),
                errs_extend(e0, self.errs()),
                sp_parse_prog_stmts(t0, self.pos(), self.errs(), crate::ast::stmts_view(
                    statements@,
                )) == inner,
            decreases self.toks().len() - self.pos() + (if self.cur_type() == TokenType::EOF {
                0int
            } else {
                1int
            }),
        {
            let ghost pi = self.pos();
            let stmt = self.parse_statement();
            if let Option::Some(s) = stmt {
                proof {
                    crate::ast::lemma_stmts_view_push(statements@, s);
                }
                statements.push(s);
            }
            let ghost pj = self.pos();
            assert(sp_at_least(pj, pi) == pj);
            if !self.current_token_is(TokenType::EOF) {
                self.next_token();
                assert(self.pos() == sp_next_at(t0, pj));
            }
            proof {
                assert(sp_at_least(self.pos(), pi + 1) == self.pos());
            }
        }
        assert(inner == (crate::ast::stmts_view(statements@), self.pos(), self.errs()));
        let r = Program { statements };
        assert(r@ == o.0 && self.pos() == o.1 && self.errs() == o.2);
        r
    }

    /// Dispatches on the current token kind: `let`, `return`, a block, or
    /// an expression statement.
    pub fn parse_statement(&mut self) -> (r: Option<Statement>)
        requires
            old(self).wf(),
        ensures
            final(self).wf(),
            final(self).toks() == old(self).toks(),
            old(self).pos() <= final(self).pos(),
            errs_extend(old(self).errs(), final(self).errs()),
            ({
                let o = sp_parse_statement(old(self).toks(), old(self).pos(), old(self).errs());
                opt_stmt_view(r) == o.0 && final(self).pos() == o.1 && final(self).errs() == o.2
            }),
        decreases self.toks().len() - self.pos(), 10int,
    {
        let ghost o = sp_parse_statement(self.toks(), self.pos(), self.errs());
        match self.cur_token_type() {
            TokenType::LET => {
                let r = self.parse_let_statement();
                assert(opt_stmt_view(r) == o.0 && self.pos() == o.1 && self.errs() == o.2);
                r
            },
            TokenType::RETURN => {
                let r = self.parse_return_statement();
                assert(opt_stmt_view(r) == o.0 && self.pos() == o.1 && self.errs() == o.2);
                r
            },
            TokenType::LBRACE => {
                let b = self.parse_block_statement();
                let r = match b {
                    Option::Some(bs) => Option::Some(Statement::Block(bs)),
                    Option::None => Option::None,
                };
                assert(opt_stmt_view(r) == o.0 && self.pos() == o.1 && self.errs() == o.2);
                r
            },
            _ => {
                let r = self.parse_expression_statement();
                assert(opt_stmt_view(r) == o.0 && self.pos() == o.1 && self.errs() == o.2);
                r
            },
        }
    }

    /// An expression in statement position; a trailing semicolon is
    /// consumed if present.
    pub fn parse_expression_statement(&mut self) -> (r: Option<Statement>)
        requires
            old(self).wf(),
        ensures
            final(self).wf(),
            final(self).toks() == old(self).toks(),
            old(self).pos() <= final(self).pos(),
            errs_extend(old(self).errs(), final(self).errs()),
            ({
                let o = sp_parse_expression_statement(old(self).toks(), old(self).pos(), old(self).errs());
                opt_stmt_view(r) == o.0 && final(self).pos() == o.1 && final(self).errs() == o.2
            }),
        decreases self.toks().len() - self.pos(), 9int,
    {
        let ghost t0 = self.toks();
        let ghost p0 = self.pos();
        let ghost e0 = self.errs();
        let ghost o = sp_parse_expression_statement(t0, p0, e0);
        let token = self.current_token();
        let expression = self.parse_expression(PREC_LOWEST);
        let ghost p1 = self.pos();
        assert(sp_at_least(p1, p0) == p1);
        if self.peek_token_is(TokenType::SEMICOLON) {
            self.next_token();
            assert(self.pos() == sp_next_at(t0, p1));
        }
        let r = Option::Some(Statement::Expr(ExpressionStatement { token, expression }));
        assert(opt_stmt_view(r) == o.0 && self.pos() == o.1 && self.errs() == o.2);
        r
    }

    /// `let IDENT = expression ;?` — a failed expectation records an
    /// error and abandons the statement.
    pub fn parse_let_statement(&mut self) -> (r: Option<Statement>)
        requires
            old(self).wf(),
        ensures
            final(self).wf(),
            final(self).toks() == old(self).toks(),
            old(self).pos() <= final(self).pos(),
            errs_extend(old(self).errs(), final(self).errs()),
            r is Some ==> old(self).peek_type() == TokenType::IDENT,
            r is None ==> old(self).errs().len() < final(self).errs().len(),
            ({
                let o = sp_parse_let_statement(old(self).toks(), old(self).pos(), old(self).errs());
                opt_stmt_view(r) == o.0 && final(self).pos() == o.1 && final(self).errs() == o.2
            }),
        decreases self.toks().len() - self.pos(), 9int,
    {
        let ghost t0 = self.toks();
        let ghost p0 = self.pos();
        let ghost e0 = self.errs();
        let ghost o = sp_parse_let_statement(t0, p0, e0);
        let token = self.current_token();
        if !self.expect_peek(TokenType::IDENT) {
            assert(o.0 is None && self.pos() == o.1 && self.errs() == o.2);
            return Option::None;
        }
        let ghost p1 = self.pos();
        assert(p1 == sp_next_at(t0, p0));
        let name_token = self.current_token();
        let name_value = name_token.literal.clone();
        let name = Identifier { token: name_token, value: name_value };
        assert(name@ == sp_ident_at(t0, p1));
        if !self.expect_peek(TokenType::ASSIGN) {
            assert(o.0 is None && self.pos() == o.1 && self.errs() == o.2);
            return Option::None;
        }
        let ghost p2 = self.pos();
        assert(p2 == sp_next_at(t0, p1));
        self.next_token();
        let ghost p3 = self.pos();
        assert(p3 == sp_next_at(t0, p2));
        let value = self.parse_expression(PREC_LOWEST);
        let ghost p4 = self.pos();
        assert(sp_at_least(p4, p3) == p4);
        if self.peek_token_is(TokenType::SEMICOLON) {
            self.next_token();
            assert(self.pos() == sp_next_at(t0, p4));
        }
        let r = Option::Some(Statement::Let(LetStatement { token, name, value }));
        assert(opt_stmt_view(r) == o.0 && self.pos() == o.1 && self.errs() == o.2);
        r
    }

    /// `return expression ;?`.
    pub fn parse_return_statement(&mut self) -> (r: Option<Statement>)
        requires
            old(self).wf(),
        ensures
            final(self).wf(),
            final(self).toks() == old(self).toks(),
            old(self).pos() <= final(self).pos(),
            errs_extend(old(self).errs(), final(self).errs()),
            ({
                let o = sp_parse_return_statement(old(self).toks(), old(self).pos(), old(self).errs());
                opt_stmt_view(r) == o.0 && final(self).pos() == o.1 && final(self).errs() == o.2
            }),
        decreases self.toks().len() - self.pos(), 9int,
    {
        let ghost t0 = self.toks();
        let ghost p0 = self.pos();
        let ghost e0 = self.errs();
        let ghost o = sp_parse_return_statement(t0, p0, e0);
        let token = self.current_token();
        self.next_token();
        let ghost p1 = self.pos();
        assert(p1 == sp_next_at(t0, p0));
        let return_value = self.parse_expression(PREC_LOWEST);
        let ghost p2 = self.pos();
        assert(sp_at_least(p2, p1) == p2);
        if self.peek_token_is(TokenType::SEMICOLON) {
            self.next_token();
            assert(self.pos() == sp_next_at(t0, p2));
        }
        let r = Option::Some(Statement::Return(ReturnStatement { token, return_value }));
        assert(opt_stmt_view(r) == o.0 && self.pos() == o.1 && self.errs() == o.2);
        r
    }

    /// `{ statement* }` — parses statements until the closing brace or
    /// the end of the input.
    #[verifier::loop_isolation(false)]
    #[verifier::rlimit(100)]
    #[verifier::spinoff_prover]
    pub fn parse_block_statement(&mut self) -> (r: Option<BlockStatement>)
        requires
            old(self).wf(),
            old(self).cur_type() == TokenType::LBRACE,
        ensures
            final(self).wf(),
            final(self).toks() == old(self).toks(),
            old(self).pos() <= final(self).pos(),
            errs_extend(old(self).errs(), final(self).errs()),
            r matches Option::Some(b) && b@.token == old(self).toks()[old(self).pos()],
            ({
                let o = sp_parse_block_statement(old(self).toks(), old(self).pos(), old(self).errs());
                opt_block_view(r) == o.0 && final(self).pos() == o.1 && final(self).errs() == o.2
            }),
        decreases self.toks().len() - self.pos(), 9int,
    {
        let ghost t0 = self.toks();
        let ghost p0 = self.pos();
        let ghost e0 = self.errs();
        let ghost o = sp_parse_block_statement(t0, p0, e0);
        let token = self.current_token();
        let mut statements: Vec<Statement> = Vec::new();
        assert(crate::ast::stmts_view(statements@) =~= Seq::<StmtV>::empty());
        proof {
            assert(p0 < t0.len() - 1);
        }
        self.next_token();
        assert(self.pos() == p0 + 1);
        let ghost inner = sp_parse_block_stmts(t0, p0 + 1, e0, Seq::empty());
        while !self.current_token_is(TokenType::RBRACE) && !self.current_token_is(TokenType::EOF)
            invariant
                self.wf(),
                self.toks() == t0,
                p0 < self.pos(),
                errs_extend(e0, self.errs()),
                sp_parse_block_stmts(t0, self.pos(), self.errs(), crate::ast::stmts_view(
                    statements@,
                )) == inner,
            decreases self.toks().len() - self.pos() + (if self.cur_type() == TokenType::EOF {
                0int
            } else {
                1int
            }),
        {
            let ghost pi = self.pos();
            let ghost ei = self.errs();
            let ghost accv = crate::ast::stmts_view(statements@);
            let stmt = self.parse_statement();
            if let Option::Some(s) = stmt {
                proof {
                    crate::ast::lemma_stmts_view_push(statements@, s);
                }
                statements.push(s);
            }
            let ghost pj = self.pos();
            assert(sp_at_least(pj, pi) == pj);
            if !self.current_token_is(TokenType::EOF) {
                self.next_token();
                assert(self.pos() == sp_next_at(t0, pj));
            }
            proof {
                assert(sp_at_least(self.pos(), pi + 1) == self.pos());
            }
        }
        assert(inner == (crate::ast::stmts_view(statements@), self.pos(), self.errs()));
        let r = Option::Some(BlockStatement { token, statements });
        assert(opt_block_view(r) == o.0 && self.pos() == o.1 && self.errs() == o.2);
        r
    }

    /// Whether the peek token continues the current expression: it is
    /// not a semicolon and binds tighter than `precedence`.
    fn wants_infix(&self, precedence: u8) -> (r: bool)
        requires
            self.wf(),
        ensures
            r == (self.peek_type() != TokenType::SEMICOLON && precedence < spec_precedence(
                self.peek_type(),
            )),
    {
        !self.peek_token_is(TokenType::SEMICOLON) && precedence < Parser::get_precedence(
            self.peek_token_type(),
        )
    }

    /// The Pratt core: parses a prefix expression, then while the peek
    /// token is an infix operator binding tighter than `precedence`,
    /// folds it into the left operand.
    #[verifier::loop_isolation(false)]
    #[verifier::rlimit(100)]
    #[verifier::spinoff_prover]
    pub fn parse_expression(&mut self, precedence: u8) -> (r: Option<Expression>)
        requires
            old(self).wf(),
            precedence >= PREC_LOWEST,
        ensures
            final(self).wf(),
            final(self).toks() == old(self).toks(),
            old(self).pos() <= final(self).pos(),
            errs_extend(old(self).errs(), final(self).errs()),
            r is None ==> old(self).errs().len() < final(self).errs().len(),
            !sp_has_prefix_handler(old(self).cur_type()) ==> r is None && final(self).errs()
                == old(self).errs().push(no_prefix_msg(old(self).cur_type())),
            ({
                let o = sp_parse_expression(old(self).toks(), old(self).pos(), old(self).errs(), precedence);
                opt_expr_view(r) == o.0 && final(self).pos() == o.1 && final(self).errs() == o.2
            }),
        decreases self.toks().len() - self.pos(), 5int,
    {
        let ghost t0 = self.toks();
        let ghost p0 = self.pos();
        let ghost e0 = self.errs();
        let ghost o = sp_parse_expression(t0, p0, e0, precedence);
        let ct = self.cur_token_type();
        let mut left: Expression;
        match ct {
            TokenType::IDENT => {
                match self.parse_identifier() {
                    Option::Some(e) => {
                        left = e;
                    },
                    Option::None => {
                        return Option::None;
                    },
                }
            },
            TokenType::INT => {
                match self.parse_integer_literal() {
                    Option::Some(e) => {
                        left = e;
                    },
                    Option::None => {
                        assert(o.0 is None && self.pos() == o.1 && self.errs() == o.2);
                        return Option::None;
                    },
                }
            },
            TokenType::STRING => {
                match self.parse_string_literal() {
                    Option::Some(e) => {
                        left = e;
                    },
                    Option::None => {
                        return Option::None;
                    },
                }
            },
            TokenType::TRUE => {
                match self.parse_boolean() {
                    Option::Some(e) => {
                        left = e;
                    },
                    Option::None => {
                        return Option::None;
                    },
                }
            },
            TokenType::FALSE => {
                match self.parse_boolean() {
                    Option::Some(e) => {
                        left = e;
                    },
                    Option::None => {
                        return Option::None;
                    },
                }
            },
            TokenType::BANG => {
                match self.parse_prefix_expression() {
                    Option::Some(e) => {
                        left = e;
                    },
                    Option::None => {
                        assert(o.0 is None && self.pos() == o.1 && self.errs() == o.2);
                        return Option::None;
                    },
                }
            },
            TokenType::MINUS => {
                match self.parse_prefix_expression() {
                    Option::Some(e) => {
                        left = e;
                    },
                    Option::None => {
                        assert(o.0 is None && self.pos() == o.1 && self.errs() == o.2);
                        return Option::None;
                    },
                }
            },
            TokenType::LPAREN => {
                match self.parse_grouped_expression() {
                    Option::Some(e) => {
                        left = e;
                    },
                    Option::None => {
                        assert(o.0 is None && self.pos() == o.1 && self.errs() == o.2);
                        return Option::None;
                    },
                }
            },
            TokenType::IF => {
                match self.parse_if_expression() {
                    Option::Some(e) => {
                        left = e;
                    },
                    Option::None => {
                        assert(o.0 is None && self.pos() == o.1 && self.errs() == o.2);
                        return Option::None;
                    },
                }
            },
            TokenType::FUNCTION => {
                match self.parse_function_literal() {
                    Option::Some(e) => {
                        left = e;
                    },
                    Option::None => {
                        assert(o.0 is None && self.pos() == o.1 && self.errs() == o.2);
                        return Option::None;
                    },
                }
            },
            _ => {
                self.no_prefix_parse_fn_error(ct);
                assert(o.0 is None && self.pos() == o.1 && self.errs() == o.2);
                return Option::None;
            },
        }
        let ghost p1 = self.pos();
        assert(sp_at_least(p1, p0) == p1);
        let ghost lp = sp_parse_infix_loop(t0, p1, self.errs(), left@, precedence);
        assert(o == lp);
        while self.wants_infix(precedence)
            invariant
                self.wf(),
                self.toks() == t0,
                p0 <= self.pos(),
                errs_extend(e0, self.errs()),
                sp_parse_infix_loop(t0, self.pos(), self.errs(), left@, precedence) == lp,
            decreases self.toks().len() - self.pos(),
        {
            let ghost pi = self.pos();
            let pt = self.peek_token_type();
            proof {
                assert(spec_precedence(pt) >= 2);
                assert(pt != TokenType::EOF);
                assert(pi < t0.len() - 1);
            }
            match pt {
                TokenType::PLUS | TokenType::MINUS | TokenType::SLASH | TokenType::ASTERISK
                    | TokenType::LT | TokenType::RT | TokenType::EQ | TokenType::NOT_EQ
                    | TokenType::MODULO => {
                    self.next_token();
                    assert(self.pos() == pi + 1);
                    match self.parse_infix_expression(left) {
                        Option::Some(e) => {
                            proof {
                                assert(sp_at_least(self.pos(), pi + 1) == self.pos());
                            }
                            left = e;
                        },
                        Option::None => {
                            assert(o.0 is None && self.pos() == o.1 && self.errs() == o.2);
                            return Option::None;
                        },
                    }
                },
                TokenType::LPAREN => {
                    self.next_token();
                    assert(self.pos() == pi + 1);
                    match self.parse_call_expression(left) {
                        Option::Some(e) => {
                            proof {
                                assert(sp_at_least(self.pos(), pi + 1) == self.pos());
                            }
                            left = e;
                        },
                        Option::None => {
                            assert(o.0 is None && self.pos() == o.1 && self.errs() == o.2);
                            return Option::None;
                        },
                    }
                },
                _ => {
                    // every token kind that binds tighter than LOWEST has
                    // an infix handler, so the guard above rules this out
                    proof {
                        assert(false);
                    }
                },
            }
        }
        let r = Option::Some(left);
        assert(opt_expr_view(r) == o.0 && self.pos() == o.1 && self.errs() == o.2);
        r
    }

    /// The current identifier token as an expression.
    pub fn parse_identifier(&mut self) -> (r: Option<Expression>)
        requires
            old(self).wf(),
        ensures
            final(self).wf(),
            final(self).toks() == old(self).toks(),
            old(self).pos() <= final(self).pos(),
            errs_extend(old(self).errs(), final(self).errs()),
            r matches Option::Some(e) && e@ == crate::ast::ExprV::Ident(
                crate::ast::IdentifierV {
                    token: old(self).toks()[old(self).pos()],
                    value: old(self).toks()[old(self).pos()].literal,
                },
            ),
            final(self).pos() == old(self).pos(),
            final(self).errs() == old(self).errs(),
            ({
                let o = sp_parse_identifier(old(self).toks(), old(self).pos(), old(self).errs());
                opt_expr_view(r) == o.0 && final(self).pos() == o.1 && final(self).errs() == o.2
            }),
        decreases self.toks().len() - self.pos(), 4int,
    {
        let token = self.current_token();
        let value = token.literal.clone();
        Option::Some(Expression::Ident(Identifier { token, value }))
    }

    /// The current INT token as an integer literal; a run of digits too
    /// large for an `i64` records the exact `could not parse` message.
    pub fn parse_integer_literal(&mut self) -> (r: Option<Expression>)
        requires
            old(self).wf(),
        ensures
            final(self).wf(),
            final(self).toks() == old(self).toks(),
            old(self).pos() <= final(self).pos(),
            errs_extend(old(self).errs(), final(self).errs()),
            match r {
                Option::Some(e) => {
                    let lit = old(self).toks()[old(self).pos()].literal;
                    &&& final(self).errs() == old(self).errs()
                    &&& e@ matches crate::ast::ExprV::IntLit { token, value } && token == old(
                        self,
                    ).toks()[old(self).pos()] && value as int == spec_digits_val(lit)
                    &&& lit.len() > 0
                    &&& spec_all_digits(lit)
                },
                Option::None => final(self).errs() == old(self).errs().push(
                    int_parse_msg(old(self).toks()[old(self).pos()].literal),
                ),
            },
            ({
                let o = sp_parse_integer_literal(old(self).toks(), old(self).pos(), old(self).errs());
                opt_expr_view(r) == o.0 && final(self).pos() == o.1 && final(self).errs() == o.2
            }),
        decreases self.toks().len() - self.pos(), 4int,
    {
        let token = self.current_token();
        match parse_i64_digits(token.literal.as_str()) {
            Option::Some(v) => Option::Some(
                Expression::IntLit(IntegerLiteral { token, value: v }),
            ),
            Option::None => {
                let mut msg = String::new();
                append_str(&mut msg, "could not parse ");
                append_str(&mut msg, token.literal.as_str());
                append_str(&mut msg, " as integer");
                let ghost mv = msg@;
                self.errors.push(msg);
                proof {
                    assert(self.errs() =~= old(self).errs().push(mv));
                }
                Option::None
            },
        }
    }

    /// The current STRING token as a string literal.
    pub fn parse_string_literal(&mut self) -> (r: Option<Expression>)
        requires
            old(self).wf(),
        ensures
            final(self).wf(),
            final(self).toks() == old(self).toks(),
            old(self).pos() <= final(self).pos(),
            errs_extend(old(self).errs(), final(self).errs()),
            r matches Option::Some(e) && e@ == (crate::ast::ExprV::StrLit {
                token: old(self).toks()[old(self).pos()],
                value: old(self).toks()[old(self).pos()].literal,
            }),
            final(self).pos() == old(self).pos(),
            final(self).errs() == old(self).errs(),
            ({
                let o = sp_parse_string_literal(old(self).toks(), old(self).pos(), old(self).errs());
                opt_expr_view(r) == o.0 && final(self).pos() == o.1 && final(self).errs() == o.2
            }),
        decreases self.toks().len() - self.pos(), 4int,
    {
        let token = self.current_token();
        let value = token.literal.clone();
        Option::Some(Expression::StrLit(StringLiteral { token, value }))
    }

    /// The current TRUE or FALSE token as a boolean literal.
    pub fn parse_boolean(&mut self) -> (r: Option<Expression>)
        requires
            old(self).wf(),
        ensures
            final(self).wf(),
            final(self).toks() == old(self).toks(),
            old(self).pos() <= final(self).pos(),
            errs_extend(old(self).errs(), final(self).errs()),
            r matches Option::Some(e) && e@ == (crate::ast::ExprV::BoolLit {
                token: old(self).toks()[old(self).pos()],
                value: old(self).cur_type() == TokenType::TRUE,
            }),
            final(self).pos() == old(self).pos(),
            final(self).errs() == old(self).errs(),
            ({
                let o = sp_parse_boolean(old(self).toks(), old(self).pos(), old(self).errs());
                opt_expr_view(r) == o.0 && final(self).pos() == o.1 && final(self).errs() == o.2
            }),
        decreases self.toks().len() - self.pos(), 4int,
    {
        let token = self.current_token();
        let value = self.current_token_is(TokenType::TRUE);
        Option::Some(Expression::BoolLit(Boolean { token, value }))
    }

    /// `!` or `-` applied to the expression after it, parsed at prefix
    /// binding power.
    pub fn parse_prefix_expression(&mut self) -> (r: Option<Expression>)
        requires
            old(self).wf(),
            old(self).cur_type() == TokenType::BANG || old(self).cur_type() == TokenType::MINUS,
        ensures
            final(self).wf(),
            final(self).toks() == old(self).toks(),
            old(self).pos() <= final(self).pos(),
            errs_extend(old(self).errs(), final(self).errs()),
            r is None ==> old(self).errs().len() < final(self).errs().len(),
            ({
                let o = sp_parse_prefix_expression(old(self).toks(), old(self).pos(), old(self).errs());
                opt_expr_view(r) == o.0 && final(self).pos() == o.1 && final(self).errs() == o.2
            }),
        decreases self.toks().len() - self.pos(), 4int,
    {
        let ghost t0 = self.toks();
        let ghost p0 = self.pos();
        let ghost e0 = self.errs();
        let ghost o = sp_parse_prefix_expression(t0, p0, e0);
        let token = self.current_token();
        let operator = token.literal.clone();
        proof {
            assert(p0 < t0.len() - 1);
        }
        self.next_token();
        assert(self.pos() == p0 + 1);
        match self.parse_expression(PREC_PREFIX) {
            Option::Some(right) => {
                let r = Option::Some(
                    Expression::Prefix(
                        PrefixExpression { token, operator, right: Box::new(right) },
                    ),
                );
                assert(opt_expr_view(r) == o.0 && self.pos() == o.1 && self.errs() == o.2);
                r
            },
            Option::None => {
                assert(o.0 is None && self.pos() == o.1 && self.errs() == o.2);
                Option::None
            },
        }
    }

    /// A binary operator applied to `left` and the expression after it,
    /// parsed at the operator's own binding power (left association).
    pub fn parse_infix_expression(&mut self, left: Expression) -> (r: Option<Expression>)
        requires
            old(self).wf(),
            old(self).cur_type() != TokenType::EOF,
        ensures
            final(self).wf(),
            final(self).toks() == old(self).toks(),
            old(self).pos() <= final(self).pos(),
            errs_extend(old(self).errs(), final(self).errs()),
            r is None ==> old(self).errs().len() < final(self).errs().len(),
            ({
                let o = sp_parse_infix_expression(old(self).toks(), old(self).pos(), old(self).errs(), left@);
                opt_expr_view(r) == o.0 && final(self).pos() == o.1 && final(self).errs() == o.2
            }),
        decreases self.toks().len() - self.pos(), 4int,
    {
        let ghost t0 = self.toks();
        let ghost p0 = self.pos();
        let ghost e0 = self.errs();
        let ghost lv = left@;
        let ghost o = sp_parse_infix_expression(t0, p0, e0, lv);
        let token = self.current_token();
        let operator = token.literal.clone();
        let precedence = Parser::get_precedence(self.cur_token_type());
        proof {
            assert(p0 < t0.len() - 1);
            assert(precedence >= PREC_LOWEST);
        }
        self.next_token();
        assert(self.pos() == p0 + 1);
        match self.parse_expression(precedence) {
            Option::Some(right) => {
                let r = Option::Some(
                    Expression::Infix(
                        InfixExpression {
                            token,
                            left: Box::new(left),
                            operator,
                            right: Box::new(right),
                        },
                    ),
                );
                assert(opt_expr_view(r) == o.0 && self.pos() == o.1 && self.errs() == o.2);
                r
            },
            Option::None => {
                assert(o.0 is None && self.pos() == o.1 && self.errs() == o.2);
                Option::None
            },
        }
    }

    /// `( expression )`.
    pub fn parse_grouped_expression(&mut self) -> (r: Option<Expression>)
        requires
            old(self).wf(),
            old(self).cur_type() == TokenType::LPAREN,
        ensures
            final(self).wf(),
            final(self).toks() == old(self).toks(),
            old(self).pos() <= final(self).pos(),
            errs_extend(old(self).errs(), final(self).errs()),
            r is None ==> old(self).errs().len() < final(self).errs().len(),
            ({
                let o = sp_parse_grouped_expression(old(self).toks(), old(self).pos(), old(self).errs());
                opt_expr_view(r) == o.0 && final(self).pos() == o.1 && final(self).errs() == o.2
            }),
        decreases self.toks().len() - self.pos(), 4int,
    {
        let ghost t0 = self.toks();
        let ghost p0 = self.pos();
        let ghost e0 = self.errs();
        let ghost o = sp_parse_grouped_expression(t0, p0, e0);
        proof {
            assert(p0 < t0.len() - 1);
        }
        self.next_token();
        assert(self.pos() == p0 + 1);
        let exp = self.parse_expression(PREC_LOWEST);
        let ghost p1 = self.pos();
        assert(sp_at_least(p1, p0 + 1) == p1);
        if !self.expect_peek(TokenType::RPAREN) {
            assert(o.0 is None && self.pos() == o.1 && self.errs() == o.2);
            return Option::None;
        }
        assert(self.pos() == sp_next_at(t0, p1));
        assert(opt_expr_view(exp) == o.0 && self.pos() == o.1 && self.errs() == o.2);
        exp
    }

    /// `if ( condition ) { block } (else { block })?`.
    #[verifier::rlimit(100)]
    #[verifier::spinoff_prover]
    pub fn parse_if_expression(&mut self) -> (r: Option<Expression>)
        requires
            old(self).wf(),
        ensures
            final(self).wf(),
            final(self).toks() == old(self).toks(),
            old(self).pos() <= final(self).pos(),
            errs_extend(old(self).errs(), final(self).errs()),
            r is None ==> old(self).errs().len() < final(self).errs().len(),
            ({
                let o = sp_parse_if_expression(old(self).toks(), old(self).pos(), old(self).errs());
                opt_expr_view(r) == o.0 && final(self).pos() == o.1 && final(self).errs() == o.2
            }),
        decreases self.toks().len() - self.pos(), 4int,
    {
        let ghost t0 = self.toks();
        let ghost p0 = self.pos();
        let ghost e0 = self.errs();
        let ghost o = sp_parse_if_expression(t0, p0, e0);
        let token = self.current_token();
        if !self.expect_peek(TokenType::LPAREN) {
            assert(o.0 is None && self.pos() == o.1 && self.errs() == o.2);
            return Option::None;
        }
        let ghost p1 = self.pos();
        assert(p1 == p0 + 1);
        self.next_token();
        let ghost p2 = self.pos();
        assert(p2 == sp_next_at(t0, p1) && p2 > p0);
        let condition = match self.parse_expression(PREC_LOWEST) {
            Option::Some(c) => c,
            Option::None => {
                assert(o.0 is None && self.pos() == o.1 && self.errs() == o.2);
                return Option::None;
            },
        };
        let ghost p3 = self.pos();
        assert(sp_at_least(p3, p2) == p3);
        if !self.expect_peek(TokenType::RPAREN) {
            assert(o.0 is None && self.pos() == o.1 && self.errs() == o.2);
            return Option::None;
        }
        let ghost p4 = self.pos();
        assert(p4 == sp_next_at(t0, p3));
        if !self.expect_peek(TokenType::LBRACE) {
            assert(o.0 is None && self.pos() == o.1 && self.errs() == o.2);
            return Option::None;
        }
        let ghost p5 = self.pos();
        assert(p5 == sp_next_at(t0, p4));
        let consequence = match self.parse_block_statement() {
            Option::Some(b) => b,
            Option::None => {
                assert(o.0 is None && self.pos() == o.1 && self.errs() == o.2);
                return Option::None;
            },
        };
        let ghost p6 = self.pos();
        assert(sp_at_least(p6, p5) == p6);
        let mut alternative: Option<BlockStatement> = Option::None;
        if self.peek_token_is(TokenType::ELSE) {
            self.next_token();
            let ghost p7 = self.pos();
            assert(p7 == sp_next_at(t0, p6));
            if !self.expect_peek(TokenType::LBRACE) {
                assert(o.0 is None && self.pos() == o.1 && self.errs() == o.2);
                return Option::None;
            }
            let ghost p8 = self.pos();
            assert(p8 == sp_next_at(t0, p7));
            alternative = match self.parse_block_statement() {
                Option::Some(b) => Option::Some(b),
                Option::None => {
                    assert(o.0 is None && self.pos() == o.1 && self.errs() == o.2);
                    return Option::None;
                },
            };
        }
        let r = Option::Some(
            Expression::If(
                IfExpression { token, condition: Box::new(condition), consequence, alternative },
            ),
        );
        assert(opt_expr_view(r) == o.0 && self.pos() == o.1 && self.errs() == o.2);
        r
    }

    /// `fn ( parameters ) { block }`.
    #[verifier::rlimit(100)]
    #[verifier::spinoff_prover]
    pub fn parse_function_literal(&mut self) -> (r: Option<Expression>)
        requires
            old(self).wf(),
        ensures
            final(self).wf(),
            final(self).toks() == old(self).toks(),
            old(self).pos() <= final(self).pos(),
            errs_extend(old(self).errs(), final(self).errs()),
            r is None ==> old(self).errs().len() < final(self).errs().len(),
            ({
                let o = sp_parse_function_literal(old(self).toks(), old(self).pos(), old(self).errs());
                opt_expr_view(r) == o.0 && final(self).pos() == o.1 && final(self).errs() == o.2
            }),
        decreases self.toks().len() - self.pos(), 4int,
    {
        let ghost t0 = self.toks();
        let ghost p0 = self.pos();
        let ghost e0 = self.errs();
        let ghost o = sp_parse_function_literal(t0, p0, e0);
        let token = self.current_token();
        if !self.expect_peek(TokenType::LPAREN) {
            assert(o.0 is None && self.pos() == o.1 && self.errs() == o.2);
            return Option::None;
        }
        let ghost p1 = self.pos();
        assert(p1 == p0 + 1);
        let parameters = self.parse_function_parameters();
        let ghost p2 = self.pos();
        assert(sp_at_least(p2, p1) == p2);
        if !self.expect_peek(TokenType::LBRACE) {
            assert(o.0 is None && self.pos() == o.1 && self.errs() == o.2);
            return Option::None;
        }
        let ghost p3 = self.pos();
        assert(p3 == sp_next_at(t0, p2) && p3 > p0);
        let body = match self.parse_block_statement() {
            Option::Some(b) => b,
            Option::None => {
                assert(o.0 is None && self.pos() == o.1 && self.errs() == o.2);
                return Option::None;
            },
        };
        let r = Option::Some(Expression::Func(FunctionLiteral { token, parameters, body }));
        assert(opt_expr_view(r) == o.0 && self.pos() == o.1 && self.errs() == o.2);
        r
    }

    /// The comma-separated parameter names of a function literal; a
    /// missing closing parenthesis records an error and yields no
    /// parameters.
    #[verifier::loop_isolation(false)]
    pub fn parse_function_parameters(&mut self) -> (r: Vec<Identifier>)
        requires
            old(self).wf(),
        ensures
            final(self).wf(),
            final(self).toks() == old(self).toks(),
            old(self).pos() <= final(self).pos(),
            errs_extend(old(self).errs(), final(self).errs()),
            ({
                let o = sp_parse_function_parameters(old(self).toks(), old(self).pos(), old(self).errs());
                r@.map_values(|p: Identifier| p@) == o.0 && final(self).pos() == o.1 && final(self).errs() == o.2
            }),
    {
        let ghost t0 = self.toks();
        let ghost p0 = self.pos();
        let ghost e0 = self.errs();
        let ghost o = sp_parse_function_parameters(t0, p0, e0);
        let mut identifiers: Vec<Identifier> = Vec::new();
        assert(identifiers@.map_values(|p: Identifier| p@) =~= Seq::<
            crate::ast::IdentifierV,
        >::empty());
        if self.peek_token_is(TokenType::RPAREN) {
            self.next_token();
            assert(self.pos() == sp_next_at(t0, p0));
            assert(identifiers@.map_values(|p: Identifier| p@) == o.0 && self.pos() == o.1
                && self.errs() == o.2);
            return identifiers;
        }
        self.next_token();
        let ghost p1 = self.pos();
        assert(p1 == sp_next_at(t0, p0));
        let first = self.current_token();
        let first_value = first.literal.clone();
        let first_ident = Identifier { token: first, value: first_value };
        assert(first_ident@ == sp_ident_at(t0, p1));
        identifiers.push(first_ident);
        assert(identifiers@.map_values(|p: Identifier| p@) =~= seq![sp_ident_at(t0, p1)]);
        let ghost rest = sp_parse_params_rest(
            t0,
            p1,
            identifiers@.map_values(|p: Identifier| p@),
        );
        while self.peek_token_is(TokenType::COMMA)
            invariant
                self.wf(),
                self.toks() == t0,
                p0 <= self.pos(),
                self.errs() == e0,
                sp_parse_params_rest(t0, self.pos(), identifiers@.map_values(|p: Identifier| p@))
                    == rest,
            decreases self.toks().len() - self.pos(),
        {
            let ghost pi = self.pos();
            let ghost accv = identifiers@.map_values(|p: Identifier| p@);
            proof {
                assert(pi < t0.len() - 1);
            }
            self.next_token();
            assert(self.pos() == pi + 1);
            self.next_token();
            let ghost pj = self.pos();
            assert(pj == sp_next_at(t0, pi + 1));
            let ident = self.current_token();
            let ident_value = ident.literal.clone();
            let next_ident = Identifier { token: ident, value: ident_value };
            assert(next_ident@ == sp_ident_at(t0, pj));
            identifiers.push(next_ident);
            proof {
                assert(identifiers@.map_values(|p: Identifier| p@) =~= accv.push(
                    sp_ident_at(t0, pj),
                ));
                assert(sp_at_least(pj, pi + 1) == pj);
            }
        }
        assert(rest == (identifiers@.map_values(|p: Identifier| p@), self.pos()));
        let ghost pk = self.pos();
        if !self.expect_peek(TokenType::RPAREN) {
            let r: Vec<Identifier> = Vec::new();
            assert(r@.map_values(|p: Identifier| p@) =~= Seq::<crate::ast::IdentifierV>::empty());
            assert(r@.map_values(|p: Identifier| p@) == o.0 && self.pos() == o.1 && self.errs()
                == o.2);
            return r;
        }
        assert(self.pos() == sp_next_at(t0, pk));
        assert(identifiers@.map_values(|p: Identifier| p@) == o.0 && self.pos() == o.1
            && self.errs() == o.2);
        identifiers
    }

    /// A call of `function` on the arguments between the parentheses.
    pub fn parse_call_expression(&mut self, function: Expression) -> (r: Option<Expression>)
        requires
            old(self).wf(),
            old(self).cur_type() == TokenType::LPAREN,
        ensures
            final(self).wf(),
            final(self).toks() == old(self).toks(),
            old(self).pos() <= final(self).pos(),
            errs_extend(old(self).errs(), final(self).errs()),
            r is Some,
            ({
                let o = sp_parse_call_expression(old(self).toks(), old(self).pos(), old(self).errs(), function@);
                opt_expr_view(r) == o.0 && final(self).pos() == o.1 && final(self).errs() == o.2
            }),
        decreases self.toks().len() - self.pos(), 4int,
    {
        let ghost t0 = self.toks();
        let ghost p0 = self.pos();
        let ghost e0 = self.errs();
        let ghost fv = function@;
        let ghost o = sp_parse_call_expression(t0, p0, e0, fv);
        let token = self.current_token();
        let arguments = self.parse_call_arguments();
        let r = Option::Some(
            Expression::Call(CallExpression { token, function: Box::new(function), arguments }),
        );
        assert(opt_expr_view(r) == o.0 && self.pos() == o.1 && self.errs() == o.2);
        r
    }

    /// The comma-separated argument expressions of a call; a failed
    /// argument or a missing closing parenthesis records an error and
    /// yields no arguments.
    #[verifier::loop_isolation(false)]
    pub fn parse_call_arguments(&mut self) -> (r: Vec<Expression>)
        requires
            old(self).wf(),
            old(self).cur_type() == TokenType::LPAREN,
        ensures
            final(self).wf(),
            final(self).toks() == old(self).toks(),
            old(self).pos() <= final(self).pos(),
            errs_extend(old(self).errs(), final(self).errs()),
            ({
                let o = sp_parse_call_arguments(old(self).toks(), old(self).pos(), old(self).errs());
                crate::ast::exprs_view(r@) == o.0 && final(self).pos() == o.1 && final(self).errs() == o.2
            }),
        decreases self.toks().len() - self.pos(), 3int,
    {
        let ghost t0 = self.toks();
        let ghost p0 = self.pos();
        let ghost e0 = self.errs();
        let ghost o = sp_parse_call_arguments(t0, p0, e0);
        let mut args: Vec<Expression> = Vec::new();
        assert(crate::ast::exprs_view(args@) =~= Seq::<ExprV>::empty());
        if self.peek_token_is(TokenType::RPAREN) {
            self.next_token();
            assert(self.pos() == sp_next_at(t0, p0));
            assert(crate::ast::exprs_view(args@) == o.0 && self.pos() == o.1 && self.errs()
                == o.2);
            return args;
        }
        proof {
            assert(p0 < t0.len() - 1);
        }
        self.next_token();
        assert(self.pos() == p0 + 1);
        match self.parse_expression(PREC_LOWEST) {
            Option::Some(a) => {
                proof {
                    crate::ast::lemma_exprs_view_push(args@, a);
                }
                args.push(a);
                assert(crate::ast::exprs_view(args@) =~= seq![a@]);
            },
            Option::None => {
                let r: Vec<Expression> = Vec::new();
                assert(crate::ast::exprs_view(r@) =~= Seq::<ExprV>::empty());
                assert(crate::ast::exprs_view(r@) == o.0 && self.pos() == o.1 && self.errs()
                    == o.2);
                return r;
            },
        }
        let ghost pa = self.pos();
        let ghost ea = self.errs();
        assert(sp_at_least(pa, p0 + 1) == pa);
        let ghost rest = sp_parse_args_rest(t0, pa, ea, crate::ast::exprs_view(args@));
        while self.peek_token_is(TokenType::COMMA)
            invariant
                self.wf(),
                self.toks() == t0,
                p0 < self.pos(),
                errs_extend(e0, self.errs()),
                sp_parse_args_rest(t0, self.pos(), self.errs(), crate::ast::exprs_view(args@))
                    == rest,
            decreases self.toks().len() - self.pos(),
        {
            let ghost pi = self.pos();
            proof {
                assert(pi < t0.len() - 1);
            }
            self.next_token();
            assert(self.pos() == pi + 1);
            self.next_token();
            let ghost pj = self.pos();
            assert(pj == sp_next_at(t0, pi + 1));
            match self.parse_expression(PREC_LOWEST) {
                Option::Some(a) => {
                    proof {
                        crate::ast::lemma_exprs_view_push(args@, a);
                        assert(sp_at_least(self.pos(), sp_at_least(pj, pi + 1)) == self.pos());
                    }
                    args.push(a);
                },
                Option::None => {
                    let r: Vec<Expression> = Vec::new();
                    assert(crate::ast::exprs_view(r@) =~= Seq::<ExprV>::empty());
                    assert(crate::ast::exprs_view(r@) == o.0 && self.pos() == o.1 && self.errs()
                        == o.2);
                    return r;
                },
            }
        }
        assert(rest == (
            Option::Some(crate::ast::exprs_view(args@)),
            self.pos(),
            self.errs(),
        ));
        let ghost pk = self.pos();
        if !self.expect_peek(TokenType::RPAREN) {
            let r: Vec<Expression> = Vec::new();
            assert(crate::ast::exprs_view(r@) =~= Seq::<ExprV>::empty());
            assert(crate::ast::exprs_view(r@) == o.0 && self.pos() == o.1 && self.errs() == o.2);
            return r;
        }
        assert(self.pos() == sp_next_at(t0, pk));
        assert(crate::ast::exprs_view(args@) == o.0 && self.pos() == o.1 && self.errs() == o.2);
        args
    }
}

} // verus!
