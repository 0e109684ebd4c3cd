//! The abstract syntax tree: a closed family of statement and expression
//! variants, each carrying the token that introduced it.
//!
//! Every node type has a ghost view (`ExprV`, `StmtV`, ...) built from
//! `Seq` and `Seq<char>`; the printing functions are specified exactly
//! against [`expr_v_str`] and friends, which render the canonical fully
//! parenthesized form.

use vstd::prelude::*;

use crate::strutil::{append_str, push_char};
use crate::token::{Token, TokenV};

verus! {

/// Discriminates the node variants, mirroring the closed AST family.
#[allow(non_camel_case_types)]
#[derive(Debug, PartialEq, Eq, Structural, Clone, Copy)]
pub enum NodeType {
    PROGRAM,
    LET_STATEMENT,
    RETURN_STATEMENT,
    EXPRESSION_STATEMENT,
    INTEGER_LITERAL,
    STRING_LITERAL,
    PREFIX_EXPRESSION,
    INFIX_EXPRESSION,
    BOOLEAN,
    IF_EXPRESSION,
    BLOCK_STATEMENT,
    FUNCTION_LITERAL,
    CALL_EXPRESSION,
    IDENTIFIER,
}

// ----------------------------------------------------------------------
// Executable node types
// ----------------------------------------------------------------------

#[derive(Debug)]
pub struct Identifier {
    pub token: Token,
    pub value: String,
}

#[derive(Debug)]
pub struct IntegerLiteral {
    pub token: Token,
    pub value: i64,
}

#[derive(Debug)]
pub struct StringLiteral {
    pub token: Token,
    pub value: String,
}

#[derive(Debug)]
pub struct Boolean {
    pub token: Token,
    pub value: bool,
}

#[derive(Debug)]
pub struct PrefixExpression {
    pub token: Token,
    pub operator: String,
    pub right: Box<Expression>,
}

#[derive(Debug)]
pub struct InfixExpression {
    pub token: Token,
    pub left: Box<Expression>,
    pub operator: String,
    pub right: Box<Expression>,
}

#[derive(Debug)]
pub struct IfExpression {
    pub token: Token,
    pub condition: Box<Expression>,
    pub consequence: BlockStatement,
    pub alternative: Option<BlockStatement>,
}

#[derive(Debug)]
pub struct FunctionLiteral {
    pub token: Token,
    pub parameters: Vec<Identifier>,
    pub body: BlockStatement,
}

#[derive(Debug)]
pub struct CallExpression {
    pub token: Token,
    pub function: Box<Expression>,
    pub arguments: Vec<Expression>,
}

/// The closed family of expressions.
#[derive(Debug)]
pub enum Expression {
    Ident(Identifier),
    IntLit(IntegerLiteral),
    StrLit(StringLiteral),
    BoolLit(Boolean),
    Prefix(PrefixExpression),
    Infix(InfixExpression),
    If(IfExpression),
    Func(FunctionLiteral),
    Call(CallExpression),
}

#[derive(Debug)]
pub struct LetStatement {
    pub token: Token,
    pub name: Identifier,
    pub value: Option<Expression>,
}

#[derive(Debug)]
pub struct ReturnStatement {
    pub token: Token,
    pub return_value: Option<Expression>,
}

#[derive(Debug)]
pub struct ExpressionStatement {
    pub token: Token,
    pub expression: Option<Expression>,
}

#[derive(Debug)]
pub struct BlockStatement {
    pub token: Token,
    pub statements: Vec<Statement>,
}

/// The closed family of statements.
#[derive(Debug)]
pub enum Statement {
    Let(LetStatement),
    Return(ReturnStatement),
    Expr(ExpressionStatement),
    Block(BlockStatement),
}

/// The top-level container: an ordered sequence of statements.
#[derive(Debug)]
pub struct Program {
    pub statements: Vec<Statement>,
}

// ----------------------------------------------------------------------
// Ghost views
// ----------------------------------------------------------------------

pub struct IdentifierV {
    pub token: TokenV,
    pub value: Seq<char>,
}

/// The mathematical model of an expression.
pub enum ExprV {
    Ident(IdentifierV),
    IntLit { token: TokenV, value: i64 },
    StrLit { token: TokenV, value: Seq<char> },
    BoolLit { token: TokenV, value: bool },
    Prefix { token: TokenV, operator: Seq<char>, right: Box<ExprV> },
    Infix { token: TokenV, left: Box<ExprV>, operator: Seq<char>, right: Box<ExprV> },
    If { token: TokenV, condition: Box<ExprV>, consequence: BlockV, alternative: Option<BlockV> },
    Func { token: TokenV, parameters: Seq<IdentifierV>, body: BlockV },
    Call { token: TokenV, function: Box<ExprV>, arguments: Seq<ExprV> },
}

pub struct BlockV {
    pub token: TokenV,
    pub statements: Seq<StmtV>,
}

/// The mathematical model of a statement.
pub enum StmtV {
    Let { token: TokenV, name: IdentifierV, value: Option<ExprV> },
    Ret { token: TokenV, value: Option<ExprV> },
    Expr { token: TokenV, expression: Option<ExprV> },
    Block(BlockV),
}

pub struct ProgramV {
    pub statements: Seq<StmtV>,
}

impl View for Identifier {
    type V = IdentifierV;

    open spec fn view(&self) -> IdentifierV {
        IdentifierV { token: self.token@, value: self.value@ }
    }
}

pub open spec fn expr_view(e: Expression) -> ExprV
    decreases e,
{
    match e {
        Expression::Ident(i) => ExprV::Ident(i@),
        Expression::IntLit(n) => ExprV::IntLit { token: n.token@, value: n.value },
        Expression::StrLit(s) => ExprV::StrLit { token: s.token@, value: s.value@ },
        Expression::BoolLit(b) => ExprV::BoolLit { token: b.token@, value: b.value },
        Expression::Prefix(p) => ExprV::Prefix {
            token: p.token@,
            operator: p.operator@,
            right: Box::new(expr_view(*p.right)),
        },
        Expression::Infix(ix) => ExprV::Infix {
            token: ix.token@,
            left: Box::new(expr_view(*ix.left)),
            operator: ix.operator@,
            right: Box::new(expr_view(*ix.right)),
        },
        Expression::If(i) => ExprV::If {
            token: i.token@,
            condition: Box::new(expr_view(*i.condition)),
            consequence: block_view(i.consequence),
            alternative: match i.alternative {
                Option::Some(a) => Option::Some(block_view(a)),
                Option::None => Option::None,
            },
        },
        Expression::Func(f) => ExprV::Func {
            token: f.token@,
            parameters: f.parameters@.map_values(|p: Identifier| p@),
            body: block_view(f.body),
        },
        Expression::Call(c) => ExprV::Call {
            token: c.token@,
            function: Box::new(expr_view(*c.function)),
            arguments: exprs_view(c.arguments@),
        },
    }
}

pub open spec fn exprs_view(v: Seq<Expression>) -> Seq<ExprV>
    decreases v,
{
    if v.len() == 0 {
        Seq::empty()
    } else {
        exprs_view(v.drop_last()).push(expr_view(v.last()))
    }
}

pub open spec fn opt_expr_view(o: Option<Expression>) -> Option<ExprV> {
    match o {
        Option::Some(e) => Option::Some(expr_view(e)),
        Option::None => Option::None,
    }
}

pub open spec fn opt_stmt_view(o: Option<Statement>) -> Option<StmtV> {
    match o {
        Option::Some(s) => Option::Some(stmt_view(s)),
        Option::None => Option::None,
    }
}

pub open spec fn opt_block_view(o: Option<BlockStatement>) -> Option<BlockV> {
    match o {
        Option::Some(b) => Option::Some(block_view(b)),
        Option::None => Option::None,
    }
}

pub open spec fn stmt_view(s: Statement) -> StmtV
    decreases s,
{
    match s {
        Statement::Let(l) => StmtV::Let {
            token: l.token@,
            name: l.name@,
            value: match l.value {
                Option::Some(e) => Option::Some(expr_view(e)),
                Option::None => Option::None,
            },
        },
        Statement::Return(r) => StmtV::Ret {
            token: r.token@,
            value: match r.return_value {
                Option::Some(e) => Option::Some(expr_view(e)),
                Option::None => Option::None,
            },
        },
        Statement::Expr(es) => StmtV::Expr {
            token: es.token@,
            expression: match es.expression {
                Option::Some(e) => Option::Some(expr_view(e)),
                Option::None => Option::None,
            },
        },
        Statement::Block(b) => StmtV::Block(block_view(b)),
    }
}

pub open spec fn stmts_view(v: Seq<Statement>) -> Seq<StmtV>
    decreases v,
{
    if v.len() == 0 {
        Seq::empty()
    } else {
        stmts_view(v.drop_last()).push(stmt_view(v.last()))
    }
}

pub open spec fn block_view(b: BlockStatement) -> BlockV
    decreases b,
{
    BlockV { token: b.token@, statements: stmts_view(b.statements@) }
}

impl View for Expression {
    type V = ExprV;

    open spec fn view(&self) -> ExprV {
        expr_view(*self)
    }
}

impl View for Statement {
    type V = StmtV;

    open spec fn view(&self) -> StmtV {
        stmt_view(*self)
    }
}

impl View for BlockStatement {
    type V = BlockV;

    open spec fn view(&self) -> BlockV {
        block_view(*self)
    }
}

impl View for Program {
    type V = ProgramV;

    open spec fn view(&self) -> ProgramV {
        ProgramV { statements: stmts_view(self.statements@) }
    }
}

impl View for LetStatement {
    type V = StmtV;

    open spec fn view(&self) -> StmtV {
        stmt_view(Statement::Let(*self))
    }
}

impl View for ReturnStatement {
    type V = StmtV;

    open spec fn view(&self) -> StmtV {
        stmt_view(Statement::Return(*self))
    }
}

impl View for ExpressionStatement {
    type V = StmtV;

    open spec fn view(&self) -> StmtV {
        stmt_view(Statement::Expr(*self))
    }
}

/// [`exprs_view`] of a sequence one longer extends that of the shorter.
pub proof fn lemma_exprs_view_push(v: Seq<Expression>, e: Expression)
    ensures
        exprs_view(v.push(e)) == exprs_view(v).push(expr_view(e)),
{
    assert(v.push(e).drop_last() =~= v);
    assert(v.push(e).last() == e);
}

/// [`stmts_view`] of a sequence one longer extends that of the shorter.
pub proof fn lemma_stmts_view_push(v: Seq<Statement>, s: Statement)
    ensures
        stmts_view(v.push(s)) == stmts_view(v).push(stmt_view(s)),
{
    assert(v.push(s).drop_last() =~= v);
    assert(v.push(s).last() == s);
}

/// Element-wise reading of [`exprs_view`].
pub proof fn lemma_exprs_view_index(v: Seq<Expression>)
    ensures
        exprs_view(v).len() == v.len(),
        forall|i: int| 0 <= i < v.len() ==> exprs_view(v)[i] == expr_view(#[trigger] v[i]),
    decreases v,
{
    if v.len() > 0 {
        lemma_exprs_view_index(v.drop_last());
        assert(forall|i: int|
            0 <= i < v.len() - 1 ==> v.drop_last()[i] == #[trigger] v[i]);
    }
}

/// Element-wise reading of [`stmts_view`].
pub proof fn lemma_stmts_view_index(v: Seq<Statement>)
    ensures
        stmts_view(v).len() == v.len(),
        forall|i: int| 0 <= i < v.len() ==> stmts_view(v)[i] == stmt_view(#[trigger] v[i]),
    decreases v,
{
    if v.len() > 0 {
        lemma_stmts_view_index(v.drop_last());
        assert(forall|i: int|
            0 <= i < v.len() - 1 ==> v.drop_last()[i] == #[trigger] v[i]);
    }
}

impl View for IntegerLiteral {
    type V = ExprV;

    open spec fn view(&self) -> ExprV {
        expr_view(Expression::IntLit(*self))
    }
}

impl View for StringLiteral {
    type V = ExprV;

    open spec fn view(&self) -> ExprV {
        expr_view(Expression::StrLit(*self))
    }
}

impl View for Boolean {
    type V = ExprV;

    open spec fn view(&self) -> ExprV {
        expr_view(Expression::BoolLit(*self))
    }
}

impl View for PrefixExpression {
    type V = ExprV;

    open spec fn view(&self) -> ExprV {
        expr_view(Expression::Prefix(*self))
    }
}

impl View for InfixExpression {
    type V = ExprV;

    open spec fn view(&self) -> ExprV {
        expr_view(Expression::Infix(*self))
    }
}

impl View for IfExpression {
    type V = ExprV;

    open spec fn view(&self) -> ExprV {
        expr_view(Expression::If(*self))
    }
}

impl View for FunctionLiteral {
    type V = ExprV;

    open spec fn view(&self) -> ExprV {
        expr_view(Expression::Func(*self))
    }
}

impl View for CallExpression {
    type V = ExprV;

    open spec fn view(&self) -> ExprV {
        expr_view(Expression::Call(*self))
    }
}

// ----------------------------------------------------------------------
// Printing: the canonical rendering of nodes
// ----------------------------------------------------------------------

/// The literal of the token that introduced a statement.
pub open spec fn stmt_token_lit(s: StmtV) -> Seq<char> {
    match s {
        StmtV::Let { token, .. } => token.literal,
        StmtV::Ret { token, .. } => token.literal,
        StmtV::Expr { token, .. } => token.literal,
        StmtV::Block(b) => b.token.literal,
    }
}

/// The printed form of an expression. Prefix and infix nodes are fully
/// parenthesized, so the rendering makes the parse tree's grouping
/// explicit.
pub open spec fn expr_v_str(e: ExprV) -> Seq<char>
    decreases e, 0int,
{
    match e {
        ExprV::Ident(i) => i.value,
        ExprV::IntLit { token, .. } => token.literal,
        ExprV::StrLit { token, .. } => seq!['"'] + token.literal + seq!['"'],
        ExprV::BoolLit { token, .. } => token.literal,
        ExprV::Prefix { operator, right, .. } => seq!['('] + operator + expr_v_str(*right) + seq![
            ')',
        ],
        ExprV::Infix { left, operator, right, .. } => seq!['('] + expr_v_str(*left) + seq![' ']
            + operator + seq![' '] + expr_v_str(*right) + seq![')'],
        ExprV::If { condition, consequence, alternative, .. } => "if"@ + expr_v_str(*condition)
            + seq![' '] + block_v_str(consequence) + match alternative {
            Option::Some(a) => " else "@ + block_v_str(a),
            Option::None => Seq::empty(),
        },
        ExprV::Func { token, parameters, body } => token.literal + seq!['('] + params_v_str(
            parameters,
            0,
        ) + ") "@ + block_v_str(body),
        ExprV::Call { function, arguments, .. } => expr_v_str(*function) + seq!['('] + args_v_str(
            arguments,
            0,
        ) + seq![')'],
    }
}

/// The comma-separated rendering of parameters from index `i` on.
pub open spec fn params_v_str(ps: Seq<IdentifierV>, i: int) -> Seq<char>
    decreases ps.len() - i,
{
    if i < 0 || i >= ps.len() {
        Seq::empty()
    } else {
        ps[i].value + (if i != ps.len() - 1 {
            ", "@
        } else {
            Seq::empty()
        }) + params_v_str(ps, i + 1)
    }
}

/// The comma-separated rendering of call arguments from index `i` on.
pub open spec fn args_v_str(args: Seq<ExprV>, i: int) -> Seq<char>
    decreases args, args.len() - i,
{
    if i < 0 || i >= args.len() {
        Seq::empty()
    } else {
        expr_v_str(args[i]) + (if i != args.len() - 1 {
            ", "@
        } else {
            Seq::empty()
        }) + args_v_str(args, i + 1)
    }
}

/// The printed form of a statement.
pub open spec fn stmt_v_str(s: StmtV) -> Seq<char>
    decreases s, 0int,
{
    match s {
        StmtV::Let { token, name, value } => token.literal + seq![' '] + name.value + " = "@
            + (match value {
            Option::Some(e) => expr_v_str(e),
            Option::None => Seq::empty(),
        }) + seq![';'],
        StmtV::Ret { token, value } => token.literal + seq![' '] + (match value {
            Option::Some(e) => expr_v_str(e),
            Option::None => Seq::empty(),
        }) + seq![';'],
        StmtV::Expr { expression, .. } => match expression {
            Option::Some(e) => expr_v_str(e),
            Option::None => Seq::empty(),
        },
        StmtV::Block(b) => block_v_str(b),
    }
}

/// The concatenated rendering of statements from index `i` on.
pub open spec fn stmts_v_str(ss: Seq<StmtV>, i: int) -> Seq<char>
    decreases ss, ss.len() - i,
{
    if i < 0 || i >= ss.len() {
        Seq::empty()
    } else {
        stmt_v_str(ss[i]) + stmts_v_str(ss, i + 1)
    }
}

/// The printed form of a block: its statements between braces.
pub open spec fn block_v_str(b: BlockV) -> Seq<char>
    decreases b, 1int,
{
    seq!['{'] + stmts_v_str(b.statements, 0) + seq!['}']
}

/// The printed form of a whole program: its statements in order.
pub open spec fn program_v_str(p: ProgramV) -> Seq<char> {
    stmts_v_str(p.statements, 0)
}

impl Identifier {
    pub fn token_literal(&self) -> (r: String)
        ensures
            r@ == self.token@.literal,
    {
        self.token.literal.clone()
    }

    pub fn to_string(&self) -> (r: String)
        ensures
            r@ == expr_v_str(ExprV::Ident(self@)),
    {
        self.value.clone()
    }

    pub fn node_type(&self) -> (n: NodeType)
        ensures
            n == NodeType::IDENTIFIER,
    {
        NodeType::IDENTIFIER
    }

    pub fn duplicate(&self) -> (r: Identifier)
        ensures
            r@ == self@,
    {
        Identifier { token: self.token.duplicate(), value: self.value.clone() }
    }
}

impl IntegerLiteral {
    pub fn token_literal(&self) -> (r: String)
        ensures
            r@ == self.token@.literal,
    {
        self.token.literal.clone()
    }

    pub fn to_string(&self) -> (r: String)
        ensures
            r@ == expr_v_str(self@),
    {
        self.token.literal.clone()
    }

    pub fn node_type(&self) -> (n: NodeType)
        ensures
            n == NodeType::INTEGER_LITERAL,
    {
        NodeType::INTEGER_LITERAL
    }
}

impl StringLiteral {
    pub fn token_literal(&self) -> (r: String)
        ensures
            r@ == self.token@.literal,
    {
        self.token.literal.clone()
    }

    pub fn to_string(&self) -> (r: String)
        ensures
            r@ == expr_v_str(self@),
    {
        let mut out = String::new();
        push_char(&mut out, '"');
        append_str(&mut out, self.token.literal.as_str());
        push_char(&mut out, '"');
        assert(out@ =~= expr_v_str(self@));
        out
    }

    pub fn node_type(&self) -> (n: NodeType)
        ensures
            n == NodeType::STRING_LITERAL,
    {
        NodeType::STRING_LITERAL
    }
}

impl Boolean {
    pub fn token_literal(&self) -> (r: String)
        ensures
            r@ == self.token@.literal,
    {
        self.token.literal.clone()
    }

    pub fn to_string(&self) -> (r: String)
        ensures
            r@ == expr_v_str(self@),
    {
        self.token.literal.clone()
    }

    pub fn node_type(&self) -> (n: NodeType)
        ensures
            n == NodeType::BOOLEAN,
    {
        NodeType::BOOLEAN
    }
}

impl PrefixExpression {
    pub fn token_literal(&self) -> (r: String)
        ensures
            r@ == self.token@.literal,
    {
        self.token.literal.clone()
    }

    pub fn to_string(&self) -> (r: String)
        ensures
            r@ == expr_v_str(self@),
        decreases *self,
    {
        let mut out = String::new();
        push_char(&mut out, '(');
        append_str(&mut out, self.operator.as_str());
        let rs = self.right.to_string();
        append_str(&mut out, rs.as_str());
        push_char(&mut out, ')');
        assert(out@ =~= expr_v_str(self@));
        out
    }

    pub fn node_type(&self) -> (n: NodeType)
        ensures
            n == NodeType::PREFIX_EXPRESSION,
    {
        NodeType::PREFIX_EXPRESSION
    }
}

impl InfixExpression {
    pub fn token_literal(&self) -> (r: String)
        ensures
            r@ == self.token@.literal,
    {
        self.token.literal.clone()
    }

    pub fn to_string(&self) -> (r: String)
        ensures
            r@ == expr_v_str(self@),
        decreases *self,
    {
        let mut out = String::new();
        push_char(&mut out, '(');
        let ls = self.left.to_string();
        append_str(&mut out, ls.as_str());
        push_char(&mut out, ' ');
        append_str(&mut out, self.operator.as_str());
        push_char(&mut out, ' ');
        let rs = self.right.to_string();
        append_str(&mut out, rs.as_str());
        push_char(&mut out, ')');
        assert(out@ =~= expr_v_str(self@));
        out
    }

    pub fn node_type(&self) -> (n: NodeType)
        ensures
            n == NodeType::INFIX_EXPRESSION,
    {
        NodeType::INFIX_EXPRESSION
    }
}

impl IfExpression {
    pub fn token_literal(&self) -> (r: String)
        ensures
            r@ == self.token@.literal,
    {
        self.token.literal.clone()
    }

    pub fn to_string(&self) -> (r: String)
        ensures
            r@ == expr_v_str(self@),
        decreases *self,
    {
        let mut out = String::new();
        append_str(&mut out, "if");
        let cs = self.condition.to_string();
        append_str(&mut out, cs.as_str());
        push_char(&mut out, ' ');
        let bs = self.consequence.to_string();
        append_str(&mut out, bs.as_str());
        if let Option::Some(alt) = &self.alternative {
            append_str(&mut out, " else ");
            let als = alt.to_string();
            append_str(&mut out, als.as_str());
        }
        assert(out@ =~= expr_v_str(self@));
        out
    }

    pub fn node_type(&self) -> (n: NodeType)
        ensures
            n == NodeType::IF_EXPRESSION,
    {
        NodeType::IF_EXPRESSION
    }
}

impl FunctionLiteral {
    pub fn token_literal(&self) -> (r: String)
        ensures
            r@ == self.token@.literal,
    {
        self.token.literal.clone()
    }

    pub fn to_string(&self) -> (r: String)
        ensures
            r@ == expr_v_str(self@),
        decreases *self,
    {
        let ghost psv = self.parameters@.map_values(|p: Identifier| p@);
        let mut out = String::new();
        append_str(&mut out, self.token.literal.as_str());
        push_char(&mut out, '(');
        let ghost base = out@;
        let n = self.parameters.len();
        let mut i: usize = 0;
        while i < n
            invariant
                n == self.parameters.len(),
                i <= n,
                psv == self.parameters@.map_values(|p: Identifier| p@),
                out@ + params_v_str(psv, i as int) == base + params_v_str(psv, 0),
            decreases n - i,
        {
            let ps = self.parameters[i].to_string();
            append_str(&mut out, ps.as_str());
            if i != n - 1 {
                append_str(&mut out, ", ");
            }
            proof {
                assert(params_v_str(psv, i as int) == psv[i as int].value + (if i != n - 1 {
                    ", "@
                } else {
                    Seq::<char>::empty()
                }) + params_v_str(psv, i + 1));
                assert(out@ + params_v_str(psv, i + 1) =~= base + params_v_str(psv, 0));
            }
            i = i + 1;
        }
        append_str(&mut out, ") ");
        let bs = self.body.to_string();
        append_str(&mut out, bs.as_str());
        assert(out@ =~= expr_v_str(self@));
        out
    }

    pub fn node_type(&self) -> (n: NodeType)
        ensures
            n == NodeType::FUNCTION_LITERAL,
    {
        NodeType::FUNCTION_LITERAL
    }
}

impl CallExpression {
    pub fn token_literal(&self) -> (r: String)
        ensures
            r@ == self.token@.literal,
    {
        self.token.literal.clone()
    }

    pub fn to_string(&self) -> (r: String)
        ensures
            r@ == expr_v_str(self@),
        decreases *self,
    {
        let ghost argv = exprs_view(self.arguments@);
        proof {
            lemma_exprs_view_index(self.arguments@);
        }
        let fs = self.function.to_string();
        let mut out = String::new();
        append_str(&mut out, fs.as_str());
        push_char(&mut out, '(');
        let ghost base = out@;
        let n = self.arguments.len();
        let mut i: usize = 0;
        while i < n
            invariant
                n == self.arguments.len(),
                i <= n,
                argv == exprs_view(self.arguments@),
                argv.len() == n,
                forall|j: int| 0 <= j < n ==> argv[j] == expr_view(#[trigger] self.arguments@[j]),
                out@ + args_v_str(argv, i as int) == base + args_v_str(argv, 0),
            decreases n - i,
        {
            let es = self.arguments[i].to_string();
            append_str(&mut out, es.as_str());
            if i != n - 1 {
                append_str(&mut out, ", ");
            }
            proof {
                assert(args_v_str(argv, i as int) == expr_v_str(argv[i as int]) + (if i != n - 1 {
                    ", "@
                } else {
                    Seq::<char>::empty()
                }) + args_v_str(argv, i + 1));
                assert(out@ + args_v_str(argv, i + 1) =~= base + args_v_str(argv, 0));
            }
            i = i + 1;
        }
        push_char(&mut out, ')');
        assert(out@ =~= expr_v_str(self@));
        out
    }

    pub fn node_type(&self) -> (n: NodeType)
        ensures
            n == NodeType::CALL_EXPRESSION,
    {
        NodeType::CALL_EXPRESSION
    }
}

impl Expression {
    pub fn token_literal(&self) -> (r: String)
        ensures
            r@ == match self@ {
                ExprV::Ident(i) => i.token.literal,
                ExprV::IntLit { token, .. } => token.literal,
                ExprV::StrLit { token, .. } => token.literal,
                ExprV::BoolLit { token, .. } => token.literal,
                ExprV::Prefix { token, .. } => token.literal,
                ExprV::Infix { token, .. } => token.literal,
                ExprV::If { token, .. } => token.literal,
                ExprV::Func { token, .. } => token.literal,
                ExprV::Call { token, .. } => token.literal,
            },
    {
        match self {
            Expression::Ident(i) => i.token_literal(),
            Expression::IntLit(n) => n.token_literal(),
            Expression::StrLit(s) => s.token_literal(),
            Expression::BoolLit(b) => b.token_literal(),
            Expression::Prefix(p) => p.token_literal(),
            Expression::Infix(ix) => ix.token_literal(),
            Expression::If(i) => i.token_literal(),
            Expression::Func(f) => f.token_literal(),
            Expression::Call(c) => c.token_literal(),
        }
    }

    pub fn to_string(&self) -> (r: String)
        ensures
            r@ == expr_v_str(self@),
        decreases *self,
    {
        match self {
            Expression::Ident(i) => i.to_string(),
            Expression::IntLit(n) => n.to_string(),
            Expression::StrLit(s) => s.to_string(),
            Expression::BoolLit(b) => b.to_string(),
            Expression::Prefix(p) => p.to_string(),
            Expression::Infix(ix) => ix.to_string(),
            Expression::If(i) => i.to_string(),
            Expression::Func(f) => f.to_string(),
            Expression::Call(c) => c.to_string(),
        }
    }

    pub fn node_type(&self) -> (n: NodeType)
        ensures
            n == match self@ {
                ExprV::Ident(_) => NodeType::IDENTIFIER,
                ExprV::IntLit { .. } => NodeType::INTEGER_LITERAL,
                ExprV::StrLit { .. } => NodeType::STRING_LITERAL,
                ExprV::BoolLit { .. } => NodeType::BOOLEAN,
                ExprV::Prefix { .. } => NodeType::PREFIX_EXPRESSION,
                ExprV::Infix { .. } => NodeType::INFIX_EXPRESSION,
                ExprV::If { .. } => NodeType::IF_EXPRESSION,
                ExprV::Func { .. } => NodeType::FUNCTION_LITERAL,
                ExprV::Call { .. } => NodeType::CALL_EXPRESSION,
            },
    {
        match self {
            Expression::Ident(i) => i.node_type(),
            Expression::IntLit(n) => n.node_type(),
            Expression::StrLit(s) => s.node_type(),
            Expression::BoolLit(b) => b.node_type(),
            Expression::Prefix(p) => p.node_type(),
            Expression::Infix(ix) => ix.node_type(),
            Expression::If(i) => i.node_type(),
            Expression::Func(f) => f.node_type(),
            Expression::Call(c) => c.node_type(),
        }
    }

    /// A deep copy equal to this expression in the model.
    pub fn duplicate(&self) -> (r: Expression)
        ensures
            r@ == self@,
        decreases *self,
    {
        match self {
            Expression::Ident(i) => Expression::Ident(i.duplicate()),
            Expression::IntLit(n) => Expression::IntLit(
                IntegerLiteral { token: n.token.duplicate(), value: n.value },
            ),
            Expression::StrLit(s) => Expression::StrLit(
                StringLiteral { token: s.token.duplicate(), value: s.value.clone() },
            ),
            Expression::BoolLit(b) => Expression::BoolLit(
                Boolean { token: b.token.duplicate(), value: b.value },
            ),
            Expression::Prefix(p) => Expression::Prefix(
                PrefixExpression {
                    token: p.token.duplicate(),
                    operator: p.operator.clone(),
                    right: Box::new(p.right.duplicate()),
                },
            ),
            Expression::Infix(ix) => Expression::Infix(
                InfixExpression {
                    token: ix.token.duplicate(),
                    left: Box::new(ix.left.duplicate()),
                    operator: ix.operator.clone(),
                    right: Box::new(ix.right.duplicate()),
                },
            ),
            Expression::If(i) => Expression::If(
                IfExpression {
                    token: i.token.duplicate(),
                    condition: Box::new(i.condition.duplicate()),
                    consequence: i.consequence.duplicate(),
                    alternative: match &i.alternative {
                        Option::Some(a) => Option::Some(a.duplicate()),
                        Option::None => Option::None,
                    },
                },
            ),
            Expression::Func(f) => Expression::Func(
                FunctionLiteral {
                    token: f.token.duplicate(),
                    parameters: duplicate_identifiers(&f.parameters),
                    body: f.body.duplicate(),
                },
            ),
            Expression::Call(c) => Expression::Call(
                CallExpression {
                    token: c.token.duplicate(),
                    function: Box::new(c.function.duplicate()),
                    arguments: duplicate_expressions(&c.arguments),
                },
            ),
        }
    }
}

/// Deep copies of an expression list, equal to it in the model.
pub fn duplicate_expressions(v: &Vec<Expression>) -> (r: Vec<Expression>)
    ensures
        exprs_view(r@) == exprs_view(v@),
    decreases *v,
{
    let mut r: Vec<Expression> = Vec::new();
    let mut i: usize = 0;
    while i < v.len()
        invariant
            i <= v.len(),
            r@.len() == i,
            forall|j: int| 0 <= j < i ==> expr_view(r@[j]) == expr_view(#[trigger] v@[j]),
        decreases v.len() - i,
    {
        let d = v[i].duplicate();
        r.push(d);
        i = i + 1;
    }
    proof {
        lemma_exprs_view_agree(r@, v@);
    }
    r
}

/// If two expression sequences agree element-wise in the model, their
/// sequence views are equal.
pub proof fn lemma_exprs_view_agree(a: Seq<Expression>, b: Seq<Expression>)
    requires
        a.len() == b.len(),
        forall|j: int| 0 <= j < a.len() ==> expr_view(#[trigger] a[j]) == expr_view(b[j]),
    ensures
        exprs_view(a) == exprs_view(b),
    decreases a,
{
    if a.len() > 0 {
        lemma_exprs_view_agree(a.drop_last(), b.drop_last());
    }
}

/// If two statement sequences agree element-wise in the model, their
/// sequence views are equal.
pub proof fn lemma_stmts_view_agree(a: Seq<Statement>, b: Seq<Statement>)
    requires
        a.len() == b.len(),
        forall|j: int| 0 <= j < a.len() ==> stmt_view(#[trigger] a[j]) == stmt_view(b[j]),
    ensures
        stmts_view(a) == stmts_view(b),
    decreases a,
{
    if a.len() > 0 {
        lemma_stmts_view_agree(a.drop_last(), b.drop_last());
    }
}

/// Deep copies of a parameter list, equal to it in the model.
pub fn duplicate_identifiers(v: &Vec<Identifier>) -> (r: Vec<Identifier>)
    ensures
        r@.map_values(|p: Identifier| p@) == v@.map_values(|p: Identifier| p@),
{
    let mut r: Vec<Identifier> = Vec::new();
    let mut i: usize = 0;
    while i < v.len()
        invariant
            i <= v.len(),
            r@.len() == i,
            forall|j: int| 0 <= j < i ==> r@[j]@ == #[trigger] v@[j]@,
        decreases v.len() - i,
    {
        let d = v[i].duplicate();
        r.push(d);
        i = i + 1;
    }
    assert(r@.map_values(|p: Identifier| p@) =~= v@.map_values(|p: Identifier| p@));
    r
}

impl LetStatement {
    pub fn token_literal(&self) -> (r: String)
        ensures
            r@ == self.token@.literal,
    {
        self.token.literal.clone()
    }

    pub fn to_string(&self) -> (r: String)
        ensures
            r@ == stmt_v_str(self@),
        decreases *self,
    {
        let mut out = String::new();
        append_str(&mut out, self.token.literal.as_str());
        push_char(&mut out, ' ');
        append_str(&mut out, self.name.value.as_str());
        append_str(&mut out, " = ");
        if let Option::Some(e) = &self.value {
            let es = e.to_string();
            append_str(&mut out, es.as_str());
        }
        push_char(&mut out, ';');
        assert(out@ =~= stmt_v_str(self@));
        out
    }

    pub fn node_type(&self) -> (n: NodeType)
        ensures
            n == NodeType::LET_STATEMENT,
    {
        NodeType::LET_STATEMENT
    }
}

impl ReturnStatement {
    pub fn token_literal(&self) -> (r: String)
        ensures
            r@ == self.token@.literal,
    {
        self.token.literal.clone()
    }

    pub fn to_string(&self) -> (r: String)
        ensures
            r@ == stmt_v_str(self@),
        decreases *self,
    {
        let mut out = String::new();
        append_str(&mut out, self.token.literal.as_str());
        push_char(&mut out, ' ');
        if let Option::Some(e) = &self.return_value {
            let es = e.to_string();
            append_str(&mut out, es.as_str());
        }
        push_char(&mut out, ';');
        assert(out@ =~= stmt_v_str(self@));
        out
    }

    pub fn node_type(&self) -> (n: NodeType)
        ensures
            n == NodeType::RETURN_STATEMENT,
    {
        NodeType::RETURN_STATEMENT
    }
}

impl ExpressionStatement {
    pub fn token_literal(&self) -> (r: String)
        ensures
            r@ == self.token@.literal,
    {
        self.token.literal.clone()
    }

    pub fn to_string(&self) -> (r: String)
        ensures
            r@ == stmt_v_str(self@),
        decreases *self,
    {
        if let Option::Some(e) = &self.expression {
            e.to_string()
        } else {
            String::new()
        }
    }

    pub fn node_type(&self) -> (n: NodeType)
        ensures
            n == NodeType::EXPRESSION_STATEMENT,
    {
        NodeType::EXPRESSION_STATEMENT
    }
}

impl BlockStatement {
    pub fn token_literal(&self) -> (r: String)
        ensures
            r@ == self.token@.literal,
    {
        self.token.literal.clone()
    }

    pub fn to_string(&self) -> (r: String)
        ensures
            r@ == block_v_str(self@),
        decreases *self,
    {
        let ghost ssv = stmts_view(self.statements@);
        proof {
            lemma_stmts_view_index(self.statements@);
        }
        let mut out = String::new();
        push_char(&mut out, '{');
        let ghost base = out@;
        let n = self.statements.len();
        let mut i: usize = 0;
        while i < n
            invariant
                n == self.statements.len(),
                i <= n,
                ssv == stmts_view(self.statements@),
                ssv.len() == n,
                forall|j: int| 0 <= j < n ==> ssv[j] == stmt_view(#[trigger] self.statements@[j]),
                out@ + stmts_v_str(ssv, i as int) == base + stmts_v_str(ssv, 0),
            decreases n - i,
        {
            let ss = self.statements[i].to_string();
            append_str(&mut out, ss.as_str());
            proof {
                assert(stmts_v_str(ssv, i as int) == stmt_v_str(ssv[i as int]) + stmts_v_str(
                    ssv,
                    i + 1,
                ));
                assert(out@ + stmts_v_str(ssv, i + 1) =~= base + stmts_v_str(ssv, 0));
            }
            i = i + 1;
        }
        push_char(&mut out, '}');
        assert(out@ =~= block_v_str(self@));
        out
    }

    pub fn node_type(&self) -> (n: NodeType)
        ensures
            n == NodeType::BLOCK_STATEMENT,
    {
        NodeType::BLOCK_STATEMENT
    }

    /// A deep copy equal to this block in the model.
    pub fn duplicate(&self) -> (r: BlockStatement)
        ensures
            r@ == self@,
        decreases *self,
    {
        let mut statements: Vec<Statement> = Vec::new();
        let n = self.statements.len();
        let mut i: usize = 0;
        while i < n
            invariant
                n == self.statements.len(),
                i <= n,
                statements@.len() == i,
                forall|j: int|
                    0 <= j < i ==> stmt_view(statements@[j]) == stmt_view(
                        #[trigger] self.statements@[j],
                    ),
            decreases n - i,
        {
            let d = self.statements[i].duplicate();
            statements.push(d);
            i = i + 1;
        }
        proof {
            lemma_stmts_view_agree(statements@, self.statements@);
        }
        BlockStatement { token: self.token.duplicate(), statements }
    }
}

impl Statement {
    pub fn token_literal(&self) -> (r: String)
        ensures
            r@ == stmt_token_lit(self@),
    {
        match self {
            Statement::Let(l) => l.token_literal(),
            Statement::Return(r) => r.token_literal(),
            Statement::Expr(e) => e.token_literal(),
            Statement::Block(b) => b.token_literal(),
        }
    }

    pub fn to_string(&self) -> (r: String)
        ensures
            r@ == stmt_v_str(self@),
        decreases *self,
    {
        match self {
            Statement::Let(l) => l.to_string(),
            Statement::Return(r) => r.to_string(),
            Statement::Expr(e) => e.to_string(),
            Statement::Block(b) => b.to_string(),
        }
    }

    pub fn node_type(&self) -> (n: NodeType)
        ensures
            n == match self@ {
                StmtV::Let { .. } => NodeType::LET_STATEMENT,
                StmtV::Ret { .. } => NodeType::RETURN_STATEMENT,
                StmtV::Expr { .. } => NodeType::EXPRESSION_STATEMENT,
                StmtV::Block(_) => NodeType::BLOCK_STATEMENT,
            },
    {
        match self {
            Statement::Let(l) => l.node_type(),
            Statement::Return(r) => r.node_type(),
            Statement::Expr(e) => e.node_type(),
            Statement::Block(b) => b.node_type(),
        }
    }

    /// A deep copy equal to this statement in the model.
    pub fn duplicate(&self) -> (r: Statement)
        ensures
            r@ == self@,
        decreases *self,
    {
        match self {
            Statement::Let(l) => Statement::Let(
                LetStatement {
                    token: l.token.duplicate(),
                    name: l.name.duplicate(),
                    value: match &l.value {
                        Option::Some(e) => Option::Some(e.duplicate()),
                        Option::None => Option::None,
                    },
                },
            ),
            Statement::Return(r) => Statement::Return(
                ReturnStatement {
                    token: r.token.duplicate(),
                    return_value: match &r.return_value {
                        Option::Some(e) => Option::Some(e.duplicate()),
                        Option::None => Option::None,
                    },
                },
            ),
            Statement::Expr(es) => Statement::Expr(
                ExpressionStatement {
                    token: es.token.duplicate(),
                    expression: match &es.expression {
                        Option::Some(e) => Option::Some(e.duplicate()),
                        Option::None => Option::None,
                    },
                },
            ),
            Statement::Block(b) => Statement::Block(b.duplicate()),
        }
    }
}

impl Program {
    pub fn token_literal(&self) -> (r: String)
        ensures
            r@ == if self@.statements.len() > 0 {
                stmt_token_lit(self@.statements[0])
            } else {
                Seq::<char>::empty()
            },
    {
        proof {
            lemma_stmts_view_index(self.statements@);
        }
        if self.statements.len() > 0 {
            self.statements[0].token_literal()
        } else {
            String::new()
        }
    }

    pub fn to_string(&self) -> (r: String)
        ensures
            r@ == program_v_str(self@),
    {
        let ghost ssv = stmts_view(self.statements@);
        proof {
            lemma_stmts_view_index(self.statements@);
        }
        let mut out = String::new();
        let n = self.statements.len();
        let mut i: usize = 0;
        while i < n
            invariant
                n == self.statements.len(),
                i <= n,
                ssv == stmts_view(self.statements@),
                ssv.len() == n,
                forall|j: int| 0 <= j < n ==> ssv[j] == stmt_view(#[trigger] self.statements@[j]),
                out@ + stmts_v_str(ssv, i as int) == stmts_v_str(ssv, 0),
            decreases n - i,
        {
            let ss = self.statements[i].to_string();
            append_str(&mut out, ss.as_str());
            proof {
                assert(stmts_v_str(ssv, i as int) == stmt_v_str(ssv[i as int]) + stmts_v_str(
                    ssv,
                    i + 1,
                ));
                assert(out@ + stmts_v_str(ssv, i + 1) =~= stmts_v_str(ssv, 0));
            }
            i = i + 1;
        }
        assert(out@ =~= program_v_str(self@));
        out
    }

    pub fn node_type(&self) -> (n: NodeType)
        ensures
            n == NodeType::PROGRAM,
    {
        NodeType::PROGRAM
    }
}

} // verus!
