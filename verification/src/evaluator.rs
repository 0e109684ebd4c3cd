//! The tree-walking evaluator: recursive descent over the AST producing an
//! [`Object`], propagating `ReturnValue` and `Error` sentinels up through
//! statement lists and blocks.
//!
//! The semantics is pinned down by a clocked big-step interpreter over the
//! AST views ([`sp_eval_program`] and friends). The clock bounds only the
//! nesting depth of function applications; structural recursion spends no
//! fuel. Exhausting the clock yields an ordinary error value, so every
//! executable entry point is total and returns exactly what the spec
//! interpreter returns for the same fuel.
//!
//! Choices this crate fixes where the language left them open: integer
//! `+ - *` and unary `-` wrap on two's-complement overflow; division or
//! remainder by zero evaluates to an error value, and `i64::MIN / -1`
//! wraps; calling a function with too few arguments evaluates to an error
//! value; a missing optional expression (possible only in a program that
//! parsed with errors) evaluates to null, and a block's child scope is
//! opened for `if` branches and function bodies alike.

use vstd::prelude::*;

use crate::ast::{
    exprs_view, lemma_exprs_view_index, lemma_stmts_view_index, BlockStatement, BlockV,
    Expression, ExprV, Identifier, IdentifierV, Program, Statement, StmtV,
};
use crate::object::{
    env_lookup, env_set, env_wf, frame_lookup, lemma_env_lookup_wf, lemma_env_set_wf,
    lemma_obj_wf_mono, obj_type_of, obj_wf, spec_object_type_name, object_type_name, Boolean,
    Environment, Error, Frame, FrameV, Function, Integer, Null, ObjV, Object, ObjectType,
    ReturnValue, StringObj,
};
use crate::strutil::append_str;

verus! {

/// The depth of nested function applications the evaluator allows before
/// it gives up with an error value.
pub const EVAL_FUEL: u64 = 1024;

// ----------------------------------------------------------------------
// Error messages
// ----------------------------------------------------------------------

pub open spec fn msg_ident_not_found(name: Seq<char>) -> Seq<char> {
    "identifier not found: "@ + name
}

pub open spec fn msg_unknown_prefix(t: ObjectType) -> Seq<char> {
    "unknown operator: -"@ + spec_object_type_name(t)
}

pub open spec fn msg_pair(
    head: Seq<char>,
    l: ObjectType,
    op: Seq<char>,
    r: ObjectType,
) -> Seq<char> {
    head + spec_object_type_name(l) + seq![' '] + op + seq![' '] + spec_object_type_name(r)
}

pub open spec fn msg_not_a_function(t: ObjectType) -> Seq<char> {
    "not a function: "@ + spec_object_type_name(t)
}

pub open spec fn msg_division_by_zero() -> Seq<char> {
    "division by zero"@
}

pub open spec fn msg_stack_overflow() -> Seq<char> {
    "stack overflow"@
}

pub open spec fn msg_wrong_arg_count() -> Seq<char> {
    "wrong number of arguments"@
}

fn build_ident_not_found(name: &str) -> (r: String)
    ensures
        r@ == msg_ident_not_found(name@),
{
    let mut out = String::new();
    append_str(&mut out, "identifier not found: ");
    append_str(&mut out, name);
    out
}

fn build_unknown_prefix(t: ObjectType) -> (r: String)
    ensures
        r@ == msg_unknown_prefix(t),
{
    let mut out = String::new();
    append_str(&mut out, "unknown operator: -");
    append_str(&mut out, object_type_name(t));
    out
}

fn build_pair(head: &str, l: ObjectType, op: &str, r: ObjectType) -> (s: String)
    ensures
        s@ == msg_pair(head@, l, op@, r),
{
    let mut out = String::new();
    append_str(&mut out, head);
    append_str(&mut out, object_type_name(l));
    crate::strutil::push_char(&mut out, ' ');
    append_str(&mut out, op);
    crate::strutil::push_char(&mut out, ' ');
    append_str(&mut out, object_type_name(r));
    out
}

fn build_not_a_function(t: ObjectType) -> (r: String)
    ensures
        r@ == msg_not_a_function(t),
{
    let mut out = String::new();
    append_str(&mut out, "not a function: ");
    append_str(&mut out, object_type_name(t));
    out
}

fn error_object(message: String) -> (r: Object)
    ensures
        r@ == ObjV::ErrV(message@),
{
    Object::Error(Error { message })
}

fn simple_error(message: &str) -> (r: Object)
    ensures
        r@ == ObjV::ErrV(message@),
{
    let mut out = String::new();
    append_str(&mut out, message);
    Object::Error(Error { message: out })
}

// ----------------------------------------------------------------------
// Pure value semantics
// ----------------------------------------------------------------------

/// Truthiness: null and false are falsy; everything else is truthy.
pub open spec fn sp_truthy(o: ObjV) -> bool {
    match o {
        ObjV::NullV => false,
        ObjV::BoolV(b) => b,
        _ => true,
    }
}

/// The `!` operator: negated truthiness, always a boolean.
pub open spec fn sp_bang(r: ObjV) -> ObjV {
    match r {
        ObjV::BoolV(b) => ObjV::BoolV(!b),
        ObjV::NullV => ObjV::BoolV(true),
        _ => ObjV::BoolV(false),
    }
}

/// The unary `-` operator: integer negation (wrapping at `i64::MIN`);
/// anything else is an error.
pub open spec fn sp_minus(r: ObjV) -> ObjV {
    match r {
        ObjV::IntV(v) => ObjV::IntV((0i64).wrapping_sub(v)),
        _ => ObjV::ErrV(msg_unknown_prefix(obj_type_of(r))),
    }
}

/// Dispatch of a prefix operator by its lexeme.
pub open spec fn sp_prefix_op(op: Seq<char>, right: ObjV) -> ObjV {
    if op == "!"@ {
        sp_bang(right)
    } else if op == "-"@ {
        sp_minus(right)
    } else {
        ObjV::NullV
    }
}

/// Integer-by-integer infix operators: `+ - * / %` yield integers
/// (wrapping; division and remainder by zero are errors), the comparisons
/// yield booleans.
pub open spec fn sp_int_infix(op: Seq<char>, a: i64, b: i64) -> ObjV {
    if op == "+"@ {
        ObjV::IntV(a.wrapping_add(b))
    } else if op == "-"@ {
        ObjV::IntV(a.wrapping_sub(b))
    } else if op == "*"@ {
        ObjV::IntV(a.wrapping_mul(b))
    } else if op == "/"@ {
        match a.checked_div(b) {
            Option::Some(q) => ObjV::IntV(q),
            Option::None => if b == 0 {
                ObjV::ErrV(msg_division_by_zero())
            } else {
                ObjV::IntV(i64::MIN)
            },
        }
    } else if op == "%"@ {
        match a.checked_rem(b) {
            Option::Some(q) => ObjV::IntV(q),
            Option::None => if b == 0 {
                ObjV::ErrV(msg_division_by_zero())
            } else {
                ObjV::IntV(0)
            },
        }
    } else if op == "<"@ {
        ObjV::BoolV(a < b)
    } else if op == ">"@ {
        ObjV::BoolV(a > b)
    } else if op == "=="@ {
        ObjV::BoolV(a == b)
    } else if op == "!="@ {
        ObjV::BoolV(a != b)
    } else {
        ObjV::ErrV(msg_pair("unknown operator: "@, ObjectType::INTEGER, op, ObjectType::INTEGER))
    }
}

/// Boolean-by-boolean infix operators: only `==` and `!=` are defined.
pub open spec fn sp_bool_infix(op: Seq<char>, a: bool, b: bool) -> ObjV {
    if op == "=="@ {
        ObjV::BoolV(a == b)
    } else if op == "!="@ {
        ObjV::BoolV(a != b)
    } else {
        ObjV::ErrV(msg_pair("unknown operator: "@, ObjectType::BOOLEAN, op, ObjectType::BOOLEAN))
    }
}

/// Infix dispatch: string concatenation for `+` on two strings, integer
/// and boolean operator families, and the two error forms (`type
/// mismatch` for differing kinds, `unknown operator` otherwise).
pub open spec fn sp_infix_op(op: Seq<char>, l: ObjV, r: ObjV) -> ObjV {
    if l is StrV && r is StrV && op == "+"@ {
        ObjV::StrV(l->StrV_0 + r->StrV_0)
    } else if l is IntV && r is IntV {
        sp_int_infix(op, l->IntV_0, r->IntV_0)
    } else if l is BoolV && r is BoolV {
        sp_bool_infix(op, l->BoolV_0, r->BoolV_0)
    } else if obj_type_of(l) != obj_type_of(r) {
        ObjV::ErrV(msg_pair("type mismatch: "@, obj_type_of(l), op, obj_type_of(r)))
    } else {
        ObjV::ErrV(msg_pair("unknown operator: "@, obj_type_of(l), op, obj_type_of(r)))
    }
}

// ----------------------------------------------------------------------
// The clocked spec interpreter
// ----------------------------------------------------------------------

/// One `let`-style binding after another: binds each parameter in order
/// in frame `id`, so a repeated parameter name ends up holding the later
/// argument.
pub open spec fn sp_bind_args(
    params: Seq<IdentifierV>,
    args: Seq<ObjV>,
    i: int,
    env: Seq<FrameV>,
    id: int,
) -> Seq<FrameV>
    decreases params.len() - i,
{
    if i < 0 || i >= params.len() || i >= args.len() {
        env
    } else {
        sp_bind_args(params, args, i + 1, env_set(env, id, params[i].value, args[i]), id)
    }
}

/// Evaluation of a statement in frame `cur`: the updated arena and the
/// statement's value.
pub open spec fn sp_eval_stmt(fuel: nat, s: StmtV, cur: int, env: Seq<FrameV>) -> (
    Seq<FrameV>,
    ObjV,
)
    decreases fuel, 1int, s, 0int,
{
    match s {
        StmtV::Expr { expression, .. } => match expression {
            Option::Some(e) => sp_eval_expr(fuel, e, cur, env),
            Option::None => (env, ObjV::NullV),
        },
        StmtV::Let { name, value, .. } => match value {
            Option::Some(e) => {
                let (env1, v) = sp_eval_expr(fuel, e, cur, env);
                if v is ErrV {
                    (env1, v)
                } else {
                    (env_set(env1, cur, name.value, v), ObjV::NullV)
                }
            },
            Option::None => (env, ObjV::NullV),
        },
        StmtV::Ret { value, .. } => match value {
            Option::Some(e) => {
                let (env1, v) = sp_eval_expr(fuel, e, cur, env);
                if v is ErrV {
                    (env1, v)
                } else {
                    (env1, ObjV::RetV(Box::new(v)))
                }
            },
            Option::None => (env, ObjV::RetV(Box::new(ObjV::NullV))),
        },
        StmtV::Block(b) => sp_eval_block_scoped(fuel, b, cur, env),
    }
}

/// Evaluation of a block in a fresh child scope of `cur`.
pub open spec fn sp_eval_block_scoped(fuel: nat, b: BlockV, cur: int, env: Seq<FrameV>) -> (
    Seq<FrameV>,
    ObjV,
)
    decreases fuel, 1int, b, 1int,
{
    let id = env.len() as int;
    let env1 = env.push(FrameV { bindings: Seq::empty(), parent: Option::Some(cur as usize) });
    sp_eval_stmts(fuel, b.statements, 0, id, env1, ObjV::NullV)
}

/// Sequencing inside a block, from statement `i` on: a return-wrapper or
/// error produced by any statement ends the block with that value,
/// unchanged; otherwise the last statement's value wins (`acc` carries it,
/// null for an empty block).
pub open spec fn sp_eval_stmts(
    fuel: nat,
    stmts: Seq<StmtV>,
    i: int,
    cur: int,
    env: Seq<FrameV>,
    acc: ObjV,
) -> (Seq<FrameV>, ObjV)
    decreases fuel, 1int, stmts, stmts.len() - i,
{
    if i < 0 || i >= stmts.len() {
        (env, acc)
    } else {
        let (env1, v) = sp_eval_stmt(fuel, stmts[i], cur, env);
        if v is RetV || v is ErrV {
            (env1, v)
        } else {
            sp_eval_stmts(fuel, stmts, i + 1, cur, env1, v)
        }
    }
}

/// Evaluation of an expression in frame `cur`.
pub open spec fn sp_eval_expr(fuel: nat, e: ExprV, cur: int, env: Seq<FrameV>) -> (
    Seq<FrameV>,
    ObjV,
)
    decreases fuel, 1int, e, 0int,
{
    match e {
        ExprV::Ident(id) => match env_lookup(env, cur, id.value) {
            Option::Some(o) => (env, o),
            Option::None => (env, ObjV::ErrV(msg_ident_not_found(id.value))),
        },
        ExprV::IntLit { value, .. } => (env, ObjV::IntV(value)),
        ExprV::StrLit { value, .. } => (env, ObjV::StrV(value)),
        ExprV::BoolLit { value, .. } => (env, ObjV::BoolV(value)),
        ExprV::Prefix { operator, right, .. } => {
            let (env1, r) = sp_eval_expr(fuel, *right, cur, env);
            if r is ErrV {
                (env1, r)
            } else {
                (env1, sp_prefix_op(operator, r))
            }
        },
        ExprV::Infix { left, operator, right, .. } => {
            let (env1, l) = sp_eval_expr(fuel, *left, cur, env);
            if l is ErrV {
                (env1, l)
            } else {
                let (env2, r) = sp_eval_expr(fuel, *right, cur, env1);
                if r is ErrV {
                    (env2, r)
                } else {
                    (env2, sp_infix_op(operator, l, r))
                }
            }
        },
        ExprV::If { condition, consequence, alternative, .. } => {
            let (env1, c) = sp_eval_expr(fuel, *condition, cur, env);
            if c is ErrV {
                (env1, c)
            } else if sp_truthy(c) {
                sp_eval_block_scoped(fuel, consequence, cur, env1)
            } else {
                match alternative {
                    Option::Some(a) => sp_eval_block_scoped(fuel, a, cur, env1),
                    Option::None => (env1, ObjV::NullV),
                }
            }
        },
        ExprV::Func { parameters, body, .. } => (
            env,
            ObjV::FuncV { parameters, body, env: cur },
        ),
        ExprV::Call { function, arguments, .. } => {
            let (env1, f) = sp_eval_expr(fuel, *function, cur, env);
            if f is ErrV {
                (env1, f)
            } else {
                let (env2, ar) = sp_eval_exprs(fuel, arguments, 0, cur, env1, Seq::empty());
                match ar {
                    Result::Err(err) => (env2, err),
                    Result::Ok(args) => sp_apply(fuel, f, args, env2),
                }
            }
        },
    }
}

/// Left-to-right evaluation of an argument list from index `i` on; the
/// first error aborts the list and becomes its result.
pub open spec fn sp_eval_exprs(
    fuel: nat,
    exprs: Seq<ExprV>,
    i: int,
    cur: int,
    env: Seq<FrameV>,
    acc: Seq<ObjV>,
) -> (Seq<FrameV>, Result<Seq<ObjV>, ObjV>)
    decreases fuel, 1int, exprs, exprs.len() - i,
{
    if i < 0 || i >= exprs.len() {
        (env, Result::Ok(acc))
    } else {
        let (env1, v) = sp_eval_expr(fuel, exprs[i], cur, env);
        if v is ErrV {
            (env1, Result::Err(v))
        } else {
            sp_eval_exprs(fuel, exprs, i + 1, cur, env1, acc.push(v))
        }
    }
}

/// Application of a value to arguments. A function value gets a fresh
/// frame over its captured environment with the parameters bound in
/// order, its body runs as a block in a child of that frame, and a
/// return-wrapper coming out of the body is unwrapped. Anything else is a
/// `not a function` error. Each application spends one unit of fuel;
/// without fuel the application is a `stack overflow` error value.
pub open spec fn sp_apply(fuel: nat, f: ObjV, args: Seq<ObjV>, env: Seq<FrameV>) -> (
    Seq<FrameV>,
    ObjV,
)
    decreases fuel, 0int, f, 0int,
{
    match f {
        ObjV::FuncV { parameters, body, env: fenv } => {
            if fuel == 0 {
                (env, ObjV::ErrV(msg_stack_overflow()))
            } else if args.len() < parameters.len() {
                (env, ObjV::ErrV(msg_wrong_arg_count()))
            } else {
                let ext = env.len() as int;
                let env1 = env.push(
                    FrameV { bindings: Seq::empty(), parent: Option::Some(fenv as usize) },
                );
                let env2 = sp_bind_args(parameters, args, 0, env1, ext);
                let (env3, v) = sp_eval_block_scoped((fuel - 1) as nat, body, ext, env2);
                (env3, sp_unwrap_return(v))
            }
        },
        _ => (env, ObjV::ErrV(msg_not_a_function(obj_type_of(f)))),
    }
}

/// Unwraps a return sentinel to its inner value.
pub open spec fn sp_unwrap_return(v: ObjV) -> ObjV {
    match v {
        ObjV::RetV(inner) => *inner,
        _ => v,
    }
}

/// Program evaluation, from statement `i` on: a return-wrapper ends the
/// program with the wrapped value unwrapped, an error ends it with that
/// error, and otherwise the last statement's value is the result (`None`
/// for an empty program).
pub open spec fn sp_eval_prog_stmts(
    fuel: nat,
    stmts: Seq<StmtV>,
    i: int,
    cur: int,
    env: Seq<FrameV>,
    acc: Option<ObjV>,
) -> (Seq<FrameV>, Option<ObjV>)
    decreases fuel, 1int, stmts, stmts.len() - i,
{
    if i < 0 || i >= stmts.len() {
        (env, acc)
    } else {
        let (env1, v) = sp_eval_stmt(fuel, stmts[i], cur, env);
        match v {
            ObjV::RetV(inner) => (env1, Option::Some(*inner)),
            ObjV::ErrV(m) => (env1, Option::Some(ObjV::ErrV(m))),
            _ => sp_eval_prog_stmts(fuel, stmts, i + 1, cur, env1, Option::Some(v)),
        }
    }
}

/// Evaluation of a whole program in the root frame of the arena.
pub open spec fn sp_eval_program(fuel: nat, stmts: Seq<StmtV>, env: Seq<FrameV>) -> (
    Seq<FrameV>,
    Option<ObjV>,
) {
    sp_eval_prog_stmts(fuel, stmts, 0, 0, env, Option::None)
}

// ----------------------------------------------------------------------
// View helpers for the executable evaluator
// ----------------------------------------------------------------------

pub open spec fn opt_obj_view(r: Option<Object>) -> Option<ObjV> {
    match r {
        Option::Some(o) => Option::Some(o@),
        Option::None => Option::None,
    }
}

pub open spec fn objs_view(v: Seq<Object>) -> Seq<ObjV> {
    v.map_values(|o: Object| o@)
}

pub open spec fn all_objs_wf(v: Seq<ObjV>, n: int) -> bool {
    forall|i: int| 0 <= i < v.len() ==> obj_wf(#[trigger] v[i], n)
}

proof fn lemma_all_objs_wf_mono(v: Seq<ObjV>, n1: int, n2: int)
    requires
        all_objs_wf(v, n1),
        n1 <= n2,
    ensures
        all_objs_wf(v, n2),
{
    assert forall|i: int| 0 <= i < v.len() implies obj_wf(#[trigger] v[i], n2) by {
        lemma_obj_wf_mono(v[i], n1, n2);
    }
}

// ----------------------------------------------------------------------
// Pure executable pieces
// ----------------------------------------------------------------------

/// Truthiness of a value: only null and false are falsy.
pub fn is_truthy(obj: &Object) -> (r: bool)
    ensures
        r == sp_truthy(obj@),
{
    match obj {
        Object::Null(_) => false,
        Object::Boolean(b) => b.value,
        _ => true,
    }
}

/// The `!` operator.
pub fn evaluate_bang_operator_expression(right: Object) -> (r: Object)
    ensures
        r@ == sp_bang(right@),
{
    match right {
        Object::Boolean(b) => Object::Boolean(Boolean { value: !b.value }),
        Object::Null(_) => Object::Boolean(Boolean { value: true }),
        _ => Object::Boolean(Boolean { value: false }),
    }
}

/// The unary `-` operator.
pub fn evaluate_minus_prefix_operator_expression(right: Object) -> (r: Object)
    ensures
        r@ == sp_minus(right@),
{
    match right {
        Object::Integer(n) => Object::Integer(Integer { value: (0i64).wrapping_sub(n.value) }),
        _ => {
            let t = right.object_type();
            error_object(build_unknown_prefix(t))
        },
    }
}

/// Dispatch of a prefix operator by its lexeme.
pub fn evaluate_prefix_expression(operator: &str, right: Object) -> (r: Object)
    ensures
        r@ == sp_prefix_op(operator@, right@),
{
    if crate::strutil::str_eq(operator, "!") {
        evaluate_bang_operator_expression(right)
    } else if crate::strutil::str_eq(operator, "-") {
        evaluate_minus_prefix_operator_expression(right)
    } else {
        Object::Null(Null {})
    }
}

/// Integer-by-integer infix operators.
pub fn evaluate_integer_infix_expression(operator: &str, left: Object, right: Object) -> (r:
    Object)
    requires
        left@ is IntV,
        right@ is IntV,
    ensures
        r@ == sp_int_infix(operator@, left@->IntV_0, right@->IntV_0),
{
    let a: i64;
    let b: i64;
    match &left {
        Object::Integer(n) => {
            a = n.value;
        },
        _ => {
            return Object::Null(Null {});
        },
    }
    match &right {
        Object::Integer(n) => {
            b = n.value;
        },
        _ => {
            return Object::Null(Null {});
        },
    }
    if crate::strutil::str_eq(operator, "+") {
        Object::Integer(Integer { value: a.wrapping_add(b) })
    } else if crate::strutil::str_eq(operator, "-") {
        Object::Integer(Integer { value: a.wrapping_sub(b) })
    } else if crate::strutil::str_eq(operator, "*") {
        Object::Integer(Integer { value: a.wrapping_mul(b) })
    } else if crate::strutil::str_eq(operator, "/") {
        match a.checked_div(b) {
            Option::Some(q) => Object::Integer(Integer { value: q }),
            Option::None => if b == 0 {
                simple_error("division by zero")
            } else {
                Object::Integer(Integer { value: i64::MIN })
            },
        }
    } else if crate::strutil::str_eq(operator, "%") {
        match a.checked_rem(b) {
            Option::Some(q) => Object::Integer(Integer { value: q }),
            Option::None => if b == 0 {
                simple_error("division by zero")
            } else {
                Object::Integer(Integer { value: 0 })
            },
        }
    } else if crate::strutil::str_eq(operator, "<") {
        Object::Boolean(Boolean { value: a < b })
    } else if crate::strutil::str_eq(operator, ">") {
        Object::Boolean(Boolean { value: a > b })
    } else if crate::strutil::str_eq(operator, "==") {
        Object::Boolean(Boolean { value: a == b })
    } else if crate::strutil::str_eq(operator, "!=") {
        Object::Boolean(Boolean { value: a != b })
    } else {
        error_object(
            build_pair("unknown operator: ", ObjectType::INTEGER, operator, ObjectType::INTEGER),
        )
    }
}

/// String concatenation, the only string operator.
pub fn evaluate_string_concatenation(left: Object, right: Object) -> (r: Object)
    requires
        left@ is StrV,
        right@ is StrV,
    ensures
        r@ == ObjV::StrV(left@->StrV_0 + right@->StrV_0),
{
    match (left, right) {
        (Object::StringObj(l), Object::StringObj(rs)) => {
            let mut value = l.value;
            append_str(&mut value, rs.value.as_str());
            Object::StringObj(StringObj { value })
        },
        _ => Object::Null(Null {}),
    }
}

/// Boolean-by-boolean infix operators.
pub fn evaluate_boolean_infix_expression(operator: &str, left: Object, right: Object) -> (r:
    Object)
    requires
        left@ is BoolV,
        right@ is BoolV,
    ensures
        r@ == sp_bool_infix(operator@, left@->BoolV_0, right@->BoolV_0),
{
    let a: bool;
    let b: bool;
    match &left {
        Object::Boolean(x) => {
            a = x.value;
        },
        _ => {
            return Object::Null(Null {});
        },
    }
    match &right {
        Object::Boolean(x) => {
            b = x.value;
        },
        _ => {
            return Object::Null(Null {});
        },
    }
    if crate::strutil::str_eq(operator, "==") {
        Object::Boolean(Boolean { value: a == b })
    } else if crate::strutil::str_eq(operator, "!=") {
        Object::Boolean(Boolean { value: a != b })
    } else {
        error_object(
            build_pair("unknown operator: ", ObjectType::BOOLEAN, operator, ObjectType::BOOLEAN),
        )
    }
}

/// Infix dispatch over the operand kinds.
pub fn evaluate_infix_expression(operator: &str, left: Object, right: Object) -> (r: Object)
    ensures
        r@ == sp_infix_op(operator@, left@, right@),
{
    let lt = left.object_type();
    let rt = right.object_type();
    if lt == ObjectType::STRING && rt == ObjectType::STRING && crate::strutil::str_eq(
        operator,
        "+",
    ) {
        return evaluate_string_concatenation(left, right);
    }
    if lt == ObjectType::INTEGER && rt == ObjectType::INTEGER {
        return evaluate_integer_infix_expression(operator, left, right);
    }
    if lt == ObjectType::BOOLEAN && rt == ObjectType::BOOLEAN {
        return evaluate_boolean_infix_expression(operator, left, right);
    }
    if lt != rt {
        return error_object(build_pair("type mismatch: ", lt, operator, rt));
    }
    error_object(build_pair("unknown operator: ", lt, operator, rt))
}

/// Unwraps a return sentinel to its inner value.
pub fn unwrap_return_value(obj: Object) -> (r: Object)
    ensures
        r@ == sp_unwrap_return(obj@),
{
    match obj {
        Object::ReturnValue(rv) => *rv.value,
        o => o,
    }
}

// ----------------------------------------------------------------------
// The executable evaluator
// ----------------------------------------------------------------------

/// Evaluates one statement in frame `cur`, returning exactly what the
/// spec interpreter returns and leaving the arena exactly as it leaves
/// it.
#[verifier::rlimit(100)]
#[verifier::spinoff_prover]
pub fn evaluate_statement(stmt: &Statement, env: &mut Environment, cur: usize, fuel: u64) -> (r:
    Object)
    requires
        env_wf(old(env)@),
        cur < old(env)@.len(),
    ensures
        final(env)@ == sp_eval_stmt(fuel as nat, stmt@, cur as int, old(env)@).0,
        r@ == sp_eval_stmt(fuel as nat, stmt@, cur as int, old(env)@).1,
        env_wf(final(env)@),
        old(env)@.len() <= final(env)@.len(),
        obj_wf(r@, final(env)@.len() as int),
    decreases fuel, 1int, *stmt, 0int,
{
    let ghost sp = sp_eval_stmt(fuel as nat, stmt@, cur as int, old(env)@);
    match stmt {
        Statement::Expr(es) => match &es.expression {
            Option::Some(e) => {
                let r = evaluate_expression(e, env, cur, fuel);
                assert(env@ == sp.0 && r@ == sp.1);
                r
            },
            Option::None => {
                let r = Object::Null(Null {});
                assert(env@ == sp.0 && r@ == sp.1);
                r
            },
        },
        Statement::Let(ls) => match &ls.value {
            Option::Some(e) => {
                let value = evaluate_expression(e, env, cur, fuel);
                if value.object_type() == ObjectType::ERROR {
                    assert(env@ == sp.0 && value@ == sp.1);
                    return value;
                }
                let ghost mid = env@;
                let ghost vv = value@;
                let _ = env.set(cur, ls.name.value.clone(), value);
                proof {
                    lemma_env_set_wf(mid, cur as int, ls.name.value@, vv);
                }
                let r = Object::Null(Null {});
                assert(env@ == sp.0 && r@ == sp.1);
                r
            },
            Option::None => {
                let r = Object::Null(Null {});
                assert(env@ == sp.0 && r@ == sp.1);
                r
            },
        },
        Statement::Return(rs) => match &rs.return_value {
            Option::Some(e) => {
                let value = evaluate_expression(e, env, cur, fuel);
                if value.object_type() == ObjectType::ERROR {
                    assert(env@ == sp.0 && value@ == sp.1);
                    return value;
                }
                let r = Object::ReturnValue(ReturnValue { value: Box::new(value) });
                assert(env@ == sp.0 && r@ == sp.1);
                r
            },
            Option::None => {
                let r = Object::ReturnValue(
                    ReturnValue { value: Box::new(Object::Null(Null {})) },
                );
                proof {
                    assert(crate::object::obj_view(Object::Null(Null {})) == ObjV::NullV);
                    assert(obj_wf(ObjV::NullV, env@.len() as int));
                }
                assert(env@ == sp.0 && r@ == sp.1);
                r
            },
        },
        Statement::Block(b) => {
            let id = env.new_enclosed(cur);
            let r = evaluate_block_statement(b, env, id, fuel);
            assert(env@ == sp.0 && r@ == sp.1);
            r
        },
    }
}

/// Evaluates the statements of a block, in order, in frame `cur`: a
/// return-wrapper or error from any statement ends the block with that
/// value unchanged; otherwise the last statement's value is returned.
#[verifier::rlimit(100)]
#[verifier::spinoff_prover]
pub fn evaluate_block_statement(
    block: &BlockStatement,
    env: &mut Environment,
    cur: usize,
    fuel: u64,
) -> (r: Object)
    requires
        env_wf(old(env)@),
        cur < old(env)@.len(),
    ensures
        final(env)@ == sp_eval_stmts(
            fuel as nat,
            block@.statements,
            0,
            cur as int,
            old(env)@,
            ObjV::NullV,
        ).0,
        r@ == sp_eval_stmts(
            fuel as nat,
            block@.statements,
            0,
            cur as int,
            old(env)@,
            ObjV::NullV,
        ).1,
        env_wf(final(env)@),
        old(env)@.len() <= final(env)@.len(),
        obj_wf(r@, final(env)@.len() as int),
    decreases fuel, 1int, *block, 1int,
{
    let ghost env0 = env@;
    let ghost ssv = block@.statements;
    proof {
        lemma_stmts_view_index(block.statements@);
    }
    let mut result: Object = Object::Null(Null {});
    let n = block.statements.len();
    let mut i: usize = 0;
    while i < n
        invariant
            env_wf(old(env)@),
            cur < env0.len(),
            env0 == old(env)@,
            n == block.statements.len(),
            i <= n,
            ssv == block@.statements,
            ssv.len() == n,
            forall|j: int|
                0 <= j < n ==> ssv[j] == crate::ast::stmt_view(#[trigger] block.statements@[j]),
            env_wf(env@),
            cur < env@.len(),
            env0.len() <= env@.len(),
            obj_wf(result@, env@.len() as int),
            !(result@ is RetV),
            !(result@ is ErrV),
            sp_eval_stmts(fuel as nat, ssv, 0, cur as int, env0, ObjV::NullV) == sp_eval_stmts(
                fuel as nat,
                ssv,
                i as int,
                cur as int,
                env@,
                result@,
            ),
        decreases n - i,
    {
        let v = evaluate_statement(&block.statements[i], env, cur, fuel);
        let t = v.object_type();
        if t == ObjectType::RETURN_VALUE || t == ObjectType::ERROR {
            return v;
        }
        result = v;
        i = i + 1;
    }
    result
}

/// Evaluates one expression in frame `cur`.
#[verifier::rlimit(100)]
#[verifier::spinoff_prover]
pub fn evaluate_expression(exp: &Expression, env: &mut Environment, cur: usize, fuel: u64) -> (r:
    Object)
    requires
        env_wf(old(env)@),
        cur < old(env)@.len(),
    ensures
        final(env)@ == sp_eval_expr(fuel as nat, exp@, cur as int, old(env)@).0,
        r@ == sp_eval_expr(fuel as nat, exp@, cur as int, old(env)@).1,
        env_wf(final(env)@),
        old(env)@.len() <= final(env)@.len(),
        obj_wf(r@, final(env)@.len() as int),
    decreases fuel, 1int, *exp, 0int,
{
    let ghost sp = sp_eval_expr(fuel as nat, exp@, cur as int, old(env)@);
    match exp {
        Expression::Ident(id) => match env.get(cur, id.value.as_str()) {
            Option::Some(obj) => {
                proof {
                    lemma_env_lookup_wf(env@, cur as int, id.value@);
                }
                assert(env@ == sp.0 && obj@ == sp.1);
                obj
            },
            Option::None => {
                let r = error_object(build_ident_not_found(id.value.as_str()));
                assert(env@ == sp.0 && r@ == sp.1);
                r
            },
        },
        Expression::IntLit(n) => {
            let r = Object::Integer(Integer { value: n.value });
            assert(env@ == sp.0 && r@ == sp.1);
            r
        },
        Expression::StrLit(s) => {
            let r = Object::StringObj(StringObj { value: s.value.clone() });
            assert(env@ == sp.0 && r@ == sp.1);
            r
        },
        Expression::BoolLit(b) => {
            let r = Object::Boolean(Boolean { value: b.value });
            assert(env@ == sp.0 && r@ == sp.1);
            r
        },
        Expression::Prefix(p) => {
            let right = evaluate_expression(&p.right, env, cur, fuel);
            if right.object_type() == ObjectType::ERROR {
                assert(env@ == sp.0 && right@ == sp.1);
                return right;
            }
            let r = evaluate_prefix_expression(p.operator.as_str(), right);
            assert(env@ == sp.0 && r@ == sp.1);
            r
        },
        Expression::Infix(ix) => {
            let left = evaluate_expression(&ix.left, env, cur, fuel);
            if left.object_type() == ObjectType::ERROR {
                assert(env@ == sp.0 && left@ == sp.1);
                return left;
            }
            let ghost l1 = env@.len() as int;
            let right = evaluate_expression(&ix.right, env, cur, fuel);
            if right.object_type() == ObjectType::ERROR {
                assert(env@ == sp.0 && right@ == sp.1);
                return right;
            }
            proof {
                lemma_obj_wf_mono(left@, l1, env@.len() as int);
            }
            let r = evaluate_infix_expression(ix.operator.as_str(), left, right);
            assert(env@ == sp.0 && r@ == sp.1);
            r
        },
        Expression::If(ife) => {
            let cond = evaluate_expression(&ife.condition, env, cur, fuel);
            if cond.object_type() == ObjectType::ERROR {
                assert(env@ == sp.0 && cond@ == sp.1);
                return cond;
            }
            if is_truthy(&cond) {
                let ghost envc = env@;
                proof {
                    assert(sp == sp_eval_block_scoped(fuel as nat, exp@->If_consequence, cur as int, envc));
                    assert(sp_eval_block_scoped(fuel as nat, exp@->If_consequence, cur as int, envc)
                        == sp_eval_stmts(
                        fuel as nat,
                        exp@->If_consequence.statements,
                        0,
                        envc.len() as int,
                        envc.push(FrameV { bindings: Seq::empty(), parent: Option::Some(cur) }),
                        ObjV::NullV,
                    ));
                }
                let id = env.new_enclosed(cur);
                let r = evaluate_block_statement(&ife.consequence, env, id, fuel);
                assert(env@ == sp.0 && r@ == sp.1);
                r
            } else {
                match &ife.alternative {
                    Option::Some(a) => {
                        let ghost envc = env@;
                        proof {
                            assert(exp@->If_alternative == Option::Some(a@));
                            assert(sp == sp_eval_block_scoped(fuel as nat, a@, cur as int, envc));
                            assert(sp_eval_block_scoped(fuel as nat, a@, cur as int, envc)
                                == sp_eval_stmts(
                                fuel as nat,
                                a@.statements,
                                0,
                                envc.len() as int,
                                envc.push(
                                    FrameV { bindings: Seq::empty(), parent: Option::Some(cur) },
                                ),
                                ObjV::NullV,
                            ));
                        }
                        let id = env.new_enclosed(cur);
                        let r = evaluate_block_statement(a, env, id, fuel);
                        assert(env@ == sp.0 && r@ == sp.1);
                        r
                    },
                    Option::None => {
                        let r = Object::Null(Null {});
                        assert(env@ == sp.0 && r@ == sp.1);
                        r
                    },
                }
            }
        },
        Expression::Func(f) => {
            let r = Object::Function(
                Function {
                    parameters: crate::ast::duplicate_identifiers(&f.parameters),
                    body: f.body.duplicate(),
                    env: cur,
                },
            );
            assert(env@ == sp.0 && r@ == sp.1);
            r
        },
        Expression::Call(c) => {
            let function = evaluate_expression(&c.function, env, cur, fuel);
            if function.object_type() == ObjectType::ERROR {
                assert(env@ == sp.0 && function@ == sp.1);
                return function;
            }
            let ghost l1 = env@.len() as int;
            let args = evaluate_expressions(&c.arguments, env, cur, fuel);
            match args {
                Result::Err(e) => {
                    assert(env@ == sp.0 && e@ == sp.1);
                    e
                },
                Result::Ok(v) => {
                    proof {
                        lemma_obj_wf_mono(function@, l1, env@.len() as int);
                    }
                    let r = apply_function(function, v, env, fuel);
                    assert(env@ == sp.0 && r@ == sp.1);
                    r
                },
            }
        },
    }
}

/// Evaluates an argument list left to right; the first error aborts the
/// list and is returned in place of it.
#[verifier::rlimit(100)]
#[verifier::spinoff_prover]
pub fn evaluate_expressions(
    exps: &Vec<Expression>,
    env: &mut Environment,
    cur: usize,
    fuel: u64,
) -> (r: Result<Vec<Object>, Object>)
    requires
        env_wf(old(env)@),
        cur < old(env)@.len(),
    ensures
        ({
            let (e2, ar) = sp_eval_exprs(
                fuel as nat,
                exprs_view(exps@),
                0,
                cur as int,
                old(env)@,
                Seq::empty(),
            );
            &&& final(env)@ == e2
            &&& match r {
                Result::Ok(v) => ar == Result::<Seq<ObjV>, ObjV>::Ok(objs_view(v@))
                    && all_objs_wf(objs_view(v@), final(env)@.len() as int),
                Result::Err(o) => ar == Result::<Seq<ObjV>, ObjV>::Err(o@) && obj_wf(
                    o@,
                    final(env)@.len() as int,
                ),
            }
        }),
        env_wf(final(env)@),
        old(env)@.len() <= final(env)@.len(),
    decreases fuel, 1int, *exps, 0int,
{
    let ghost env0 = env@;
    let ghost esv = exprs_view(exps@);
    proof {
        lemma_exprs_view_index(exps@);
    }
    let mut result: Vec<Object> = Vec::new();
    assert(objs_view(result@) =~= Seq::<ObjV>::empty());
    let n = exps.len();
    let mut i: usize = 0;
    while i < n
        invariant
            env_wf(old(env)@),
            cur < env0.len(),
            env0 == old(env)@,
            n == exps.len(),
            i <= n,
            esv == exprs_view(exps@),
            esv.len() == n,
            forall|j: int|
                0 <= j < n ==> esv[j] == crate::ast::expr_view(#[trigger] exps@[j]),
            env_wf(env@),
            cur < env@.len(),
            env0.len() <= env@.len(),
            result@.len() == i,
            all_objs_wf(objs_view(result@), env@.len() as int),
            sp_eval_exprs(fuel as nat, esv, 0, cur as int, env0, Seq::empty()) == sp_eval_exprs(
                fuel as nat,
                esv,
                i as int,
                cur as int,
                env@,
                objs_view(result@),
            ),
        decreases n - i,
    {
        let ghost pre_len = env@.len() as int;
        let v = evaluate_expression(&exps[i], env, cur, fuel);
        if v.object_type() == ObjectType::ERROR {
            return Result::Err(v);
        }
        proof {
            lemma_all_objs_wf_mono(objs_view(result@), pre_len, env@.len() as int);
            assert(objs_view(result@.push(v)) =~= objs_view(result@).push(v@));
        }
        result.push(v);
        i = i + 1;
    }
    Result::Ok(result)
}

/// Applies a function value to already-evaluated arguments: binds the
/// parameters in a fresh frame over the captured environment, runs the
/// body as a block, and unwraps a return sentinel. Anything that is not a
/// function yields an error value.
#[verifier::rlimit(100)]
#[verifier::spinoff_prover]
pub fn apply_function(func: Object, args: Vec<Object>, env: &mut Environment, fuel: u64) -> (r:
    Object)
    requires
        env_wf(old(env)@),
        obj_wf(func@, old(env)@.len() as int),
        all_objs_wf(objs_view(args@), old(env)@.len() as int),
    ensures
        final(env)@ == sp_apply(fuel as nat, func@, objs_view(args@), old(env)@).0,
        r@ == sp_apply(fuel as nat, func@, objs_view(args@), old(env)@).1,
        env_wf(final(env)@),
        old(env)@.len() <= final(env)@.len(),
        obj_wf(r@, final(env)@.len() as int),
    decreases fuel, 0int, func, 0int,
{
    match func {
        Object::Function(f) => {
            if fuel == 0 {
                return simple_error("stack overflow");
            }
            if args.len() < f.parameters.len() {
                return simple_error("wrong number of arguments");
            }
            let ext = extend_function_env(&f, &args, env);
            let block_id = env.new_enclosed(ext);
            let result = evaluate_block_statement(&f.body, env, block_id, fuel - 1);
            unwrap_return_value(result)
        },
        _ => {
            let t = func.object_type();
            error_object(build_not_a_function(t))
        },
    }
}

/// Creates the call frame: a fresh frame whose parent is the function's
/// captured environment, with each parameter bound in order to its
/// argument. Returns the new frame's index.
#[verifier::rlimit(100)]
#[verifier::spinoff_prover]
pub fn extend_function_env(func: &Function, args: &Vec<Object>, env: &mut Environment) -> (id:
    usize)
    requires
        env_wf(old(env)@),
        func.env < old(env)@.len(),
        args@.len() >= func.parameters@.len(),
        all_objs_wf(objs_view(args@), old(env)@.len() as int),
    ensures
        id == old(env)@.len(),
        final(env)@ == sp_bind_args(
            func.parameters@.map_values(|p: Identifier| p@),
            objs_view(args@),
            0,
            old(env)@.push(FrameV { bindings: Seq::empty(), parent: Option::Some(func.env) }),
            id as int,
        ),
        env_wf(final(env)@),
        final(env)@.len() == old(env)@.len() + 1,
{
    let ghost pv = func.parameters@.map_values(|p: Identifier| p@);
    let ghost av = objs_view(args@);
    let id = env.new_enclosed(func.env);
    let ghost base = env@;
    proof {
        lemma_all_objs_wf_mono(av, old(env)@.len() as int, base.len() as int);
    }
    let n = func.parameters.len();
    let mut i: usize = 0;
    while i < n
        invariant
            n == func.parameters.len(),
            i <= n,
            id as int == base.len() - 1,
            pv == func.parameters@.map_values(|p: Identifier| p@),
            pv.len() == n,
            av == objs_view(args@),
            av.len() == args@.len(),
            av.len() >= n,
            all_objs_wf(av, base.len() as int),
            env_wf(env@),
            env@.len() == base.len(),
            sp_bind_args(pv, av, 0, base, id as int) == sp_bind_args(
                pv,
                av,
                i as int,
                env@,
                id as int,
            ),
        decreases n - i,
    {
        let ghost mid = env@;
        assert(av[i as int] == args@[i as int]@);
        let _ = env.set(id, func.parameters[i].value.clone(), args[i].duplicate());
        proof {
            assert(pv[i as int] == func.parameters@[i as int]@);
            lemma_env_set_wf(mid, id as int, pv[i as int].value, av[i as int]);
        }
        i = i + 1;
    }
    id
}

/// Evaluates a whole program in the root frame. Walks the statements in
/// order: a return-wrapper stops the walk and is unwrapped, an error
/// stops it with that error, and otherwise the last statement's value is
/// the result (`None` for an empty program). Nested function applications
/// deeper than [`EVAL_FUEL`] yield a `stack overflow` error value.
#[verifier::rlimit(100)]
#[verifier::spinoff_prover]
pub fn evaluate_program(program: &Program, env: &mut Environment) -> (r: Option<Object>)
    requires
        env_wf(old(env)@),
        old(env)@.len() >= 1,
    ensures
        final(env)@ == sp_eval_program(EVAL_FUEL as nat, program@.statements, old(env)@).0,
        opt_obj_view(r) == sp_eval_program(EVAL_FUEL as nat, program@.statements, old(env)@).1,
        env_wf(final(env)@),
{
    let ghost env0 = env@;
    let ghost ssv = program@.statements;
    proof {
        lemma_stmts_view_index(program.statements@);
    }
    let mut result: Option<Object> = Option::None;
    let n = program.statements.len();
    let mut i: usize = 0;
    while i < n
        invariant
            env_wf(old(env)@),
            env0 == old(env)@,
            env0.len() >= 1,
            n == program.statements.len(),
            i <= n,
            ssv == program@.statements,
            ssv.len() == n,
            forall|j: int|
                0 <= j < n ==> ssv[j] == crate::ast::stmt_view(#[trigger] program.statements@[j]),
            env_wf(env@),
            env0.len() <= env@.len(),
            match result {
                Option::Some(o) => !(o@ is RetV) && !(o@ is ErrV),
                Option::None => i == 0,
            },
            sp_eval_prog_stmts(EVAL_FUEL as nat, ssv, 0, 0, env0, Option::None)
                == sp_eval_prog_stmts(
                EVAL_FUEL as nat,
                ssv,
                i as int,
                0,
                env@,
                opt_obj_view(result),
            ),
        decreases n - i,
    {
        let v = evaluate_statement(&program.statements[i], env, 0, EVAL_FUEL);
        let t = v.object_type();
        if t == ObjectType::RETURN_VALUE {
            return Option::Some(unwrap_return_value(v));
        }
        if t == ObjectType::ERROR {
            return Option::Some(v);
        }
        result = Option::Some(v);
        i = i + 1;
    }
    result
}

} // verus!

verus! {

// ----------------------------------------------------------------------
// Laws of the semantics
// ----------------------------------------------------------------------

/// Error propagation: in a compound expression, the first error produced
/// by a subexpression, in left-to-right evaluation order, is the value of
/// the whole expression.
pub proof fn lemma_error_propagation(fuel: nat, e: ExprV, cur: int, env: Seq<FrameV>)
    ensures
        e matches ExprV::Prefix { right, .. } ==> (sp_eval_expr(fuel, *right, cur, env).1 is ErrV
            ==> sp_eval_expr(fuel, e, cur, env) == sp_eval_expr(fuel, *right, cur, env)),
        e matches ExprV::Infix { left, .. } ==> (sp_eval_expr(fuel, *left, cur, env).1 is ErrV
            ==> sp_eval_expr(fuel, e, cur, env) == sp_eval_expr(fuel, *left, cur, env)),
        e matches ExprV::Infix { left, right, .. } ==> (!(sp_eval_expr(fuel, *left, cur, env).1
            is ErrV) && sp_eval_expr(
            fuel,
            *right,
            cur,
            sp_eval_expr(fuel, *left, cur, env).0,
        ).1 is ErrV ==> sp_eval_expr(fuel, e, cur, env) == sp_eval_expr(
            fuel,
            *right,
            cur,
            sp_eval_expr(fuel, *left, cur, env).0,
        )),
        e matches ExprV::If { condition, .. } ==> (sp_eval_expr(fuel, *condition, cur, env).1
            is ErrV ==> sp_eval_expr(fuel, e, cur, env) == sp_eval_expr(
            fuel,
            *condition,
            cur,
            env,
        )),
        e matches ExprV::Call { function, .. } ==> (sp_eval_expr(fuel, *function, cur, env).1
            is ErrV ==> sp_eval_expr(fuel, e, cur, env) == sp_eval_expr(fuel, *function, cur, env)),
{
}

/// Error propagation through statements: an error value produced by the
/// expression of a `let` or `return` statement is the statement's value,
/// the binding or wrapping is skipped, and an error ends a statement
/// sequence unchanged.
pub proof fn lemma_error_propagation_stmt(
    fuel: nat,
    s: StmtV,
    stmts: Seq<StmtV>,
    i: int,
    cur: int,
    env: Seq<FrameV>,
    acc: ObjV,
)
    ensures
        s matches StmtV::Let { value: Option::Some(e), .. } ==> (sp_eval_expr(fuel, e, cur, env).1
            is ErrV ==> sp_eval_stmt(fuel, s, cur, env) == sp_eval_expr(fuel, e, cur, env)),
        s matches StmtV::Ret { value: Option::Some(e), .. } ==> (sp_eval_expr(fuel, e, cur, env).1
            is ErrV ==> sp_eval_stmt(fuel, s, cur, env) == sp_eval_expr(fuel, e, cur, env)),
        0 <= i < stmts.len() && sp_eval_stmt(fuel, stmts[i], cur, env).1 is ErrV ==> sp_eval_stmts(
            fuel,
            stmts,
            i,
            cur,
            env,
            acc,
        ) == sp_eval_stmt(fuel, stmts[i], cur, env),
{
}

/// Return unwrapping: applying a function whose body ends in a
/// return-wrapper yields the wrapped value itself, never the wrapper.
pub proof fn lemma_return_unwrapping(fuel: nat, f: ObjV, args: Seq<ObjV>, env: Seq<FrameV>)
    requires
        fuel > 0,
        f matches ObjV::FuncV { parameters, .. } && args.len() >= parameters.len(),
    ensures
        ({
            let parameters = f->FuncV_parameters;
            let body = f->FuncV_body;
            let fenv = f->FuncV_env;
            let ext = env.len() as int;
            let env1 = env.push(
                FrameV { bindings: Seq::empty(), parent: Option::Some(fenv as usize) },
            );
            let env2 = sp_bind_args(parameters, args, 0, env1, ext);
            let (env3, v) = sp_eval_block_scoped((fuel - 1) as nat, body, ext, env2);
            &&& sp_apply(fuel, f, args, env) == (env3, sp_unwrap_return(v))
            &&& (v matches ObjV::RetV(inner) ==> sp_apply(fuel, f, args, env).1 == *inner)
        }),
{
}

/// The inspected form of an evaluated value literal is the literal's own
/// value: integers render in decimal, strings as their contents, and
/// booleans as `true` or `false`.
pub proof fn lemma_literal_inspect(fuel: nat, e: ExprV, cur: int, env: Seq<FrameV>)
    ensures
        e matches ExprV::IntLit { value, .. } ==> crate::object::obj_inspect(
            sp_eval_expr(fuel, e, cur, env).1,
        ) == crate::strutil::spec_dec_i64(value as int),
        e matches ExprV::StrLit { value, .. } ==> crate::object::obj_inspect(
            sp_eval_expr(fuel, e, cur, env).1,
        ) == value,
        e matches ExprV::BoolLit { value, .. } ==> crate::object::obj_inspect(
            sp_eval_expr(fuel, e, cur, env).1,
        ) == (if value {
            "true"@
        } else {
            "false"@
        }),
{
}

} // verus!
