//! The rules by which nodes of the syntax tree are put together: property
//! access, membership tests, assignments, operators and closures.

use vstd::prelude::*;
use crate::ast::{
    BinaryExpr, Expr, ExprV, FnCallExpr, FnCallExprV, Ident, IdentV, NamespaceRefV, Stmt, StmtV,
    all_constant, all_constant_pairs, constant_map, constant_values, expr_view, expr_views,
    ident_names, ident_views, lemma_expr_views, lemma_expr_views_push, lemma_pair_views_push,
    lemma_stmt_views_push, pair_views, stmt_views,
};
use crate::dynamic::{
    AccessMode, Dynamic, DynamicV, dynamic_views, lemma_array_view, lemma_map_view, map_keys,
    map_wf,
};
use crate::engine::{Engine, SyntaxParser};
use crate::error::{ParseError, ParseErrorType, ParseErrorTypeV, ParseErrorV, err_at, lex_err_at};
use crate::hashing::{calc_script_fn_hash, script_fn_hash};
use crate::lookup::lemma_no_index;
use crate::position::Position;
use crate::state::{ParseState, interned};
use crate::strings::{concat2, concat3, signed_decimal, signed_decimal_string, str_eq};
use crate::token::{LexError, LexErrorV, Token, is_valid_identifier, is_valid_identifier_spec};

verus! {

/// The name of the function that reads a property.
pub open spec fn getter_name(name: Seq<char>) -> Seq<char> {
    "get$"@ + name
}

/// The name of the function that writes a property.
pub open spec fn setter_name(name: Seq<char>) -> Seq<char> {
    "set$"@ + name
}

/// The name of the function that reads the property `name`.
pub fn make_getter(name: &str) -> (r: String)
    ensures
        r@ == getter_name(name@),
{
    concat2("get$", name)
}

/// The name of the function that writes the property `name`.
pub fn make_setter(name: &str) -> (r: String)
    ensures
        r@ == setter_name(name@),
{
    concat2("set$", name)
}

/// The expression read as a property: a variable that no module qualifies
/// becomes the property of its name, anything else stays as it is.
pub open spec fn property_of(e: ExprV) -> ExprV {
    match e {
        ExprV::Variable(_, None, ident) => ExprV::Property(
            getter_name(ident.name),
            setter_name(ident.name),
            ident,
        ),
        _ => e,
    }
}

/// The strings that turning `e` into a property interns: the names of the
/// getter and the setter, if `e` is a variable that no module qualifies.
pub open spec fn property_strings(strings: Seq<Seq<char>>, e: ExprV) -> Seq<Seq<char>> {
    match e {
        ExprV::Variable(_, None, ident) => interned(
            interned(strings, getter_name(ident.name)),
            setter_name(ident.name),
        ),
        _ => strings,
    }
}

/// Turns a variable that no module qualifies into the property of its name.
/// Any other expression is handed back untouched.
pub fn into_property<P: SyntaxParser>(e: Expr, state: &mut ParseState<'_, P>) -> (r: Expr)
    requires
        old(state).wf(),
    ensures
        r@ == property_of(e@),
        final(state).interned_more(old(state)),
        final(state)@.strings == property_strings(old(state)@.strings, e@),
{
    match e {
        Expr::Variable(x) => {
            if x.1.is_none() {
                let ident = x.2;
                let getter = make_getter(ident.name.as_str());
                let getter = state.get_interned_string(getter.as_str());
                let setter = make_setter(ident.name.as_str());
                let setter = state.get_interned_string(setter.as_str());
                Expr::Property(Box::new((getter, setter, ident)))
            } else {
                Expr::Variable(x)
            }
        },
        e => e,
    }
}

/// The position at which a module-qualified name is reported: that of its
/// first module.
pub open spec fn namespace_pos(ns: NamespaceRefV, ident: IdentV) -> Position {
    if ns.path.len() > 0 {
        ns.path[0].pos
    } else {
        ident.pos
    }
}

/// Is the call one of `Fn()` and `eval()`, which cannot be called as
/// methods?
pub open spec fn is_reserved_method(x: FnCallExprV) -> bool {
    x.args.len() == 0 && (x.name == "Fn"@ || x.name == "eval"@)
}

/// The hint for `Fn()` or `eval()` called as a method.
pub open spec fn method_style_hint(name: Seq<char>) -> Seq<char> {
    "'"@ + name + "' should not be called in method style. Try "@ + name + "(...);"@
}

/// `lhs.rhs` as a tree. A dot after an index chain goes to the bottom of
/// the chain; a name on the right becomes a property; in a chain on the
/// right the first name becomes a property.
pub open spec fn dot_expr(lhs: ExprV, rhs: ExprV, op_pos: Position) -> Result<ExprV, ParseErrorV>
    decreases lhs,
{
    match lhs {
        ExprV::Index(x_lhs, x_rhs, pos) => match dot_expr(*x_rhs, rhs, op_pos) {
            Ok(r) => Ok(ExprV::Index(x_lhs, Box::new(r), pos)),
            Err(e) => Err(e),
        },
        _ => match rhs {
            ExprV::Variable(_, None, _) => Ok(
                ExprV::Dot(Box::new(lhs), Box::new(property_of(rhs)), op_pos),
            ),
            ExprV::Variable(_, Some(q), ident) => Err(
                err_at(ParseErrorTypeV::PropertyExpected, namespace_pos(q.1, ident)),
            ),
            ExprV::Property(_, _, _) => Ok(ExprV::Dot(Box::new(lhs), Box::new(rhs), op_pos)),
            ExprV::Dot(x_lhs, x_rhs, pos) => Ok(
                ExprV::Dot(
                    Box::new(lhs),
                    Box::new(ExprV::Dot(Box::new(property_of(*x_lhs)), x_rhs, pos)),
                    op_pos,
                ),
            ),
            ExprV::Index(x_lhs, x_rhs, pos) => Ok(
                ExprV::Dot(
                    Box::new(lhs),
                    Box::new(ExprV::Index(Box::new(property_of(*x_lhs)), x_rhs, pos)),
                    op_pos,
                ),
            ),
            ExprV::FnCall(x, pos) => if is_reserved_method(x) {
                Err(
                    lex_err_at(
                        LexErrorV::ImproperSymbol(x.name, method_style_hint(x.name)),
                        pos,
                    ),
                )
            } else if x.capture {
                Err(
                    err_at(
                        ParseErrorTypeV::MalformedCapture(
                            "method-call style does not support capturing"@,
                        ),
                        pos,
                    ),
                )
            } else {
                Ok(ExprV::Dot(Box::new(lhs), Box::new(rhs), op_pos))
            },
            _ => Err(err_at(ParseErrorTypeV::PropertyExpected, rhs.position())),
        },
    }
}

/// The strings that building `lhs.rhs` interns.
pub open spec fn dot_strings(strings: Seq<Seq<char>>, lhs: ExprV, rhs: ExprV) -> Seq<Seq<char>>
    decreases lhs,
{
    match lhs {
        ExprV::Index(_, x_rhs, _) => dot_strings(strings, *x_rhs, rhs),
        _ => match rhs {
            ExprV::Variable(_, None, _) => property_strings(strings, rhs),
            ExprV::Dot(x_lhs, _, _) => property_strings(strings, *x_lhs),
            ExprV::Index(x_lhs, _, _) => property_strings(strings, *x_lhs),
            _ => strings,
        },
    }
}

/// The leaf at the far left of `lhs.rhs` is the leaf at the far left of
/// `lhs`. So it is a property only if that of `lhs` was one.
pub proof fn lemma_dot_expr_leftmost(lhs: ExprV, rhs: ExprV, op_pos: Position)
    ensures
        dot_expr(lhs, rhs, op_pos) matches Ok(r) ==> r.leftmost_leaf() == lhs.leftmost_leaf(),
        dot_expr(lhs, rhs, op_pos) matches Ok(r) ==> (r is Dot || r is Index),
    decreases lhs,
{
    match lhs {
        ExprV::Index(x_lhs, x_rhs, pos) => {
            lemma_dot_expr_leftmost(*x_rhs, rhs, op_pos);
        },
        _ => {},
    }
}

/// The result as a value, whichever way the function ended.
pub open spec fn expr_result(r: Result<Expr, ParseError>) -> Result<ExprV, ParseErrorV> {
    match r {
        Ok(e) => Ok(e@),
        Err(e) => Err(e@),
    }
}

/// The result as a value, whichever way the function ended.
pub open spec fn stmt_result(r: Result<Stmt, ParseError>) -> Result<StmtV, ParseErrorV> {
    match r {
        Ok(s) => Ok(s@),
        Err(e) => Err(e@),
    }
}

/// Builds the tree for `lhs.rhs`.
pub fn make_dot_expr<P: SyntaxParser>(
    state: &mut ParseState<'_, P>,
    lhs: Expr,
    rhs: Expr,
    op_pos: Position,
) -> (r: Result<Expr, ParseError>)
    requires
        old(state).wf(),
    ensures
        expr_result(r) == dot_expr(lhs@, rhs@, op_pos),
        r matches Ok(e) ==> e@.leftmost_leaf() == lhs@.leftmost_leaf(),
        r matches Ok(e) ==> (e is Dot || e is Index),
        final(state).interned_more(old(state)),
        r is Ok ==> final(state)@.strings == dot_strings(old(state)@.strings, lhs@, rhs@),
    decreases lhs,
{
    proof {
        lemma_dot_expr_leftmost(lhs@, rhs@, op_pos);
        reveal_with_fuel(expr_view, 3);
    }
    match lhs {
        Expr::Index(x, pos) => {
            let BinaryExpr { lhs: x_lhs, rhs: x_rhs } = *x;
            let inner = make_dot_expr(state, x_rhs, rhs, op_pos)?;
            Ok(Expr::Index(Box::new(BinaryExpr { lhs: x_lhs, rhs: inner }), pos))
        },
        lhs => {
            match rhs {
                Expr::Variable(x) => {
                    if x.1.is_none() {
                        let prop = into_property(Expr::Variable(x), state);
                        Ok(Expr::Dot(Box::new(BinaryExpr { lhs, rhs: prop }), op_pos))
                    } else {
                        let pos = match &x.1 {
                            Some(q) => {
                                if q.1.path.len() > 0 {
                                    q.1.path[0].pos
                                } else {
                                    x.2.pos
                                }
                            },
                            None => x.2.pos,
                        };
                        Err(ParseErrorType::PropertyExpected.into_err(pos))
                    }
                },
                Expr::Property(x) => Ok(
                    Expr::Dot(Box::new(BinaryExpr { lhs, rhs: Expr::Property(x) }), op_pos),
                ),
                Expr::Dot(x, pos) => {
                    let BinaryExpr { lhs: x_lhs, rhs: x_rhs } = *x;
                    let prop = into_property(x_lhs, state);
                    let rhs = Expr::Dot(Box::new(BinaryExpr { lhs: prop, rhs: x_rhs }), pos);
                    Ok(Expr::Dot(Box::new(BinaryExpr { lhs, rhs }), op_pos))
                },
                Expr::Index(x, pos) => {
                    let BinaryExpr { lhs: x_lhs, rhs: x_rhs } = *x;
                    let prop = into_property(x_lhs, state);
                    let rhs = Expr::Index(Box::new(BinaryExpr { lhs: prop, rhs: x_rhs }), pos);
                    Ok(Expr::Dot(Box::new(BinaryExpr { lhs, rhs }), op_pos))
                },
                Expr::FnCall(x, pos) => {
                    proof {
                        lemma_expr_views(x.args@);
                    }
                    if x.args.len() == 0 && (str_eq(x.name.as_str(), "Fn") || str_eq(
                        x.name.as_str(),
                        "eval",
                    )) {
                        let mut hint = concat3(
                            "'",
                            x.name.as_str(),
                            "' should not be called in method style. Try ",
                        );
                        hint.append(x.name.as_str());
                        hint.append("(...);");
                        Err(LexError::ImproperSymbol(x.name.clone(), hint).into_err(pos))
                    } else if x.capture {
                        Err(
                            ParseErrorType::MalformedCapture(
                                String::from_str("method-call style does not support capturing"),
                            ).into_err(pos),
                        )
                    } else {
                        Ok(
                            Expr::Dot(
                                Box::new(BinaryExpr { lhs, rhs: Expr::FnCall(x, pos) }),
                                op_pos,
                            ),
                        )
                    }
                },
                rhs => {
                    let pos = rhs.position();
                    Err(ParseErrorType::PropertyExpected.into_err(pos))
                },
            }
        },
    }
}

/// What a literal on the left of `in` is called in an error message, if the
/// literal can be no member of a string or the name of a property.
pub open spec fn in_lhs_kind(lhs: ExprV) -> Option<Seq<char>> {
    match lhs {
        ExprV::FloatConstant(_, _) => Some("a float"@),
        ExprV::IntegerConstant(_, _) => Some("a number"@),
        ExprV::And(_, _, _) | ExprV::Or(_, _, _) | ExprV::In(_, _, _) | ExprV::BoolConstant(
            _,
            _,
        ) => Some("a boolean"@),
        ExprV::Array(_, _) => Some("an array"@),
        ExprV::ObjectMap(_, _) => Some("an object map"@),
        ExprV::Unit(_) => Some("()"@),
        _ => None,
    }
}

/// What the right of `in` is called in an error message, if it is a literal
/// whose members are known to be strings.
pub open spec fn in_rhs_kind(rhs: ExprV) -> Option<Seq<char>> {
    match rhs {
        ExprV::StringConstant(_, _) => Some("a string"@),
        ExprV::ObjectMap(_, _) => Some("an object map"@),
        _ => None,
    }
}

/// Can the expression hold no members at all?
pub open spec fn in_rhs_is_scalar(rhs: ExprV) -> bool {
    rhs is IntegerConstant || rhs is FloatConstant || rhs is And || rhs is Or || rhs is In
        || rhs is BoolConstant || rhs is Unit
}

/// `lhs in rhs` as a tree, or the error when the two literals can never
/// stand in that relation.
pub open spec fn in_expr(lhs: ExprV, rhs: ExprV, op_pos: Position) -> Result<ExprV, ParseErrorV> {
    if in_rhs_is_scalar(rhs) {
        Err(
            err_at(
                ParseErrorTypeV::MalformedInExpr(
                    "'in' expression expects a string, array or object map"@,
                ),
                rhs.position(),
            ),
        )
    } else {
        match (in_rhs_kind(rhs), in_lhs_kind(lhs)) {
            (Some(container), Some(member)) => Err(
                err_at(
                    ParseErrorTypeV::MalformedInExpr(
                        "'in' expression for "@ + container + " expects a string, not "@ + member,
                    ),
                    lhs.position(),
                ),
            ),
            _ => Ok(ExprV::In(Box::new(lhs), Box::new(rhs), op_pos)),
        }
    }
}

fn in_lhs_kind_of(lhs: &Expr) -> (r: Option<&'static str>)
    ensures
        match r {
            Some(s) => in_lhs_kind(lhs@) == Some(s@),
            None => in_lhs_kind(lhs@) is None,
        },
{
    match lhs {
        Expr::FloatConstant(_, _) => Some("a float"),
        Expr::IntegerConstant(_, _) => Some("a number"),
        Expr::And(_, _) | Expr::Or(_, _) | Expr::In(_, _) | Expr::BoolConstant(_, _) => Some(
            "a boolean",
        ),
        Expr::Array(_, _) => Some("an array"),
        Expr::ObjectMap(_, _) => Some("an object map"),
        Expr::Unit(_) => Some("()"),
        _ => None,
    }
}

/// Builds the tree for `lhs in rhs`.
pub fn make_in_expr(lhs: Expr, rhs: Expr, op_pos: Position) -> (r: Result<Expr, ParseError>)
    ensures
        expr_result(r) == in_expr(lhs@, rhs@, op_pos),
{
    let scalar = match &rhs {
        Expr::IntegerConstant(_, _)
        | Expr::FloatConstant(_, _)
        | Expr::And(_, _)
        | Expr::Or(_, _)
        | Expr::In(_, _)
        | Expr::BoolConstant(_, _)
        | Expr::Unit(_) => true,
        _ => false,
    };
    if scalar {
        let pos = rhs.position();
        return Err(
            ParseErrorType::MalformedInExpr(
                String::from_str("'in' expression expects a string, array or object map"),
            ).into_err(pos),
        );
    }
    let container: Option<&'static str> = match &rhs {
        Expr::StringConstant(_, _) => Some("a string"),
        Expr::ObjectMap(_, _) => Some("an object map"),
        _ => None,
    };
    match (container, in_lhs_kind_of(&lhs)) {
        (Some(container), Some(member)) => {
            let mut msg = concat3("'in' expression for ", container, " expects a string, not ");
            msg.append(member);
            let pos = lhs.position();
            Err(ParseErrorType::MalformedInExpr(msg).into_err(pos))
        },
        _ => Ok(Expr::In(Box::new(BinaryExpr { lhs, rhs }), op_pos)),
    }
}

/// Where an assignment target is at fault, or the sentinel if it is sound.
/// After a dot only properties may follow; inside an index anything may
/// stand.
pub open spec fn check_lvalue(e: ExprV, parent_is_dot: bool) -> Position
    decreases e,
{
    match e {
        ExprV::Dot(l, r, _) => if (*l is Property) == parent_is_dot {
            check_lvalue(*r, true)
        } else {
            l.position()
        },
        ExprV::Index(l, r, _) => if (*l is Property) == parent_is_dot {
            check_lvalue(*r, false)
        } else {
            l.position()
        },
        ExprV::Property(_, _, id) => if parent_is_dot {
            Position::none()
        } else {
            id.pos
        },
        _ => if parent_is_dot {
            e.position()
        } else {
            Position::none()
        },
    }
}

/// The verdict on an assignment whose target rests on the given variable.
/// A variable that was not found at parse time is taken on trust. One that
/// was found must still stand on the stack, and must not be a constant.
pub open spec fn variable_assignment(
    stack: Seq<(Seq<char>, AccessMode)>,
    index: Option<usize>,
    ident: IdentV,
    ok: StmtV,
) -> Result<StmtV, ParseErrorV> {
    match index {
        None => Ok(ok),
        Some(k) => if 1 <= k <= stack.len() {
            match stack[stack.len() - k].1 {
                AccessMode::ReadWrite => Ok(ok),
                AccessMode::ReadOnly => Err(
                    err_at(ParseErrorTypeV::AssignmentToConstant(ident.name), ident.pos),
                ),
            }
        } else {
            Err(err_at(ParseErrorTypeV::AssignmentToInvalidLHS(Seq::empty()), ident.pos))
        },
    }
}

/// The verdict on an assignment to a chain of `.` and `[]` that rests on
/// `base` and whose rest was checked with the result `fault`.
pub open spec fn chain_assignment(
    stack: Seq<(Seq<char>, AccessMode)>,
    base: ExprV,
    fault: Position,
    ok: StmtV,
) -> Result<StmtV, ParseErrorV> {
    if fault == Position::none() {
        match base {
            ExprV::Variable(index, _, ident) => variable_assignment(stack, index, ident, ok),
            _ => Err(
                err_at(ParseErrorTypeV::AssignmentToInvalidLHS(Seq::empty()), base.position()),
            ),
        }
    } else {
        Err(err_at(ParseErrorTypeV::AssignmentToInvalidLHS(Seq::empty()), fault))
    }
}

/// The statement `lhs op rhs`, or why `lhs` cannot be assigned to.
pub open spec fn assignment_stmt(
    stack: Seq<(Seq<char>, AccessMode)>,
    op: Seq<char>,
    lhs: ExprV,
    rhs: ExprV,
    op_pos: Position,
) -> Result<StmtV, ParseErrorV> {
    let ok = StmtV::Assignment(lhs, op, rhs, op_pos);
    if lhs.is_constant() {
        Err(err_at(ParseErrorTypeV::AssignmentToConstant(Seq::empty()), lhs.position()))
    } else {
        match lhs {
            ExprV::Variable(index, _, ident) => variable_assignment(stack, index, ident, ok),
            ExprV::Index(l, r, _) => chain_assignment(stack, *l, check_lvalue(*r, false), ok),
            ExprV::Dot(l, r, _) => chain_assignment(stack, *l, check_lvalue(*r, true), ok),
            ExprV::And(_, _, _) | ExprV::Or(_, _, _) => Err(
                lex_err_at(LexErrorV::ImproperSymbol("="@, "Possibly a typo of '=='?"@), op_pos),
            ),
            _ => Err(
                err_at(ParseErrorTypeV::AssignmentToInvalidLHS(Seq::empty()), lhs.position()),
            ),
        }
    }
}

fn check_lvalue_of(e: &Expr, parent_is_dot: bool) -> (r: Position)
    ensures
        r == check_lvalue(e@, parent_is_dot),
    decreases e,
{
    proof {
        reveal_with_fuel(expr_view, 2);
    }
    match e {
        Expr::Dot(x, _) => {
            let is_property = match &x.lhs {
                Expr::Property(_) => true,
                _ => false,
            };
            if is_property == parent_is_dot {
                check_lvalue_of(&x.rhs, true)
            } else {
                x.lhs.position()
            }
        },
        Expr::Index(x, _) => {
            let is_property = match &x.lhs {
                Expr::Property(_) => true,
                _ => false,
            };
            if is_property == parent_is_dot {
                check_lvalue_of(&x.rhs, false)
            } else {
                x.lhs.position()
            }
        },
        Expr::Property(x) => {
            if parent_is_dot {
                Position::no_position()
            } else {
                x.2.pos
            }
        },
        e => {
            if parent_is_dot {
                e.position()
            } else {
                Position::no_position()
            }
        },
    }
}

fn variable_verdict<P: SyntaxParser>(
    state: &ParseState<'_, P>,
    index: Option<usize>,
    ident: &Ident,
) -> (r: Result<(), ParseError>)
    ensures
        forall|ok: StmtV|
            (match r {
                Ok(()) => Ok(ok),
                Err(e) => Err(e@),
            }) == #[trigger] variable_assignment(state@.stack, index, ident@, ok),
{
    match index {
        None => Ok(()),
        Some(k) => {
            if 1 <= k && k <= state.stack.len() {
                match state.stack[state.stack.len() - k].1 {
                    AccessMode::ReadWrite => Ok(()),
                    AccessMode::ReadOnly => Err(
                        ParseErrorType::AssignmentToConstant(ident.name.clone()).into_err(
                            ident.pos,
                        ),
                    ),
                }
            } else {
                Err(ParseErrorType::AssignmentToInvalidLHS(String::new()).into_err(ident.pos))
            }
        },
    }
}

fn chain_verdict<P: SyntaxParser>(state: &ParseState<'_, P>, base: &Expr, fault: Position) -> (r:
    Result<(), ParseError>)
    ensures
        forall|ok: StmtV|
            (match r {
                Ok(()) => Ok(ok),
                Err(e) => Err(e@),
            }) == #[trigger] chain_assignment(state@.stack, base@, fault, ok),
{
    if fault.is_none() {
        match base {
            Expr::Variable(x) => variable_verdict(state, x.0, &x.2),
            e => {
                let pos = e.position();
                Err(ParseErrorType::AssignmentToInvalidLHS(String::new()).into_err(pos))
            },
        }
    } else {
        Err(ParseErrorType::AssignmentToInvalidLHS(String::new()).into_err(fault))
    }
}

/// Builds the statement `lhs op rhs`, where `op` is `=` or a compound
/// operator such as `+=`.
/// The target must be a variable that is no constant, or a chain of `.` and
/// `[]` that rests on one.
pub fn make_assignment_stmt<P: SyntaxParser>(
    op: String,
    state: &ParseState<'_, P>,
    lhs: Expr,
    rhs: Expr,
    op_pos: Position,
) -> (r: Result<Stmt, ParseError>)
    ensures
        stmt_result(r) == assignment_stmt(state@.stack, op@, lhs@, rhs@, op_pos),
{
    proof {
        reveal_with_fuel(expr_view, 2);
    }
    if lhs.is_constant() {
        let pos = lhs.position();
        return Err(ParseErrorType::AssignmentToConstant(String::new()).into_err(pos));
    }
    let verdict = match &lhs {
        Expr::Variable(x) => variable_verdict(state, x.0, &x.2),
        Expr::Index(x, _) => {
            let fault = check_lvalue_of(&x.rhs, false);
            chain_verdict(state, &x.lhs, fault)
        },
        Expr::Dot(x, _) => {
            let fault = check_lvalue_of(&x.rhs, true);
            chain_verdict(state, &x.lhs, fault)
        },
        Expr::And(_, _) | Expr::Or(_, _) => Err(
            LexError::ImproperSymbol(
                String::from_str("="),
                String::from_str("Possibly a typo of '=='?"),
            ).into_err(op_pos),
        ),
        e => {
            let pos = e.position();
            Err(ParseErrorType::AssignmentToInvalidLHS(String::new()).into_err(pos))
        },
    };
    match verdict {
        Ok(()) => Ok(Stmt::Assignment(Box::new((lhs, op, rhs)), op_pos)),
        Err(e) => Err(e),
    }
}

/// A call of the function `name` on `args` that names no module and
/// captures nothing.
pub open spec fn op_call(
    name: Seq<char>,
    args: Seq<ExprV>,
    def_value: Option<DynamicV>,
    hash_script: Option<u64>,
    pos: Position,
) -> ExprV {
    ExprV::FnCall(
        FnCallExprV { name, namespace: None, capture: false, hash_script, def_value, args },
        pos,
    )
}

fn make_op_call(
    name: String,
    args: Vec<Expr>,
    def_value: Option<Dynamic>,
    hash_script: Option<u64>,
    pos: Position,
) -> (r: Expr)
    ensures
        r@ == op_call(
            name@,
            expr_views(args@),
            match def_value {
                Some(d) => Some(d@),
                None => None,
            },
            hash_script,
            pos,
        ),
{
    Expr::FnCall(
        Box::new(
            FnCallExpr { name, namespace: None, capture: false, hash_script, def_value, args },
        ),
        pos,
    )
}

/// The captured variables as arguments of a call.
pub open spec fn var_exprs(externals: Seq<IdentV>) -> Seq<ExprV> {
    Seq::new(externals.len(), |i: int| ExprV::Variable(None, None, externals[i]))
}

/// The statements that turn the captured variables into shared ones.
pub open spec fn share_stmts(externals: Seq<IdentV>) -> Seq<StmtV> {
    Seq::new(externals.len(), |i: int| StmtV::Share(externals[i]))
}

/// The expression that stands where a closure is written. Without captured
/// variables it is the function pointer itself. With them it is a call of
/// `curry` on the pointer and the variables and, if `share` is set, that
/// call at the end of a block that first shares each variable.
pub open spec fn curry_expr(
    fn_expr: ExprV,
    externals: Seq<IdentV>,
    pos: Position,
    share: bool,
) -> ExprV {
    if externals.len() == 0 {
        fn_expr
    } else {
        let call = op_call(
            "curry"@,
            seq![fn_expr] + var_exprs(externals),
            None,
            Some(script_fn_hash(Seq::empty(), "curry"@, externals.len() + 1)),
            pos,
        );
        if share {
            ExprV::Stmt(share_stmts(externals).push(StmtV::Expr(call)), pos)
        } else {
            call
        }
    }
}

/// Builds the expression that stands where a closure is written, from the
/// pointer to its function and the variables that it captures.
pub fn make_curry_from_externals(
    fn_expr: Expr,
    externals: Vec<Ident>,
    pos: Position,
    share: bool,
) -> (r: Expr)
    ensures
        r@ == curry_expr(fn_expr@, ident_views(externals@), pos, share),
{
    if externals.len() == 0 {
        return fn_expr;
    }
    let ghost ext = ident_views(externals@);
    let mut args: Vec<Expr> = Vec::new();
    args.push(fn_expr);
    proof {
        lemma_expr_views_push(Seq::empty(), fn_expr);
        assert(args@ =~= Seq::<Expr>::empty().push(fn_expr));
        assert(expr_views(args@) =~= seq![fn_expr@] + var_exprs(ext).take(0));
    }
    let mut i: usize = 0;
    while i < externals.len()
        invariant
            i <= externals@.len(),
            ext == ident_views(externals@),
            args@.len() == i + 1,
            expr_views(args@) == seq![fn_expr@] + var_exprs(ext).take(i as int),
        decreases externals@.len() - i,
    {
        let var = Expr::Variable(Box::new((None, None, externals[i].clone_ident())));
        proof {
            lemma_expr_views_push(args@, var);
            assert(var@ == var_exprs(ext)[i as int]);
            assert(expr_views(args@).push(var@) =~= seq![fn_expr@] + var_exprs(ext).take(i + 1));
        }
        args.push(var);
        i = i + 1;
    }
    proof {
        assert(var_exprs(ext).take(i as int) =~= var_exprs(ext));
    }
    let no_modules: Vec<Ident> = Vec::new();
    let hash_script = calc_script_fn_hash(&no_modules, "curry", args.len());
    proof {
        assert(ident_names(ident_views(no_modules@)) =~= Seq::<Seq<char>>::empty());
    }
    let call = make_op_call(String::from_str("curry"), args, None, Some(hash_script), pos);
    if !share {
        return call;
    }
    let mut statements: Vec<Stmt> = Vec::new();
    proof {
        assert(stmt_views(statements@) =~= share_stmts(ext).take(0));
    }
    let mut j: usize = 0;
    let n = externals.len();
    while j < n
        invariant
            j <= n,
            n == externals@.len(),
            ext == ident_views(externals@),
            stmt_views(statements@) == share_stmts(ext).take(j as int),
        decreases n - j,
    {
        let stmt = Stmt::Share(externals[j].clone_ident());
        proof {
            lemma_stmt_views_push(statements@, stmt);
            assert(stmt@ == share_stmts(ext)[j as int]);
            assert(stmt_views(statements@).push(stmt@) =~= share_stmts(ext).take(j + 1));
        }
        statements.push(stmt);
        j = j + 1;
    }
    proof {
        assert(share_stmts(ext).take(j as int) =~= share_stmts(ext));
    }
    let last = Stmt::Expr(call);
    proof {
        lemma_stmt_views_push(statements@, last);
    }
    statements.push(last);
    Expr::Stmt(statements, pos)
}

/// The error for an expression that can have no index at all.
pub open spec fn not_indexable(lhs: ExprV) -> Option<ParseErrorV> {
    Some(
        err_at(
            ParseErrorTypeV::MalformedIndexExpr(
                "Only arrays, object maps and strings can be indexed"@,
            ),
            lhs.position(),
        ),
    )
}

/// Is the expression a literal that is neither array, string nor object
/// map?
pub open spec fn is_scalar_literal(e: ExprV) -> bool {
    e is FloatConstant || e is CharConstant || e is And || e is Or || e is In || e is BoolConstant
        || e is Unit
}

/// The error in `lhs[idx]` that shows from the literals alone, if there is
/// one: arrays and strings take integers that are not negative, object maps
/// take strings, and other literals take no index.
pub open spec fn index_error(lhs: ExprV, idx: ExprV) -> Option<ParseErrorV> {
    match idx {
        ExprV::IntegerConstant(x, pos) => if x < 0 {
            Some(
                err_at(
                    ParseErrorTypeV::MalformedIndexExpr(
                        "Array access expects non-negative index: "@ + signed_decimal(x as int)
                            + " < 0"@,
                    ),
                    pos,
                ),
            )
        } else if lhs is ObjectMap {
            Some(
                err_at(
                    ParseErrorTypeV::MalformedIndexExpr(
                        "Object map access expects string index, not a number"@,
                    ),
                    pos,
                ),
            )
        } else if is_scalar_literal(lhs) {
            not_indexable(lhs)
        } else {
            None
        },
        ExprV::StringConstant(_, pos) => if lhs is Array || lhs is StringConstant {
            Some(
                err_at(
                    ParseErrorTypeV::MalformedIndexExpr(
                        "Array or string expects numeric index, not a string"@,
                    ),
                    pos,
                ),
            )
        } else if is_scalar_literal(lhs) {
            not_indexable(lhs)
        } else {
            None
        },
        ExprV::FloatConstant(_, pos) => Some(
            err_at(
                ParseErrorTypeV::MalformedIndexExpr(
                    "Array access expects integer index, not a float"@,
                ),
                pos,
            ),
        ),
        ExprV::CharConstant(_, pos) => Some(
            err_at(
                ParseErrorTypeV::MalformedIndexExpr(
                    "Array access expects integer index, not a character"@,
                ),
                pos,
            ),
        ),
        ExprV::Unit(pos) => Some(
            err_at(
                ParseErrorTypeV::MalformedIndexExpr("Array access expects integer index, not ()"@),
                pos,
            ),
        ),
        ExprV::And(_, _, _) | ExprV::Or(_, _, _) | ExprV::In(_, _, _) | ExprV::BoolConstant(
            _,
            _,
        ) => Some(
            err_at(
                ParseErrorTypeV::MalformedIndexExpr(
                    "Array access expects integer index, not a boolean"@,
                ),
                idx.position(),
            ),
        ),
        _ => None,
    }
}

fn scalar_literal(e: &Expr) -> (r: bool)
    ensures
        r == is_scalar_literal(e@),
{
    match e {
        Expr::FloatConstant(_, _)
        | Expr::CharConstant(_, _)
        | Expr::And(_, _)
        | Expr::Or(_, _)
        | Expr::In(_, _)
        | Expr::BoolConstant(_, _)
        | Expr::Unit(_) => true,
        _ => false,
    }
}

fn index_fault(msg: &str, pos: Position) -> (r: Result<(), ParseError>)
    ensures
        r matches Err(e) && e@ == err_at(ParseErrorTypeV::MalformedIndexExpr(msg@), pos),
{
    Err(ParseErrorType::MalformedIndexExpr(String::from_str(msg)).into_err(pos))
}

/// Checks `lhs[idx]` as far as the literals in it allow.
pub fn check_index_type(lhs: &Expr, idx: &Expr) -> (r: Result<(), ParseError>)
    ensures
        match r {
            Ok(()) => index_error(lhs@, idx@) is None,
            Err(e) => index_error(lhs@, idx@) == Some(e@),
        },
{
    match idx {
        Expr::IntegerConstant(x, pos) => {
            if *x < 0 {
                let digits = signed_decimal_string(*x);
                let msg = concat3(
                    "Array access expects non-negative index: ",
                    digits.as_str(),
                    " < 0",
                );
                Err(ParseErrorType::MalformedIndexExpr(msg).into_err(*pos))
            } else {
                match lhs {
                    Expr::ObjectMap(_, _) => index_fault(
                        "Object map access expects string index, not a number",
                        *pos,
                    ),
                    _ => {
                        if scalar_literal(lhs) {
                            index_fault(
                                "Only arrays, object maps and strings can be indexed",
                                lhs.position(),
                            )
                        } else {
                            Ok(())
                        }
                    },
                }
            }
        },
        Expr::StringConstant(_, pos) => {
            match lhs {
                Expr::Array(_, _) | Expr::StringConstant(_, _) => index_fault(
                    "Array or string expects numeric index, not a string",
                    *pos,
                ),
                _ => {
                    if scalar_literal(lhs) {
                        index_fault(
                            "Only arrays, object maps and strings can be indexed",
                            lhs.position(),
                        )
                    } else {
                        Ok(())
                    }
                },
            }
        },
        Expr::FloatConstant(_, pos) => index_fault(
            "Array access expects integer index, not a float",
            *pos,
        ),
        Expr::CharConstant(_, pos) => index_fault(
            "Array access expects integer index, not a character",
            *pos,
        ),
        Expr::Unit(pos) => index_fault("Array access expects integer index, not ()", *pos),
        Expr::And(_, _) | Expr::Or(_, _) | Expr::In(_, _) | Expr::BoolConstant(_, _) => {
            index_fault("Array access expects integer index, not a boolean", idx.position())
        },
        _ => Ok(()),
    }
}

/// The bits of the floating-point number 2^63, the magnitude of the one
/// integer whose negation is no integer.
pub open spec fn float_two_pow_63() -> u64 {
    0x43E0_0000_0000_0000u64
}

/// `-expr` as a tree. A literal is negated on the spot: an integer stays an
/// integer if it can and becomes a float if not, where floats are switched
/// on; a float has its sign flipped. Anything else is handed to the
/// function `-`.
pub open spec fn negated(e: ExprV, pos: Position, floats: bool) -> Result<ExprV, ParseErrorV> {
    match e {
        ExprV::IntegerConstant(num, p) => if num != i64::MIN {
            Ok(ExprV::IntegerConstant((-num) as i64, p))
        } else if floats {
            Ok(ExprV::FloatConstant(float_two_pow_63(), p))
        } else {
            Err(
                lex_err_at(
                    LexErrorV::MalformedNumber("-"@ + signed_decimal(num as int)),
                    p,
                ),
            )
        },
        ExprV::FloatConstant(x, p) => Ok(ExprV::FloatConstant(x ^ 0x8000_0000_0000_0000u64, p)),
        _ => Ok(op_call("-"@, seq![e], None, None, pos)),
    }
}

/// `+expr` as a tree: a number literal itself, anything else handed to the
/// function `+`.
pub open spec fn plussed(e: ExprV, pos: Position) -> ExprV {
    match e {
        ExprV::IntegerConstant(_, _) => e,
        ExprV::FloatConstant(_, _) => e,
        _ => op_call("+"@, seq![e], None, None, pos),
    }
}

/// `!expr` as a tree: a call of the function `!` that is false where no
/// function fits the operand.
pub open spec fn notted(e: ExprV, pos: Position) -> ExprV {
    op_call("!"@, seq![e], Some(DynamicV::Bool(false)), None, pos)
}

fn one_arg(e: Expr) -> (r: Vec<Expr>)
    ensures
        expr_views(r@) == seq![e@],
{
    let mut args: Vec<Expr> = Vec::new();
    args.push(e);
    proof {
        lemma_expr_views(args@);
        assert(expr_views(args@) =~= seq![e@]);
    }
    args
}

fn two_args(a: Expr, b: Expr) -> (r: Vec<Expr>)
    ensures
        expr_views(r@) == seq![a@, b@],
{
    let mut args: Vec<Expr> = Vec::new();
    args.push(a);
    args.push(b);
    proof {
        lemma_expr_views(args@);
        assert(expr_views(args@) =~= seq![a@, b@]);
    }
    args
}

/// Builds the tree for `-expr`, where the operator stands at `pos`.
pub fn make_negated(e: Expr, pos: Position, floats: bool) -> (r: Result<Expr, ParseError>)
    ensures
        expr_result(r) == negated(e@, pos, floats),
{
    match e {
        Expr::IntegerConstant(num, p) => {
            if num != i64::MIN {
                Ok(Expr::IntegerConstant(-num, p))
            } else if floats {
                Ok(Expr::FloatConstant(0x43E0_0000_0000_0000u64, p))
            } else {
                let digits = signed_decimal_string(num);
                let text = concat2("-", digits.as_str());
                Err(LexError::MalformedNumber(text).into_err(p))
            }
        },
        Expr::FloatConstant(x, p) => Ok(Expr::FloatConstant(x ^ 0x8000_0000_0000_0000u64, p)),
        e => Ok(make_op_call(String::from_str("-"), one_arg(e), None, None, pos)),
    }
}

/// Builds the tree for `+expr`, where the operator stands at `pos`.
pub fn make_plussed(e: Expr, pos: Position) -> (r: Expr)
    ensures
        r@ == plussed(e@, pos),
{
    match e {
        Expr::IntegerConstant(num, p) => Expr::IntegerConstant(num, p),
        Expr::FloatConstant(x, p) => Expr::FloatConstant(x, p),
        e => make_op_call(String::from_str("+"), one_arg(e), None, None, pos),
    }
}

/// Builds the tree for `!expr`, where the operator stands at `pos`.
pub fn make_notted(e: Expr, pos: Position) -> (r: Expr)
    ensures
        r@ == notted(e@, pos),
{
    make_op_call(String::from_str("!"), one_arg(e), Some(Dynamic::Bool(false)), None, pos)
}

/// Is the token one of the arithmetic, bitwise and shift operators?
pub open spec fn is_arithmetic(op: Token) -> bool {
    op is Plus || op is Minus || op is Multiply || op is Divide || op is LeftShift
        || op is RightShift || op is Modulo || op is PowerOf || op is Ampersand || op is Pipe
        || op is XOr
}

/// Is the token one of the comparisons that are false of operands that
/// cannot be compared?
pub open spec fn is_comparison(op: Token) -> bool {
    op is EqualsTo || op is LessThan || op is LessThanEqualsTo || op is GreaterThan
        || op is GreaterThanEqualsTo
}

/// `lhs op rhs` as a tree, where the operator stands at `pos`. Arithmetic
/// operators and comparisons become calls of the function of their name;
/// `!=` is true and the other comparisons are false where no function fits
/// the operands. `&&`, `||` and `in` get nodes of their own. A custom
/// operator becomes a call, with the hash of a script function of two
/// arguments when its name is an identifier.
pub open spec fn binary_expr<P: SyntaxParser>(
    engine: &Engine<P>,
    op: Token,
    lhs: ExprV,
    rhs: ExprV,
    pos: Position,
) -> Result<ExprV, ParseErrorV> {
    if is_arithmetic(op) {
        Ok(op_call(op.syntax_spec(), seq![lhs, rhs], None, None, pos))
    } else if op is NotEqualsTo {
        Ok(op_call(op.syntax_spec(), seq![lhs, rhs], Some(DynamicV::Bool(true)), None, pos))
    } else if is_comparison(op) {
        Ok(op_call(op.syntax_spec(), seq![lhs, rhs], Some(DynamicV::Bool(false)), None, pos))
    } else {
        match op {
            Token::Or => Ok(ExprV::Or(Box::new(lhs), Box::new(rhs), pos)),
            Token::And => Ok(ExprV::And(Box::new(lhs), Box::new(rhs), pos)),
            Token::In => in_expr(lhs, rhs, pos),
            Token::Custom(s) => if engine.custom_precedence_spec(s@) is Some {
                Ok(
                    op_call(
                        s@,
                        seq![lhs, rhs],
                        None,
                        if is_valid_identifier_spec(s@) {
                            Some(script_fn_hash(Seq::empty(), s@, 2))
                        } else {
                            None
                        },
                        pos,
                    ),
                )
            } else {
                Err(err_at(ParseErrorTypeV::UnknownOperator(s@), pos))
            },
            _ => Err(err_at(ParseErrorTypeV::UnknownOperator(op.syntax_spec()), pos)),
        }
    }
}

/// Builds the tree for `lhs op rhs`, where the operator stands at `pos`.
pub fn make_binary_expr<P: SyntaxParser>(
    engine: &Engine<P>,
    op: Token,
    lhs: Expr,
    rhs: Expr,
    pos: Position,
) -> (r: Result<Expr, ParseError>)
    requires
        engine.wf(),
    ensures
        expr_result(r) == binary_expr(engine, op, lhs@, rhs@, pos),
{
    match op {
        Token::Plus
        | Token::Minus
        | Token::Multiply
        | Token::Divide
        | Token::LeftShift
        | Token::RightShift
        | Token::Modulo
        | Token::PowerOf
        | Token::Ampersand
        | Token::Pipe
        | Token::XOr => Ok(make_op_call(op.syntax(), two_args(lhs, rhs), None, None, pos)),
        Token::NotEqualsTo => Ok(
            make_op_call(op.syntax(), two_args(lhs, rhs), Some(Dynamic::Bool(true)), None, pos),
        ),
        Token::EqualsTo
        | Token::LessThan
        | Token::LessThanEqualsTo
        | Token::GreaterThan
        | Token::GreaterThanEqualsTo => Ok(
            make_op_call(op.syntax(), two_args(lhs, rhs), Some(Dynamic::Bool(false)), None, pos),
        ),
        Token::Or => Ok(Expr::Or(Box::new(BinaryExpr { lhs, rhs }), pos)),
        Token::And => Ok(Expr::And(Box::new(BinaryExpr { lhs, rhs }), pos)),
        Token::In => make_in_expr(lhs, rhs, pos),
        Token::Custom(s) => {
            if engine.custom_precedence(s.as_str()).is_some() {
                let hash_script = if is_valid_identifier(s.as_str()) {
                    let no_modules: Vec<Ident> = Vec::new();
                    proof {
                        assert(ident_names(ident_views(no_modules@)) =~= Seq::<Seq<char>>::empty());
                    }
                    Some(calc_script_fn_hash(&no_modules, s.as_str(), 2))
                } else {
                    None
                };
                Ok(make_op_call(s, two_args(lhs, rhs), None, hash_script, pos))
            } else {
                Err(ParseErrorType::UnknownOperator(s).into_err(pos))
            }
        },
        op => Err(ParseErrorType::UnknownOperator(op.syntax()).into_err(pos)),
    }
}

/// How strongly the token binds as a binary operator under the engine's
/// configuration: a custom keyword as it was registered, any other token by
/// the language's table. A custom keyword that is no operator and a
/// reserved symbol are errors.
pub open spec fn operator_precedence<P: SyntaxParser>(
    engine: &Engine<P>,
    token: Token,
    pos: Position,
) -> Result<u8, ParseErrorV> {
    match token {
        Token::Custom(c) => match engine.custom_precedence_spec(c@) {
            Some(p) => Ok(p),
            None => Err(err_at(ParseErrorTypeV::Reserved(c@), pos)),
        },
        Token::Reserved(c) => if !is_valid_identifier_spec(c@) {
            Err(err_at(ParseErrorTypeV::UnknownOperator(c@), pos))
        } else {
            Ok(token.precedence_spec())
        },
        _ => Ok(token.precedence_spec()),
    }
}

/// Looks up how strongly the token at `pos` binds as a binary operator.
pub fn get_precedence<P: SyntaxParser>(
    engine: &Engine<P>,
    token: &Token,
    pos: Position,
) -> (r: Result<u8, ParseError>)
    requires
        engine.wf(),
    ensures
        match r {
            Ok(p) => operator_precedence(engine, *token, pos) == Ok::<u8, ParseErrorV>(p),
            Err(e) => operator_precedence(engine, *token, pos) == Err::<u8, ParseErrorV>(e@),
        },
        r matches Ok(p) ==> (p > 0 ==> !(*token is EOF)),
{
    match token {
        Token::Custom(c) => {
            match engine.custom_precedence(c.as_str()) {
                Some(p) => Ok(p),
                None => Err(ParseErrorType::Reserved(c.clone()).into_err(pos)),
            }
        },
        Token::Reserved(c) => {
            if !is_valid_identifier(c.as_str()) {
                Err(ParseErrorType::UnknownOperator(c.clone()).into_err(pos))
            } else {
                Ok(token.precedence())
            }
        },
        _ => Ok(token.precedence()),
    }
}

/// The expressions for a sequence of values, if each value has one.
pub open spec fn lower_all(items: Seq<DynamicV>, pos: Position) -> Option<Seq<ExprV>>
    decreases items,
{
    if items.len() == 0 {
        Some(Seq::empty())
    } else {
        match (lower_all(items.drop_last(), pos), lower(items.last(), pos)) {
            (Some(es), Some(e)) => Some(es.push(e)),
            _ => None,
        }
    }
}

/// The properties of a literal for the entries of an object map, if each
/// value has an expression.
pub open spec fn lower_entries(m: Seq<(Seq<char>, DynamicV)>, pos: Position) -> Option<
    Seq<(IdentV, ExprV)>,
>
    decreases m,
{
    if m.len() == 0 {
        Some(Seq::empty())
    } else {
        match (lower_entries(m.drop_last(), pos), lower(m.last().1, pos)) {
            (Some(ps), Some(e)) => Some(ps.push((IdentV { name: m.last().0, pos }, e))),
            _ => None,
        }
    }
}

/// The constant expression at `pos` that stands for a value: a literal for
/// a unit, boolean, number, character or string, and a literal array or
/// object map if every item in it has an expression. Other values have
/// none.
pub open spec fn lower(v: DynamicV, pos: Position) -> Option<ExprV>
    decreases v,
{
    match v {
        DynamicV::Unit => Some(ExprV::Unit(pos)),
        DynamicV::Bool(b) => Some(ExprV::BoolConstant(b, pos)),
        DynamicV::Int(i) => Some(ExprV::IntegerConstant(i, pos)),
        DynamicV::Float(f) => Some(ExprV::FloatConstant(f, pos)),
        DynamicV::Char(c) => Some(ExprV::CharConstant(c, pos)),
        DynamicV::Str(s) => Some(ExprV::StringConstant(s, pos)),
        DynamicV::Array(items) => match lower_all(items, pos) {
            Some(es) => Some(ExprV::Array(es, pos)),
            None => None,
        },
        DynamicV::ObjectMap(m) => match lower_entries(m, pos) {
            Some(ps) => Some(ExprV::ObjectMap(ps, pos)),
            None => None,
        },
        DynamicV::FnPtr(_) => None,
    }
}

fn lower_value(value: &Dynamic, pos: Position) -> (r: Option<Expr>)
    ensures
        match r {
            Some(e) => lower(value@, pos) == Some(e@),
            None => lower(value@, pos) is None,
        },
    decreases value,
{
    match value {
        Dynamic::Unit => Some(Expr::Unit(pos)),
        Dynamic::Bool(b) => Some(Expr::BoolConstant(*b, pos)),
        Dynamic::Int(i) => Some(Expr::IntegerConstant(*i, pos)),
        Dynamic::Float(f) => Some(Expr::FloatConstant(*f, pos)),
        Dynamic::Char(c) => Some(Expr::CharConstant(*c, pos)),
        Dynamic::Str(s) => Some(Expr::StringConstant(s.clone(), pos)),
        Dynamic::FnPtr(_) => None,
        Dynamic::Array(items) => {
            proof {
                lemma_array_view(*value);
            }
            let ghost views = dynamic_views(items@);
            let mut exprs: Vec<Expr> = Vec::new();
            let mut i: usize = 0;
            while i < items.len()
                invariant
                    i <= items@.len(),
                    value is Array,
                    value->Array_0 == *items,
                    views == dynamic_views(items@),
                    value@ == DynamicV::Array(views),
                    lower_all(views.take(i as int), pos) == Some(expr_views(exprs@)),
                decreases items@.len() - i,
            {
                proof {
                    vstd::std_specs::vec::axiom_vec_index_decreases(*items, i as int);
                    assert(views.take(i + 1).drop_last() =~= views.take(i as int));
                    assert(views.take(i + 1).last() == items@[i as int]@);
                }
                match lower_value(&items[i], pos) {
                    Some(e) => {
                        proof {
                            lemma_expr_views_push(exprs@, e);
                        }
                        exprs.push(e);
                    },
                    None => {
                        proof {
                            assert(lower_all(views.take(i + 1), pos) is None);
                            if lower_all(views, pos) is Some {
                                lemma_lower_all_prefix(views, pos, i + 1);
                            }
                        }
                        return None;
                    },
                }
                i = i + 1;
            }
            proof {
                assert(views.take(i as int) =~= views);
            }
            Some(Expr::Array(exprs, pos))
        },
        Dynamic::ObjectMap(m) => {
            proof {
                lemma_map_view(*value);
            }
            let ghost views = m@;
            let mut pairs: Vec<(Ident, Expr)> = Vec::new();
            let mut i: usize = 0;
            while i < m.entries.len()
                invariant
                    i <= m.entries@.len(),
                    value is ObjectMap,
                    value->ObjectMap_0 == *m,
                    views == m@,
                    value@ == DynamicV::ObjectMap(views),
                    lower_entries(views.take(i as int), pos) == Some(pair_views(pairs@)),
                decreases m.entries@.len() - i,
            {
                proof {
                    vstd::std_specs::vec::axiom_vec_index_decreases(m.entries, i as int);
                    assert(views.take(i + 1).drop_last() =~= views.take(i as int));
                    assert(views.take(i + 1).last() == (
                        m.entries@[i as int].0@,
                        m.entries@[i as int].1@,
                    ));
                }
                match lower_value(&m.entries[i].1, pos) {
                    Some(e) => {
                        let pair = (Ident { name: m.entries[i].0.clone(), pos }, e);
                        proof {
                            lemma_pair_views_push(pairs@, pair);
                        }
                        pairs.push(pair);
                    },
                    None => {
                        proof {
                            assert(lower_entries(views.take(i + 1), pos) is None);
                            if lower_entries(views, pos) is Some {
                                lemma_lower_entries_prefix(views, pos, i + 1);
                            }
                        }
                        return None;
                    },
                }
                i = i + 1;
            }
            proof {
                assert(views.take(i as int) =~= views);
            }
            Some(Expr::ObjectMap(pairs, pos))
        },
    }
}

/// If all values have expressions, so have those of every prefix.
pub proof fn lemma_lower_all_prefix(items: Seq<DynamicV>, pos: Position, n: int)
    requires
        0 <= n <= items.len(),
        lower_all(items, pos) is Some,
    ensures
        lower_all(items.take(n), pos) is Some,
    decreases items.len(),
{
    if n == items.len() {
        assert(items.take(n) =~= items);
    } else {
        lemma_lower_all_prefix(items.drop_last(), pos, n);
        assert(items.drop_last().take(n) =~= items.take(n));
    }
}

/// If all entries have expressions, so have those of every prefix.
pub proof fn lemma_lower_entries_prefix(m: Seq<(Seq<char>, DynamicV)>, pos: Position, n: int)
    requires
        0 <= n <= m.len(),
        lower_entries(m, pos) is Some,
    ensures
        lower_entries(m.take(n), pos) is Some,
    decreases m.len(),
{
    if n == m.len() {
        assert(m.take(n) =~= m);
    } else {
        lemma_lower_entries_prefix(m.drop_last(), pos, n);
        assert(m.drop_last().take(n) =~= m.take(n));
    }
}

/// Turns a value into the constant expression that stands for it at `pos`,
/// if there is one.
pub fn map_dynamic_to_expr(value: Dynamic, pos: Position) -> (r: Option<Expr>)
    ensures
        match r {
            Some(e) => lower(value@, pos) == Some(e@),
            None => lower(value@, pos) is None,
        },
{
    lower_value(&value, pos)
}

/// In the value and in every value inside it, no object map holds a
/// property twice.
pub open spec fn value_wf(v: DynamicV) -> bool
    decreases v,
{
    match v {
        DynamicV::Array(items) => values_wf(items),
        DynamicV::ObjectMap(m) => map_wf(m) && entries_wf(m),
        _ => true,
    }
}

/// Every value of the sequence is well formed.
pub open spec fn values_wf(items: Seq<DynamicV>) -> bool
    decreases items,
{
    items.len() == 0 || (values_wf(items.drop_last()) && value_wf(items.last()))
}

/// Every value among the entries is well formed.
pub open spec fn entries_wf(m: Seq<(Seq<char>, DynamicV)>) -> bool
    decreases m,
{
    m.len() == 0 || (entries_wf(m.drop_last()) && value_wf(m.last().1))
}

/// The expression that stands for a value is constant, and its value is the
/// value again.
pub proof fn lemma_lower_round_trip(v: DynamicV, pos: Position)
    requires
        value_wf(v),
    ensures
        lower(v, pos) matches Some(e) ==> e.is_constant() && e.constant_value() == Some(v),
    decreases v, 1int,
{
    match v {
        DynamicV::Array(items) => {
            lemma_lower_all_round_trip(items, pos);
        },
        DynamicV::ObjectMap(m) => {
            lemma_lower_entries_round_trip(m, pos);
        },
        _ => {},
    }
}

/// The expressions that stand for a sequence of values are constant, and
/// their values are the values again.
pub proof fn lemma_lower_all_round_trip(items: Seq<DynamicV>, pos: Position)
    requires
        values_wf(items),
    ensures
        lower_all(items, pos) matches Some(es) ==> all_constant(es) && constant_values(es)
            == Some(items),
    decreases items, 0int,
{
    if items.len() > 0 {
        lemma_lower_all_round_trip(items.drop_last(), pos);
        lemma_lower_round_trip(items.last(), pos);
        match (lower_all(items.drop_last(), pos), lower(items.last(), pos)) {
            (Some(es), Some(e)) => {
                assert(es.push(e).drop_last() =~= es);
                assert(items.drop_last().push(items.last()) =~= items);
            },
            _ => {},
        }
    }
}

/// The properties that stand for the entries of an object map are
/// constant, and the object map of their values is the object map again.
pub proof fn lemma_lower_entries_round_trip(m: Seq<(Seq<char>, DynamicV)>, pos: Position)
    requires
        map_wf(m),
        entries_wf(m),
    ensures
        lower_entries(m, pos) matches Some(ps) ==> all_constant_pairs(ps) && constant_map(ps)
            == Some(m),
    decreases m, 0int,
{
    if m.len() > 0 {
        lemma_lower_entries_round_trip(m.drop_last(), pos);
        lemma_lower_round_trip(m.last().1, pos);
        match (lower_entries(m.drop_last(), pos), lower(m.last().1, pos)) {
            (Some(ps), Some(e)) => {
                let p = (IdentV { name: m.last().0, pos }, e);
                assert(ps.push(p).drop_last() =~= ps);
                assert forall|j: int| 0 <= j < m.drop_last().len() implies map_keys(
                    m.drop_last(),
                )[j]
                    != m.last().0 by {
                    assert(m.drop_last()[j] == m[j]);
                }
                lemma_no_index(map_keys(m.drop_last()), m.last().0);
                assert(m.drop_last().push(m.last()) =~= m);
            },
            _ => {},
        }
    }
}

} // verus!
