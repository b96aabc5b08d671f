//! Expressions that stand as statements, and assignments.

use vstd::prelude::*;
use crate::ast::{Expr, Stmt, StmtV};
use crate::builder::{make_assignment_stmt, stmt_result};
use crate::engine::SyntaxParser;
use crate::error::{ParseError, ParseErrorV};
use crate::grammar::{g_expr, g_expr_stmt, g_op_assignment, source_of, too_deep};
use crate::operator::parse_expr;
use crate::parser::{FunctionsLib, config_of, done, kept, ready, settled, yields};
use crate::state::{ParseSettings, ParseState};
use crate::token::TokenStream;

verus! {

/// Parses what may follow an expression that stands as a statement: an
/// assignment operator and the value that is assigned. Without one, the
/// expression is the statement.
pub fn parse_op_assignment_stmt<P: SyntaxParser>(
    input: &mut TokenStream,
    state: &mut ParseState<'_, P>,
    lib: &mut FunctionsLib,
    lhs: Expr,
    settings: ParseSettings,
) -> (r: Result<Stmt, ParseError>)
    requires
        ready(*old(input), *old(state), *old(lib), settings, 9),
    ensures
        kept(*old(input), *final(input), *old(state), *final(state), *final(lib)),
        r is Ok ==> settled(*old(state), *final(state)),
        r is Ok ==> settings.within(old(state).max_expr_depth),
        r matches Ok(st) ==> st is Expr || st is Assignment,
        !settings.within(old(state).max_expr_depth) ==> stmt_result(r) == Err::<
            StmtV,
            ParseErrorV,
        >(too_deep(settings.pos)),
        settings.within(old(state).max_expr_depth) && !old(input).peek_spec().0.is_assignment_spec()
            ==> r == Ok::<Stmt, ParseError>(Stmt::Expr(lhs))
            && *final(input) == *old(input) && *final(state) == *old(state) && *final(lib)
            == *old(lib),
        yields(
            stmt_result(r),
            *final(input),
            *final(state),
            *final(lib),
            g_op_assignment(
                old(state).engine,
                source_of(*old(input)),
                config_of(*old(input), *old(state), *old(lib)),
                settings,
                lhs@,
            ),
        ),
    decreases old(input).remaining(), 9nat,
{
    proof {
        reveal(g_op_assignment);
        reveal(g_expr);
        assert(source_of(*input).at(input.cursor as int) == input.peek_spec());
    }
    let mut s = settings;
    s.ensure_level_within_max_limit(state.max_expr_depth)?;
    s.pos = input.peek().1;
    if !input.peek().0.is_assignment() {
        return Ok(Stmt::Expr(lhs));
    }
    let op = input.peek().0.syntax();
    let (_, pos) = input.next();
    let rhs = parse_expr(input, state, lib, s.level_up())?;
    make_assignment_stmt(op, state, lhs, rhs, pos)
}

/// Parses an expression that stands as a statement, with the assignment
/// that may follow it.
#[verifier::rlimit(30)]
pub fn parse_expr_stmt<P: SyntaxParser>(
    input: &mut TokenStream,
    state: &mut ParseState<'_, P>,
    lib: &mut FunctionsLib,
    settings: ParseSettings,
) -> (r: Result<Stmt, ParseError>)
    requires
        ready(*old(input), *old(state), *old(lib), settings, 9),
    ensures
        kept(*old(input), *final(input), *old(state), *final(state), *final(lib)),
        r is Ok ==> done(*old(input), *final(input), *old(state), *final(state)),
        r is Ok ==> settings.within(old(state).max_expr_depth),
        r matches Ok(st) ==> st is Expr || st is Assignment,
        !settings.within(old(state).max_expr_depth) ==> stmt_result(r) == Err::<
            StmtV,
            ParseErrorV,
        >(too_deep(settings.pos)),
        yields(
            stmt_result(r),
            *final(input),
            *final(state),
            *final(lib),
            g_expr_stmt(
                old(state).engine,
                source_of(*old(input)),
                config_of(*old(input), *old(state), *old(lib)),
                settings,
            ),
        ),
    decreases old(input).remaining(), 9nat,
{
    proof {
        reveal(g_expr_stmt);
        reveal(g_expr);
        reveal(g_op_assignment);
        assert(source_of(*input).at(input.cursor as int) == input.peek_spec());
    }
    let mut s = settings;
    s.ensure_level_within_max_limit(state.max_expr_depth)?;
    s.pos = input.peek().1;
    let expr = parse_expr(input, state, lib, s.level_up())?;
    parse_op_assignment_stmt(input, state, lib, expr, s.level_up())
}

} // verus!
