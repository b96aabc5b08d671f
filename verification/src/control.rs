//! Conditionals, loops and error handlers.

use vstd::prelude::*;
use crate::ast::{Expr, ExprV, Ident, IdentV, Stmt, StmtV, opt_stmt_view, stmt_view};
use crate::block::parse_block;
use crate::builder::stmt_result;
use crate::dynamic::AccessMode;
use crate::engine::SyntaxParser;
use crate::error::{ParseError, ParseErrorType, ParseErrorV, missing};
use crate::grammar::{
    g_block, g_catch_variable, g_do, g_else, g_expr, g_for, g_if, g_try, g_while, source_of,
    too_deep, truncated, variable_name,
};
use crate::operator::parse_expr;
use crate::parser::{
    FunctionsLib, config_of, done, eat_token, ensure_not_assignment, ensure_not_statement_expr,
    kept, match_token, next_variable_name, ready, settled, yields,
};
use crate::state::{ParseSettings, ParseState};
use crate::token::{LexError, Token, TokenStream};

verus! {

/// Parses `if guard { ... }` with any `else` branch, which is a block or
/// another `if`. The cursor stands on `if`.
#[verifier::rlimit(40)]
pub fn parse_if<P: SyntaxParser>(
    input: &mut TokenStream,
    state: &mut ParseState<'_, P>,
    lib: &mut FunctionsLib,
    settings: ParseSettings,
) -> (r: Result<Stmt, ParseError>)
    requires
        ready(*old(input), *old(state), *old(lib), settings, 2),
        old(input).peek_spec().0 is If,
    ensures
        kept(*old(input), *final(input), *old(state), *final(state), *final(lib)),
        r is Ok ==> done(*old(input), *final(input), *old(state), *final(state)),
        r is Ok ==> settings.within(old(state).max_expr_depth),
        r matches Ok(st) ==> (st@ matches StmtV::If(_, _, _, p) && p == old(input).peek_spec().1),
        !settings.within(old(state).max_expr_depth) ==> stmt_result(r) == Err::<
            StmtV,
            ParseErrorV,
        >(too_deep(settings.pos)),
        yields(
            stmt_result(r),
            *final(input),
            *final(state),
            *final(lib),
            g_if(
                old(state).engine,
                source_of(*old(input)),
                config_of(*old(input), *old(state), *old(lib)),
                settings,
            ),
        ),
    decreases old(input).remaining(), 2nat,
{
    proof {
        reveal(g_if);
        reveal(g_expr);
        reveal(g_block);
        reveal(g_else);
        assert(source_of(*input).at(input.cursor as int) == input.peek_spec());
        assert(source_of(*input).at(input.cursor + 1) == input.ahead(1));
    }
    let mut s = settings;
    s.ensure_level_within_max_limit(state.max_expr_depth)?;
    s.pos = eat_token(input, Token::If);
    ensure_not_statement_expr(input, "a boolean")?;
    let guard = parse_expr(input, state, lib, s.level_up())?;
    ensure_not_assignment(input)?;
    let if_body = parse_block(input, state, lib, s.level_up())?;
    let else_body = parse_else(input, state, lib, s)?;
    proof {
        reveal_with_fuel(stmt_view, 2);
        reveal_with_fuel(opt_stmt_view, 2);
    }
    Ok(Stmt::If(guard, Box::new((if_body, else_body)), s.pos))
}

/// The value of an optional statement.
pub open spec fn opt_stmt_result(r: Result<Option<Stmt>, ParseError>) -> Result<
    Option<StmtV>,
    ParseErrorV,
> {
    match r {
        Ok(Some(s)) => Ok(Some(s@)),
        Ok(None) => Ok(None),
        Err(e) => Err(e@),
    }
}

/// Parses `else if ...`.
pub(crate) fn parse_else_if<P: SyntaxParser>(
    input: &mut TokenStream,
    state: &mut ParseState<'_, P>,
    lib: &mut FunctionsLib,
    s: ParseSettings,
) -> (r: Result<Option<Stmt>, ParseError>)
    requires
        ready(*old(input), *old(state), *old(lib), s, 1),
        old(input).peek_spec().0 is Else,
        old(input).ahead(1).0 is If,
    ensures
        kept(*old(input), *final(input), *old(state), *final(state), *final(lib)),
        r is Ok ==> settled(*old(state), *final(state)),
        yields(
            opt_stmt_result(r),
            *final(input),
            *final(state),
            *final(lib),
            g_else(
                old(state).engine,
                source_of(*old(input)),
                config_of(*old(input), *old(state), *old(lib)),
                s,
            ),
        ),
    decreases old(input).remaining(), 1nat,
{
    proof {
        reveal(g_else);
        reveal(g_if);
        assert(source_of(*input).at(input.cursor as int) == input.peek_spec());
        assert(source_of(*input).at(input.cursor + 1) == input.ahead(1));
    }
    eat_token(input, Token::Else);
    Ok(Some(parse_if(input, state, lib, s.level_up())?))
}

/// Parses `else { ... }`.
pub(crate) fn parse_else_block<P: SyntaxParser>(
    input: &mut TokenStream,
    state: &mut ParseState<'_, P>,
    lib: &mut FunctionsLib,
    s: ParseSettings,
) -> (r: Result<Option<Stmt>, ParseError>)
    requires
        ready(*old(input), *old(state), *old(lib), s, 1),
        old(input).peek_spec().0 is Else,
        !(old(input).ahead(1).0 is If),
    ensures
        kept(*old(input), *final(input), *old(state), *final(state), *final(lib)),
        r is Ok ==> settled(*old(state), *final(state)),
        yields(
            opt_stmt_result(r),
            *final(input),
            *final(state),
            *final(lib),
            g_else(
                old(state).engine,
                source_of(*old(input)),
                config_of(*old(input), *old(state), *old(lib)),
                s,
            ),
        ),
    decreases old(input).remaining(), 1nat,
{
    proof {
        reveal(g_else);
        reveal(g_block);
        assert(source_of(*input).at(input.cursor as int) == input.peek_spec());
        assert(source_of(*input).at(input.cursor + 1) == input.ahead(1));
    }
    eat_token(input, Token::Else);
    Ok(Some(parse_block(input, state, lib, s.level_up())?))
}

/// Parses the `else` branch of an `if`, if there is one.
pub(crate) fn parse_else<P: SyntaxParser>(
    input: &mut TokenStream,
    state: &mut ParseState<'_, P>,
    lib: &mut FunctionsLib,
    s: ParseSettings,
) -> (r: Result<Option<Stmt>, ParseError>)
    requires
        ready(*old(input), *old(state), *old(lib), s, 3),

    ensures
        kept(*old(input), *final(input), *old(state), *final(state), *final(lib)),
        r is Ok ==> settled(*old(state), *final(state)),
        yields(
            opt_stmt_result(r),
            *final(input),
            *final(state),
            *final(lib),
            g_else(
                old(state).engine,
                source_of(*old(input)),
                config_of(*old(input), *old(state), *old(lib)),
                s,
            ),
        ),
    decreases old(input).remaining(), 3nat,
{
    proof {
        reveal(g_else);
        assert(source_of(*input).at(input.cursor as int) == input.peek_spec());
        assert(source_of(*input).at(input.cursor + 1) == input.ahead(1));
    }
    let kind: u8 = match (&input.peek().0, &input.peek_second().0) {
        (Token::Else, Token::If) => 1,
        (Token::Else, _) => 2,
        _ => 0,
    };
    if kind == 1 {
        parse_else_if(input, state, lib, s)
    } else if kind == 2 {
        parse_else_block(input, state, lib, s)
    } else {
        Ok(None)
    }
}

/// Parses `while guard { ... }` or `loop { ... }`. The cursor stands on
/// `while` or `loop`.
#[verifier::rlimit(30)]
pub fn parse_while_loop<P: SyntaxParser>(
    input: &mut TokenStream,
    state: &mut ParseState<'_, P>,
    lib: &mut FunctionsLib,
    settings: ParseSettings,
) -> (r: Result<Stmt, ParseError>)
    requires
        ready(*old(input), *old(state), *old(lib), settings, 2),
        old(input).peek_spec().0 is While || old(input).peek_spec().0 is Loop,
    ensures
        kept(*old(input), *final(input), *old(state), *final(state), *final(lib)),
        r is Ok ==> done(*old(input), *final(input), *old(state), *final(state)),
        r is Ok ==> settings.within(old(state).max_expr_depth),
        r matches Ok(st)
            ==> (st@ matches StmtV::While(guard, _, p) && p == old(input).peek_spec().1
            && (old(input).peek_spec().0 is Loop ==> guard == ExprV::BoolConstant(
            true,
            p,
        ))),
        !settings.within(old(state).max_expr_depth) ==> stmt_result(r) == Err::<
            StmtV,
            ParseErrorV,
        >(too_deep(settings.pos)),
        yields(
            stmt_result(r),
            *final(input),
            *final(state),
            *final(lib),
            g_while(
                old(state).engine,
                source_of(*old(input)),
                config_of(*old(input), *old(state), *old(lib)),
                settings,
            ),
        ),
    decreases old(input).remaining(), 2nat,
{
    proof {
        reveal(g_while);
        reveal(g_expr);
        reveal(g_block);
        assert(source_of(*input).at(input.cursor as int) == input.peek_spec());
        assert(source_of(*input).at(input.cursor + 1) == input.ahead(1));
    }
    let mut s = settings;
    s.ensure_level_within_max_limit(state.max_expr_depth)?;
    let (guard, token_pos) = match input.next() {
        (Token::While, pos) => {
            ensure_not_statement_expr(input, "a boolean")?;
            (parse_expr(input, state, lib, s.level_up())?, pos)
        },
        (Token::Loop, pos) => (Expr::BoolConstant(true, pos), pos),
        _ => vstd::pervasive::unreached(),
    };
    proof {
        if old(input).peek_spec().0 is Loop {
            assert(guard@ == ExprV::BoolConstant(true, token_pos));
        }
    }
    let ghost guard_view = guard@;
    s.pos = token_pos;
    ensure_not_assignment(input)?;
    s.is_breakable = true;
    let body = parse_block(input, state, lib, s.level_up())?;
    let r = Stmt::While(guard, Box::new(body), s.pos);
    proof {
        assert(r@ == StmtV::While(guard_view, Box::new(body@), s.pos));
    }
    Ok(r)
}

/// Parses `do { ... } while guard` or `do { ... } until guard`. The cursor
/// stands on `do`.
pub fn parse_do<P: SyntaxParser>(
    input: &mut TokenStream,
    state: &mut ParseState<'_, P>,
    lib: &mut FunctionsLib,
    settings: ParseSettings,
) -> (r: Result<Stmt, ParseError>)
    requires
        ready(*old(input), *old(state), *old(lib), settings, 2),
        old(input).peek_spec().0 is Do,
    ensures
        kept(*old(input), *final(input), *old(state), *final(state), *final(lib)),
        r is Ok ==> done(*old(input), *final(input), *old(state), *final(state)),
        r is Ok ==> settings.within(old(state).max_expr_depth),
        r matches Ok(st) ==> (st@ matches StmtV::Do(_, _, _, p) && p == old(input).peek_spec().1),
        !settings.within(old(state).max_expr_depth) ==> stmt_result(r) == Err::<
            StmtV,
            ParseErrorV,
        >(too_deep(settings.pos)),
        yields(
            stmt_result(r),
            *final(input),
            *final(state),
            *final(lib),
            g_do(
                old(state).engine,
                source_of(*old(input)),
                config_of(*old(input), *old(state), *old(lib)),
                settings,
            ),
        ),
    decreases old(input).remaining(), 2nat,
{
    proof {
        reveal(g_do);
        reveal(g_expr);
        reveal(g_block);
        assert(source_of(*input).at(input.cursor as int) == input.peek_spec());
        assert(source_of(*input).at(input.cursor + 1) == input.ahead(1));
    }
    let mut s = settings;
    s.ensure_level_within_max_limit(state.max_expr_depth)?;
    s.pos = eat_token(input, Token::Do);
    s.is_breakable = true;
    let body = parse_block(input, state, lib, s.level_up())?;
    let is_while = match input.next() {
        (Token::While, _) => true,
        (Token::Until, _) => false,
        (_, pos) => {
            return Err(missing("while", "for the do statement", pos));
        },
    };
    ensure_not_statement_expr(input, "a boolean")?;
    s.is_breakable = false;
    let guard = parse_expr(input, state, lib, s.level_up())?;
    ensure_not_assignment(input)?;
    Ok(Stmt::Do(Box::new(body), guard, is_while, s.pos))
}

/// Parses `for name in iterable { ... }`. The loop variable is in scope in
/// the body only. The cursor stands on `for`.
pub fn parse_for<P: SyntaxParser>(
    input: &mut TokenStream,
    state: &mut ParseState<'_, P>,
    lib: &mut FunctionsLib,
    settings: ParseSettings,
) -> (r: Result<Stmt, ParseError>)
    requires
        ready(*old(input), *old(state), *old(lib), settings, 2),
        old(input).peek_spec().0 is For,
    ensures
        kept(*old(input), *final(input), *old(state), *final(state), *final(lib)),
        r is Ok ==> done(*old(input), *final(input), *old(state), *final(state)),
        r is Ok ==> settings.within(old(state).max_expr_depth),
        r matches Ok(st)
            ==> (st@ matches StmtV::For(_, name, _, p) && p == old(input).peek_spec().1
            && variable_name(old(input).ahead(1).0, old(input).ahead(1).1, true)
            == Ok::<Seq<char>, ParseErrorV>(name)),
        !settings.within(old(state).max_expr_depth) ==> stmt_result(r) == Err::<
            StmtV,
            ParseErrorV,
        >(too_deep(settings.pos)),
        settings.within(old(state).max_expr_depth) ==> (variable_name(
            old(input).ahead(1).0,
            old(input).ahead(1).1,
            true,
        ) matches Err(e) ==> stmt_result(r) == Err::<StmtV, ParseErrorV>(e)),
        yields(
            stmt_result(r),
            *final(input),
            *final(state),
            *final(lib),
            g_for(
                old(state).engine,
                source_of(*old(input)),
                config_of(*old(input), *old(state), *old(lib)),
                settings,
            ),
        ),
    decreases old(input).remaining(), 2nat,
{
    proof {
        reveal(g_for);
        reveal(g_expr);
        reveal(g_block);
        assert(source_of(*input).at(input.cursor as int) == input.peek_spec());
        assert(source_of(*input).at(input.cursor + 1) == input.ahead(1));
    }
    let mut s = settings;
    s.ensure_level_within_max_limit(state.max_expr_depth)?;
    s.pos = eat_token(input, Token::For);
    let (name, _) = next_variable_name(input, true)?;
    match input.next() {
        (Token::In, _) => {},
        (Token::LexError(err), pos) => {
            return Err(err.into_err(pos));
        },
        (_, pos) => {
            return Err(missing("in", "after the iteration variable", pos));
        },
    }
    ensure_not_statement_expr(input, "a boolean")?;
    let expr = parse_expr(input, state, lib, s.level_up())?;
    let loop_var = state.get_interned_string(name.as_str());
    let prev_stack_len = state.stack.len();
    let ghost before = state@.stack;
    state.stack.push((loop_var, AccessMode::ReadWrite));
    proof {
        assert(state@.stack =~= before.push((name@, AccessMode::ReadWrite)));
    }
    s.is_breakable = true;
    let body = parse_block(input, state, lib, s.level_up())?;
    let ghost after_body = state@.stack;
    state.stack.truncate(prev_stack_len);
    proof {
        assert(state@.stack =~= truncated(after_body, prev_stack_len as int));
    }
    Ok(Stmt::For(expr, Box::new((name, body)), s.pos))
}

/// The value of an optional name.
pub open spec fn opt_ident_result(r: Result<Option<Ident>, ParseError>) -> Result<
    Option<IdentV>,
    ParseErrorV,
> {
    match r {
        Ok(Some(id)) => Ok(Some(id@)),
        Ok(None) => Ok(None),
        Err(e) => Err(e@),
    }
}

/// Parses the variable of a `catch` in parentheses, if there is one.
pub(crate) fn parse_catch_variable<P: SyntaxParser>(
    input: &mut TokenStream,
    state: &mut ParseState<'_, P>,
    lib: &FunctionsLib,
) -> (r: Result<Option<Ident>, ParseError>)
    requires
        old(input).wf(),
        old(state).wf(),
    ensures
        final(input).follows(old(input)),
        final(state).interned_more(old(state)),
        yields(
            opt_ident_result(r),
            *final(input),
            *final(state),
            *lib,
            g_catch_variable(source_of(*old(input)), config_of(*old(input), *old(state), *lib)),
        ),
{
    proof {
        reveal(g_catch_variable);
        assert(source_of(*input).at(input.cursor as int) == input.peek_spec());
        assert(source_of(*input).at(input.cursor + 1) == input.ahead(1));
    }
    if match_token(input, Token::LeftParen).0 {
        let id = match input.next() {
            (Token::Identifier(name), pos) => Ident {
                name: state.get_interned_string(name.as_str()),
                pos,
            },
            (_, pos) => {
                return Err(ParseErrorType::VariableExpected.into_err(pos));
            },
        };
        proof {
            assert(source_of(*input).at(input.cursor as int) == input.peek_spec());
        }
        let (matched, pos) = match_token(input, Token::RightParen);
        if !matched {
            return Err(missing(")", "to enclose the catch variable", pos));
        }
        Ok(Some(id))
    } else {
        Ok(None)
    }
}

/// Parses `try { ... } catch (name) { ... }`; the name in parentheses may
/// be left out. The cursor stands on `try`.
#[verifier::rlimit(30)]
pub fn parse_try_catch<P: SyntaxParser>(
    input: &mut TokenStream,
    state: &mut ParseState<'_, P>,
    lib: &mut FunctionsLib,
    settings: ParseSettings,
) -> (r: Result<Stmt, ParseError>)
    requires
        ready(*old(input), *old(state), *old(lib), settings, 2),
        old(input).peek_spec().0 is Try,
    ensures
        kept(*old(input), *final(input), *old(state), *final(state), *final(lib)),
        r is Ok ==> done(*old(input), *final(input), *old(state), *final(state)),
        r is Ok ==> settings.within(old(state).max_expr_depth),
        r matches Ok(st)
            ==> (st@ matches StmtV::TryCatch(_, _, _, p, _) && p == old(input).peek_spec().1),
        !settings.within(old(state).max_expr_depth) ==> stmt_result(r) == Err::<
            StmtV,
            ParseErrorV,
        >(too_deep(settings.pos)),
        yields(
            stmt_result(r),
            *final(input),
            *final(state),
            *final(lib),
            g_try(
                old(state).engine,
                source_of(*old(input)),
                config_of(*old(input), *old(state), *old(lib)),
                settings,
            ),
        ),
    decreases old(input).remaining(), 2nat,
{
    proof {
        reveal(g_try);
        reveal(g_block);
        assert(source_of(*input).at(input.cursor as int) == input.peek_spec());
        assert(source_of(*input).at(input.cursor + 1) == input.ahead(1));
    }
    let mut s = settings;
    s.ensure_level_within_max_limit(state.max_expr_depth)?;
    s.pos = eat_token(input, Token::Try);
    let body = parse_block(input, state, lib, s.level_up())?;
    let (matched, catch_pos) = match_token(input, Token::Catch);
    if !matched {
        return Err(missing("catch", "for the 'try' statement", catch_pos));
    }
    let var_def = parse_catch_variable(input, state, lib)?;
    let catch_body = parse_block(input, state, lib, s.level_up())?;
    Ok(Stmt::TryCatch(Box::new((body, var_def, catch_body)), s.pos, catch_pos))
}

} // verus!
