//! Statements.

use vstd::prelude::*;
use crate::assign::parse_expr_stmt;
use crate::ast::{ReturnType, Stmt, StmtV, opt_expr_view, stmt_view, string_views};
use crate::block::parse_block;
use crate::builder::stmt_result;
use crate::control::{parse_do, parse_for, parse_if, parse_try_catch, parse_while_loop};
use crate::declare::{parse_export, parse_import, parse_let};
use crate::dynamic::AccessMode;
use crate::engine::SyntaxParser;
use crate::error::{ParseError, ParseErrorType, ParseErrorTypeV, ParseErrorV, err_at};
use crate::function::{parse_doc_comments, parse_fn_definition};
use crate::grammar::{
    Lead, g_block, g_do, g_export, g_expr, g_expr_stmt, g_fn_definition, g_for, g_if, g_import,
    g_lead, g_let, g_return, g_stmt, g_switch, g_try, g_while, lead_of, source_of, too_deep,
};
use crate::operator::parse_expr;
use crate::parser::{FunctionsLib, config_of, done, eat_token, kept, lead, ready, settled, yields};
use crate::state::{ParseSettings, ParseState};
use crate::switch::parse_switch;
use crate::token::{Token, TokenStream};

verus! {

/// Parses `return` or `throw` with the value that may follow it.
#[verifier::rlimit(30)]
pub(crate) fn parse_return<P: SyntaxParser>(
    input: &mut TokenStream,
    state: &mut ParseState<'_, P>,
    lib: &mut FunctionsLib,
    s: ParseSettings,
) -> (r: Result<Stmt, ParseError>)
    requires
        ready(*old(input), *old(state), *old(lib), s, 2),
        old(input).peek_spec().0 is Return || old(input).peek_spec().0 is Throw,
    ensures
        kept(*old(input), *final(input), *old(state), *final(state), *final(lib)),
        r is Ok ==> done(*old(input), *final(input), *old(state), *final(state)),
        r matches Ok(st) ==> st is Return,
        yields(
            stmt_result(r),
            *final(input),
            *final(state),
            *final(lib),
            g_return(
                old(state).engine,
                source_of(*old(input)),
                config_of(*old(input), *old(state), *old(lib)),
                s,
            ),
        ),
    decreases old(input).remaining(), 2nat,
{
    proof {
        reveal(g_return);
        reveal(g_expr);
        reveal_with_fuel(stmt_view, 2);
        reveal_with_fuel(opt_expr_view, 2);
        assert(source_of(*input).at(input.cursor as int) == input.peek_spec());
        assert(source_of(*input).at(input.cursor + 1) == input.ahead(1));
    }
    let (token, token_pos) = input.next();
    let kind = match token {
        Token::Return => ReturnType::Return,
        Token::Throw => ReturnType::Exception,
        _ => vstd::pervasive::unreached(),
    };
    let pos = input.peek().1;
    let next: u8 = match &input.peek().0 {
        Token::EOF => 0,
        Token::SemiColon => 1,
        _ => 2,
    };
    if next == 0 {
        let r = Stmt::Return((kind, token_pos), None, pos);
        proof {
            assert(r@ == StmtV::Return(kind, token_pos, None, pos));
        }
        Ok(r)
    } else if next == 1 {
        let r = Stmt::Return((kind, token_pos), None, s.pos);
        proof {
            assert(r@ == StmtV::Return(kind, token_pos, None, s.pos));
        }
        Ok(r)
    } else {
        let expr = parse_expr(input, state, lib, s.level_up())?;
        let pos = expr.position();
        let ghost value = expr@;
        let r = Stmt::Return((kind, token_pos), Some(expr), pos);
        proof {
            assert(r@ == StmtV::Return(kind, token_pos, Some(value), pos));
        }
        Ok(r)
    }
}

/// Is the statement one of a single word, or a `return` or `throw`?
pub open spec fn leads_simple(l: Lead) -> bool {
    l is Empty || l is Continue || l is Break || l is Return
}

/// Is the statement a loop?
pub open spec fn leads_loop(l: Lead) -> bool {
    l is While || l is Do || l is For
}

/// Is the statement a block, a function, or a statement of blocks?
pub open spec fn leads_nested(l: Lead) -> bool {
    l is Block || l is Function || l is If || l is Switch || l is Try
}

/// Parses an empty statement, `continue`, `break`, `return` or `throw`.
/// The cursor stands on the word.
pub(crate) fn stmt_simple<P: SyntaxParser>(
    input: &mut TokenStream,
    state: &mut ParseState<'_, P>,
    lib: &mut FunctionsLib,
    s: ParseSettings,
    Ghost(comments): Ghost<Seq<Seq<char>>>,
) -> (r: Result<Stmt, ParseError>)
    requires
        ready(*old(input), *old(state), *old(lib), s, 10),
        s.pos == old(input).peek_spec().1,
        leads_simple(lead_of(old(input).peek_spec().0, old(state).engine.modules)),
    ensures
        kept(*old(input), *final(input), *old(state), *final(state), *final(lib)),
        r is Ok ==> done(*old(input), *final(input), *old(state), *final(state)),
        old(input).peek_spec().0 is SemiColon ==> stmt_result(r) == Ok::<StmtV, ParseErrorV>(
            StmtV::Noop(old(input).peek_spec().1),
        ) && final(input).cursor == old(input).cursor + 1 && *final(state) == *old(state)
            && *final(lib) == *old(lib),
        old(input).peek_spec().0 is Continue ==> stmt_result(r) == (if s.is_breakable {
            Ok::<StmtV, ParseErrorV>(StmtV::Continue(old(input).peek_spec().1))
        } else {
            Err::<StmtV, ParseErrorV>(err_at(ParseErrorTypeV::LoopBreak, old(input).peek_spec().1))
        }),
        old(input).peek_spec().0 is Break ==> stmt_result(r) == (if s.is_breakable {
            Ok::<StmtV, ParseErrorV>(StmtV::Break(old(input).peek_spec().1))
        } else {
            Err::<StmtV, ParseErrorV>(err_at(ParseErrorTypeV::LoopBreak, old(input).peek_spec().1))
        }),
        yields(
            stmt_result(r),
            *final(input),
            *final(state),
            *final(lib),
            g_lead(
                old(state).engine,
                source_of(*old(input)),
                config_of(*old(input), *old(state), *old(lib)),
                s,
                comments,
            ),
        ),
    decreases old(input).remaining(), 10nat,
{
    proof {
        reveal(g_lead);
        reveal(g_return);
        assert(source_of(*input).at(input.cursor as int) == input.peek_spec());
    }
    match lead(&input.peek().0, state.engine.modules) {
        Lead::Empty => {
            eat_token(input, Token::SemiColon);
            Ok(Stmt::Noop(s.pos))
        },
        Lead::Continue => {
            if s.is_breakable {
                let pos = eat_token(input, Token::Continue);
                Ok(Stmt::Continue(pos))
            } else {
                Err(ParseErrorType::LoopBreak.into_err(s.pos))
            }
        },
        Lead::Break => {
            if s.is_breakable {
                let pos = eat_token(input, Token::Break);
                Ok(Stmt::Break(pos))
            } else {
                Err(ParseErrorType::LoopBreak.into_err(s.pos))
            }
        },
        _ => parse_return(input, state, lib, s),
    }
}

/// Parses a loop: `while`, `loop`, `do` or `for`. The cursor stands on
/// the word.
#[verifier::rlimit(30)]
pub(crate) fn stmt_loop<P: SyntaxParser>(
    input: &mut TokenStream,
    state: &mut ParseState<'_, P>,
    lib: &mut FunctionsLib,
    s: ParseSettings,
    Ghost(comments): Ghost<Seq<Seq<char>>>,
) -> (r: Result<Stmt, ParseError>)
    requires
        ready(*old(input), *old(state), *old(lib), s, 10),
        s.pos == old(input).peek_spec().1,
        leads_loop(lead_of(old(input).peek_spec().0, old(state).engine.modules)),
        s.level < usize::MAX,
    ensures
        kept(*old(input), *final(input), *old(state), *final(state), *final(lib)),
        r is Ok ==> done(*old(input), *final(input), *old(state), *final(state)),
        yields(
            stmt_result(r),
            *final(input),
            *final(state),
            *final(lib),
            g_lead(
                old(state).engine,
                source_of(*old(input)),
                config_of(*old(input), *old(state), *old(lib)),
                s,
                comments,
            ),
        ),
    decreases old(input).remaining(), 10nat,
{
    proof {
        reveal(g_lead);
        reveal(g_while);
        reveal(g_do);
        reveal(g_for);
        assert(source_of(*input).at(input.cursor as int) == input.peek_spec());
    }
    match lead(&input.peek().0, state.engine.modules) {
        Lead::While => parse_while_loop(input, state, lib, s.level_up()),
        Lead::Do => parse_do(input, state, lib, s.level_up()),
        _ => parse_for(input, state, lib, s.level_up()),
    }
}

/// Parses a block, the definition of a function, `if`, `switch` or `try`.
/// The cursor stands on the first token.
#[verifier::rlimit(30)]
pub(crate) fn stmt_nested<P: SyntaxParser>(
    input: &mut TokenStream,
    state: &mut ParseState<'_, P>,
    lib: &mut FunctionsLib,
    s: ParseSettings,
    comments: Vec<String>,
) -> (r: Result<Stmt, ParseError>)
    requires
        ready(*old(input), *old(state), *old(lib), s, 10),
        s.pos == old(input).peek_spec().1,
        leads_nested(lead_of(old(input).peek_spec().0, old(state).engine.modules)),
        s.level < usize::MAX,
    ensures
        kept(*old(input), *final(input), *old(state), *final(state), *final(lib)),
        r is Ok ==> done(*old(input), *final(input), *old(state), *final(state)),
        old(input).peek_spec().0 is Fn && !s.is_global ==> stmt_result(r) == Err::<
            StmtV,
            ParseErrorV,
        >(err_at(ParseErrorTypeV::WrongFnDefinition, old(input).peek_spec().1)),
        yields(
            stmt_result(r),
            *final(input),
            *final(state),
            *final(lib),
            g_lead(
                old(state).engine,
                source_of(*old(input)),
                config_of(*old(input), *old(state), *old(lib)),
                s,
                string_views(comments@),
            ),
        ),
    decreases old(input).remaining(), 10nat,
{
    proof {
        reveal(g_lead);
        reveal(g_block);
        reveal(g_fn_definition);
        reveal(g_if);
        reveal(g_switch);
        reveal(g_try);
        assert(source_of(*input).at(input.cursor as int) == input.peek_spec());
    }
    match lead(&input.peek().0, state.engine.modules) {
        Lead::Block => parse_block(input, state, lib, s.level_up()),
        Lead::Function => {
            let plain_fn = match &input.peek().0 {
                Token::Fn => true,
                _ => false,
            };
            if plain_fn && !s.is_global {
                Err(ParseErrorType::WrongFnDefinition.into_err(s.pos))
            } else {
                parse_fn_definition(input, state, lib, comments)
            }
        },
        Lead::If => parse_if(input, state, lib, s.level_up()),
        Lead::Switch => parse_switch(input, state, lib, s.level_up()),
        _ => parse_try_catch(input, state, lib, s.level_up()),
    }
}

/// Parses a declaration, `import`, `export`, or an expression that stands
/// as a statement. The cursor stands on the first token.
#[verifier::rlimit(30)]
pub(crate) fn stmt_other<P: SyntaxParser>(
    input: &mut TokenStream,
    state: &mut ParseState<'_, P>,
    lib: &mut FunctionsLib,
    s: ParseSettings,
    Ghost(comments): Ghost<Seq<Seq<char>>>,
) -> (r: Result<Stmt, ParseError>)
    requires
        ready(*old(input), *old(state), *old(lib), s, 10),
        s.pos == old(input).peek_spec().1,
        !leads_simple(lead_of(old(input).peek_spec().0, old(state).engine.modules)),
        !leads_loop(lead_of(old(input).peek_spec().0, old(state).engine.modules)),
        !leads_nested(lead_of(old(input).peek_spec().0, old(state).engine.modules)),
        s.level < usize::MAX,
    ensures
        kept(*old(input), *final(input), *old(state), *final(state), *final(lib)),
        r is Ok ==> done(*old(input), *final(input), *old(state), *final(state)),
        old(input).peek_spec().0 is Export && old(state).engine.modules && !s.is_global
            ==> stmt_result(r) == Err::<StmtV, ParseErrorV>(
            err_at(ParseErrorTypeV::WrongExport, old(input).peek_spec().1),
        ),
        yields(
            stmt_result(r),
            *final(input),
            *final(state),
            *final(lib),
            g_lead(
                old(state).engine,
                source_of(*old(input)),
                config_of(*old(input), *old(state), *old(lib)),
                s,
                comments,
            ),
        ),
    decreases old(input).remaining(), 10nat,
{
    proof {
        reveal(g_lead);
        reveal(g_let);
        reveal(g_import);
        reveal(g_export);
        reveal(g_expr_stmt);
        assert(source_of(*input).at(input.cursor as int) == input.peek_spec());
    }
    match lead(&input.peek().0, state.engine.modules) {
        Lead::Let => parse_let(input, state, lib, AccessMode::ReadWrite, false, s.level_up()),
        Lead::Const => parse_let(input, state, lib, AccessMode::ReadOnly, false, s.level_up()),
        Lead::Import => parse_import(input, state, lib, s.level_up()),
        Lead::Export => {
            if !s.is_global {
                Err(ParseErrorType::WrongExport.into_err(s.pos))
            } else {
                parse_export(input, state, lib, s.level_up())
            }
        },
        _ => parse_expr_stmt(input, state, lib, s.level_up()),
    }
}

/// Parses the statement that the token under the cursor leads to. The
/// settings stand at that token.
pub(crate) fn parse_lead<P: SyntaxParser>(
    input: &mut TokenStream,
    state: &mut ParseState<'_, P>,
    lib: &mut FunctionsLib,
    s: ParseSettings,
    comments: Vec<String>,
) -> (r: Result<Stmt, ParseError>)
    requires
        ready(*old(input), *old(state), *old(lib), s, 11),
        s.pos == old(input).peek_spec().1,
        s.level < usize::MAX,
    ensures
        kept(*old(input), *final(input), *old(state), *final(state), *final(lib)),
        r is Ok ==> done(*old(input), *final(input), *old(state), *final(state)),
        old(input).peek_spec().0 is SemiColon ==> stmt_result(r) == Ok::<StmtV, ParseErrorV>(
            StmtV::Noop(old(input).peek_spec().1),
        ) && final(input).cursor == old(input).cursor + 1 && *final(state) == *old(state)
            && *final(lib) == *old(lib),
        old(input).peek_spec().0 is Continue ==> stmt_result(r) == (if s.is_breakable {
            Ok::<StmtV, ParseErrorV>(StmtV::Continue(old(input).peek_spec().1))
        } else {
            Err::<StmtV, ParseErrorV>(err_at(ParseErrorTypeV::LoopBreak, old(input).peek_spec().1))
        }),
        old(input).peek_spec().0 is Break ==> stmt_result(r) == (if s.is_breakable {
            Ok::<StmtV, ParseErrorV>(StmtV::Break(old(input).peek_spec().1))
        } else {
            Err::<StmtV, ParseErrorV>(err_at(ParseErrorTypeV::LoopBreak, old(input).peek_spec().1))
        }),
        old(input).peek_spec().0 is Fn && !s.is_global ==> stmt_result(r) == Err::<
            StmtV,
            ParseErrorV,
        >(err_at(ParseErrorTypeV::WrongFnDefinition, old(input).peek_spec().1)),
        old(input).peek_spec().0 is Export && old(state).engine.modules && !s.is_global
            ==> stmt_result(r) == Err::<StmtV, ParseErrorV>(
            err_at(ParseErrorTypeV::WrongExport, old(input).peek_spec().1),
        ),
        yields(
            stmt_result(r),
            *final(input),
            *final(state),
            *final(lib),
            g_lead(
                old(state).engine,
                source_of(*old(input)),
                config_of(*old(input), *old(state), *old(lib)),
                s,
                string_views(comments@),
            ),
        ),
    decreases old(input).remaining(), 11nat,
{
    let ghost texts = string_views(comments@);
    match lead(&input.peek().0, state.engine.modules) {
        Lead::Empty | Lead::Continue | Lead::Break | Lead::Return => stmt_simple(
            input,
            state,
            lib,
            s,
            Ghost(texts),
        ),
        Lead::While | Lead::Do | Lead::For => stmt_loop(input, state, lib, s, Ghost(texts)),
        Lead::Block | Lead::Function | Lead::If | Lead::Switch | Lead::Try => stmt_nested(
            input,
            state,
            lib,
            s,
            comments,
        ),
        _ => stmt_other(input, state, lib, s, Ghost(texts)),
    }
}

/// Parses one statement. At the end of the input the statement is empty
/// and nothing is consumed.
pub fn parse_stmt<P: SyntaxParser>(
    input: &mut TokenStream,
    state: &mut ParseState<'_, P>,
    lib: &mut FunctionsLib,
    settings: ParseSettings,
) -> (r: Result<Stmt, ParseError>)
    requires
        ready(*old(input), *old(state), *old(lib), settings, 12),
    ensures
        kept(*old(input), *final(input), *old(state), *final(state), *final(lib)),
        r is Ok ==> settled(*old(state), *final(state)),
        r is Ok ==> final(input).cursor > old(input).cursor || old(input).peek_spec().0 is EOF,
        r is Ok ==> settings.within(old(state).max_expr_depth) || old(input).peek_spec().0 is EOF,
        old(input).peek_spec().0 is EOF ==> stmt_result(r) == Ok::<StmtV, ParseErrorV>(
            StmtV::Noop(old(input).peek_spec().1),
        ) && *final(input) == *old(input) && *final(state) == *old(state)
            && *final(lib) == *old(lib),
        old(input).peek_spec().0 is Comment && !settings.is_global ==> stmt_result(r) == Err::<
            StmtV,
            ParseErrorV,
        >(err_at(ParseErrorTypeV::WrongDocComment, old(input).peek_spec().1)),
        !settings.within(old(state).max_expr_depth) && !(old(input).peek_spec().0 is EOF)
            && !(old(input).peek_spec().0 is Comment)
            ==> stmt_result(r) == Err::<StmtV, ParseErrorV>(
            too_deep(old(input).peek_spec().1),
        ),
        settings.within(old(state).max_expr_depth) && old(input).peek_spec().0 is SemiColon
            ==> stmt_result(r) == Ok::<StmtV, ParseErrorV>(StmtV::Noop(old(input).peek_spec().1))
            && final(input).cursor == old(input).cursor + 1 && *final(state) == *old(state)
            && *final(lib) == *old(lib),
        settings.within(old(state).max_expr_depth) && old(input).peek_spec().0 is Fn
            && !settings.is_global ==> stmt_result(r) == Err::<StmtV, ParseErrorV>(
            err_at(ParseErrorTypeV::WrongFnDefinition, old(input).peek_spec().1),
        ),
        settings.within(old(state).max_expr_depth) && old(input).peek_spec().0 is Continue
            ==> stmt_result(r) == (if settings.is_breakable {
            Ok::<StmtV, ParseErrorV>(StmtV::Continue(old(input).peek_spec().1))
        } else {
            Err::<StmtV, ParseErrorV>(err_at(ParseErrorTypeV::LoopBreak, old(input).peek_spec().1))
        }),
        settings.within(old(state).max_expr_depth) && old(input).peek_spec().0 is Break
            ==> stmt_result(r) == (if settings.is_breakable {
            Ok::<StmtV, ParseErrorV>(StmtV::Break(old(input).peek_spec().1))
        } else {
            Err::<StmtV, ParseErrorV>(err_at(ParseErrorTypeV::LoopBreak, old(input).peek_spec().1))
        }),
        settings.within(old(state).max_expr_depth) && old(input).peek_spec().0 is Export
            && old(state).engine.modules && !settings.is_global
            ==> stmt_result(r) == Err::<StmtV, ParseErrorV>(
            err_at(ParseErrorTypeV::WrongExport, old(input).peek_spec().1),
        ),
        yields(
            stmt_result(r),
            *final(input),
            *final(state),
            *final(lib),
            g_stmt(
                old(state).engine,
                source_of(*old(input)),
                config_of(*old(input), *old(state), *old(lib)),
                settings,
            ),
        ),
    decreases old(input).remaining(), 12nat,
{
    proof {
        reveal(g_stmt);
        reveal(g_lead);
        assert(source_of(*input).at(input.cursor as int) == input.peek_spec());
    }
    let mut s = settings;
    let comments = parse_doc_comments(input, s.is_global)?;
    proof {
        assert(source_of(*input).at(input.cursor as int) == input.peek_spec());
    }
    s.pos = input.peek().1;
    if input.peek().0.is_eof() {
        return Ok(Stmt::Noop(s.pos));
    }
    s.ensure_level_within_max_limit(state.max_expr_depth)?;
    parse_lead(input, state, lib, s, comments)
}

} // verus!
