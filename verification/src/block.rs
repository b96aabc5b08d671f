//! Blocks of statements.

use vstd::prelude::*;
use crate::ast::{Stmt, StmtV, lemma_stmt_views_push, stmt_views};
use crate::builder::stmt_result;
use crate::engine::SyntaxParser;
use crate::error::{ParseError, ParseErrorV, lex_err_at, missing, missing_token};
use crate::grammar::{
    Config, Source, block_end, g_block, g_block_items, g_stmt, source_of, too_deep, truncated,
};
use crate::parser::{
    FunctionsLib, config_of, done, eat_token, kept, match_token, ready, settled, yields,
};
use crate::state::{ParseSettings, ParseState, prefix_of};
use crate::statement::parse_stmt;
use crate::token::{LexError, Token, TokenStream};

verus! {

/// The error for a block that does not begin with a brace, if it does not.
pub open spec fn block_start_error(input: TokenStream) -> Option<ParseErrorV> {
    match input.peek_spec().0 {
        Token::LeftBrace => None,
        Token::LexError(err) => Some(lex_err_at(err@, input.peek_spec().1)),
        _ => Some(missing_token("{"@, "to start a statement block"@, input.peek_spec().1)),
    }
}

/// A statement of a block has been parsed as the grammar says: what the
/// grammar makes of the rest of the block before the statement is what it
/// makes of the rest behind it.
pub open spec fn block_link<'e, P: SyntaxParser>(
    r: Result<Vec<Stmt>, ParseError>,
    input: TokenStream,
    state: ParseState<'e, P>,
    lib: FunctionsLib,
    src: Source,
    before: Config,
    s: ParseSettings,
    statements: Seq<StmtV>,
    prev_entry: usize,
    prev_modules: int,
) -> bool {
    let inner = ParseSettings { is_global: false, ..s };
    match r {
        Ok(all) => g_block_items(
            state.engine,
            src,
            before,
            s,
            statements,
            prev_entry,
            prev_modules,
        ) == g_block_items(
            state.engine,
            src,
            config_of(input, state, lib),
            inner,
            stmt_views(all@),
            prev_entry,
            prev_modules,
        ),
        Err(err) => g_block_items(
            state.engine,
            src,
            before,
            s,
            statements,
            prev_entry,
            prev_modules,
        ).result == Err::<StmtV, ParseErrorV>(err@),
    }
}

/// Parses one statement of a block, with the semicolon behind it if it
/// needs one, and adds it to the statements of the block unless it is
/// empty. The cursor stands neither on the closing brace nor at the end of
/// the input.
pub(crate) fn parse_block_item<P: SyntaxParser>(
    input: &mut TokenStream,
    state: &mut ParseState<'_, P>,
    lib: &mut FunctionsLib,
    s: ParseSettings,
    statements: Vec<Stmt>,
    Ghost(prev_entry): Ghost<usize>,
    Ghost(prev_modules): Ghost<int>,
) -> (r: Result<Vec<Stmt>, ParseError>)
    requires
        ready(*old(input), *old(state), *old(lib), s, 13),
        !(old(input).peek_spec().0 is RightBrace),
        !(old(input).peek_spec().0 is EOF),
    ensures
        kept(*old(input), *final(input), *old(state), *final(state), *final(lib)),
        r is Ok ==> settled(*old(state), *final(state)),
        r is Ok ==> final(input).cursor > old(input).cursor,
        block_link(
            r,
            *final(input),
            *final(state),
            *final(lib),
            source_of(*old(input)),
            config_of(*old(input), *old(state), *old(lib)),
            s,
            stmt_views(statements@),
            prev_entry,
            prev_modules,
        ),
    decreases old(input).remaining(), 13nat,
{
    proof {
        reveal(g_block_items);
        reveal(g_stmt);
        assert(source_of(*input).at(input.cursor as int) == input.peek_spec());
    }
    let mut statements = statements;
    let mut inner = s;
    inner.is_global = false;
    let stmt = parse_stmt(input, state, lib, inner.level_up())?;
    proof {
        assert(source_of(*input).at(input.cursor as int) == input.peek_spec());
    }
    if stmt.is_noop() {
        return Ok(statements);
    }
    let need_semicolon = !stmt.is_self_terminated();
    proof {
        lemma_stmt_views_push(statements@, stmt);
    }
    statements.push(stmt);
    let pos = input.peek().1;
    let next: u8 = match &input.peek().0 {
        Token::RightBrace => 0,
        Token::SemiColon => 1,
        Token::LexError(_) => 2,
        _ => 3,
    };
    if next == 0 {
    } else if next == 1 {
        if need_semicolon {
            eat_token(input, Token::SemiColon);
        }
    } else if need_semicolon {
        if next == 2 {
            match &input.peek().0 {
                Token::LexError(err) => {
                    return Err(err.clone_error().into_err(pos));
                },
                _ => {},
            }
        }
        return Err(missing(";", "to terminate this statement", pos));
    }
    Ok(statements)
}

/// Parses a block of statements in braces. The variables and modules that
/// the statements declare are out of scope again when the block ends.
pub fn parse_block<P: SyntaxParser>(
    input: &mut TokenStream,
    state: &mut ParseState<'_, P>,
    lib: &mut FunctionsLib,
    settings: ParseSettings,
) -> (r: Result<Stmt, ParseError>)
    requires
        ready(*old(input), *old(state), *old(lib), settings, 2),
    ensures
        kept(*old(input), *final(input), *old(state), *final(state), *final(lib)),
        r is Ok ==> done(*old(input), *final(input), *old(state), *final(state)),
        r is Ok ==> settings.within(old(state).max_expr_depth),
        r matches Ok(st) ==> st is Block,
        r is Ok ==> final(state)@.modules == old(state)@.modules,
        r is Ok ==> (old(state).engine.custom_syntax@.len() == 0 ==> final(state)@.stack == old(
            state,
        )@.stack),
        block_start_error(*old(input)) matches Some(e) ==> stmt_result(r) == Err::<
            StmtV,
            ParseErrorV,
        >(e),
        old(input).peek_spec().0 is LeftBrace && !settings.within(old(state).max_expr_depth)
            ==> stmt_result(r) == Err::<StmtV, ParseErrorV>(too_deep(old(input).peek_spec().1)),
        yields(
            stmt_result(r),
            *final(input),
            *final(state),
            *final(lib),
            g_block(
                old(state).engine,
                source_of(*old(input)),
                config_of(*old(input), *old(state), *old(lib)),
                settings,
            ),
        ),
    decreases old(input).remaining(), 2nat,
{
    let ghost engine = state.engine;
    let ghost src = source_of(*input);
    let ghost goal = g_block(engine, src, config_of(*input, *state, *lib), settings);
    proof {
        reveal(g_block);
        reveal(g_block_items);
        assert(src.at(input.cursor as int) == input.peek_spec());
    }
    let mut s = settings;
    s.pos = match input.next() {
        (Token::LeftBrace, pos) => pos,
        (Token::LexError(err), pos) => {
            return Err(err.into_err(pos));
        },
        (_, pos) => {
            return Err(missing("{", "to start a statement block", pos));
        },
    };
    s.ensure_level_within_max_limit(state.max_expr_depth)?;
    let mut statements: Vec<Stmt> = Vec::new();
    let prev_entry_stack_len = state.entry_stack_len;
    state.entry_stack_len = state.stack.len();
    let prev_mods_len = state.modules.len();
    proof {
        assert(stmt_views(statements@) =~= Seq::<StmtV>::empty());
    }
    loop
        invariant_except_break
            g_block_items(
                engine,
                src,
                config_of(*input, *state, *lib),
                s,
                stmt_views(statements@),
                prev_entry_stack_len,
                prev_mods_len as int,
            ) == goal,
        invariant
            engine == old(state).engine,
            src == source_of(*old(input)),
            goal == g_block(engine, src, config_of(*old(input), *old(state), *old(lib)), settings),
            kept(*old(input), *input, *old(state), *state, *lib),
            input.cursor > old(input).cursor,
            old(input).peek_spec().0 is LeftBrace,
            s.level == settings.level,
            s.pos == old(input).peek_spec().1,
            settings.fits(old(input), 2),
            settings.within(old(state).max_expr_depth),
            state.entry_stack_len == old(state).stack@.len(),
            prev_entry_stack_len == old(state).entry_stack_len,
            prev_mods_len == old(state).modules@.len(),
            state.engine.custom_syntax@.len() == 0 ==> prefix_of(old(state)@.stack, state@.stack),
        ensures
            goal == block_end(
                config_of(*input, *state, *lib),
                s.pos,
                stmt_views(statements@),
                prev_entry_stack_len,
                prev_mods_len as int,
            ),
            kept(*old(input), *input, *old(state), *state, *lib),
            input.cursor > old(input).cursor,
            s.pos == old(input).peek_spec().1,
            state.entry_stack_len == old(state).stack@.len(),
            state.engine.custom_syntax@.len() == 0 ==> prefix_of(old(state)@.stack, state@.stack),
        decreases input.remaining(),
    {
        proof {
            reveal(g_block_items);
            assert(src.at(input.cursor as int) == input.peek_spec());
        }
        if match_token(input, Token::RightBrace).0 {
            break ;
        }
        let pos = input.peek().1;
        if input.peek().0.is_eof() {
            return Err(missing("}", "to terminate this block", pos));
        }
        statements = parse_block_item(
            input,
            state,
            lib,
            s,
            statements,
            Ghost(prev_entry_stack_len),
            Ghost(prev_mods_len as int),
        )?;
        s.is_global = false;
    }
    let ghost at_end = state@;
    state.stack.truncate(state.entry_stack_len);
    state.entry_stack_len = prev_entry_stack_len;
    state.modules.truncate(prev_mods_len);
    proof {
        assert(state@.stack =~= truncated(at_end.stack, at_end.entry_stack_len as int));
        assert(state@.modules =~= truncated(at_end.modules, prev_mods_len as int));
        assert(state@.modules =~= old(state)@.modules);
        if state.engine.custom_syntax@.len() == 0 {
            assert(state@.stack =~= old(state)@.stack);
        }
    }
    Ok(Stmt::Block(statements, s.pos))
}

} // verus!
