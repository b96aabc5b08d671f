//! Parenthesised expressions, function calls and index chains.

use vstd::prelude::*;
use crate::ast::{
    BinaryExpr, Expr, ExprV, NamespaceRef, expr_views, lemma_expr_views, lemma_expr_views_push,
};
use crate::builder::{check_index_type, expr_result};
use crate::engine::SyntaxParser;
use crate::error::{ParseError, ParseErrorV, lex_err_at, missing, missing_token};
use crate::grammar::{
    fn_call_expr, g_fn_args, g_fn_call, g_index_chain, g_paren, source_of, too_deep, unclosed_call,
};
use crate::operator::parse_expr;
use crate::parser::{
    FunctionsLib, config_of, done, eat_token, finish_fn_call, kept, match_token, missing_with,
    opt_ns_view, ready, settled, variable_resolves, yields,
};
use crate::state::{ParseSettings, ParseState};
use crate::strings::concat3;
use crate::token::{LexError, Token, TokenStream};

verus! {

/// Parses `( expr )`, or `()` for the unit value. The cursor stands on the
/// opening parenthesis.
#[verifier::rlimit(30)]
pub fn parse_paren_expr<P: SyntaxParser>(
    input: &mut TokenStream,
    state: &mut ParseState<'_, P>,
    lib: &mut FunctionsLib,
    settings: ParseSettings,
) -> (r: Result<Expr, ParseError>)
    requires
        ready(*old(input), *old(state), *old(lib), settings, 2),
        old(input).peek_spec().0 is LeftParen,
    ensures
        kept(*old(input), *final(input), *old(state), *final(state), *final(lib)),
        r is Ok ==> done(*old(input), *final(input), *old(state), *final(state)),
        r is Ok ==> settings.within(old(state).max_expr_depth),
        r matches Ok(e) ==> !(e is Property),
        r matches Ok(e) ==> variable_resolves(e@, final(state)@.stack),
        !settings.within(old(state).max_expr_depth) ==> expr_result(r) == Err::<
            ExprV,
            ParseErrorV,
        >(too_deep(settings.pos)),
        settings.within(old(state).max_expr_depth) && old(input).ahead(1).0 is RightParen
            ==> expr_result(r) == Ok::<ExprV, ParseErrorV>(
            ExprV::Unit(old(input).peek_spec().1),
        ) && final(input).cursor == old(input).cursor + 2 && *final(state) == *old(state)
            && *final(lib) == *old(lib),
        yields(
            expr_result(r),
            *final(input),
            *final(state),
            *final(lib),
            g_paren(
                old(state).engine,
                source_of(*old(input)),
                config_of(*old(input), *old(state), *old(lib)),
                settings,
            ),
        ),
    decreases old(input).remaining(), 2nat,
{
    proof {
        reveal(g_paren);
    }
    let mut s = settings;
    s.ensure_level_within_max_limit(state.max_expr_depth)?;
    s.pos = eat_token(input, Token::LeftParen);
    if match_token(input, Token::RightParen).0 {
        return Ok(Expr::Unit(s.pos));
    }
    let expr = parse_expr(input, state, lib, s.level_up())?;
    match input.next() {
        (Token::RightParen, _) => Ok(expr),
        (Token::LexError(err), pos) => Err(err.into_err(pos)),
        (_, pos) => Err(missing(")", "for a matching ( in this expression", pos)),
    }
}

/// Parses the arguments of a call of `id` and builds the call. The cursor
/// stands behind the opening parenthesis.
pub fn parse_fn_call<P: SyntaxParser>(
    input: &mut TokenStream,
    state: &mut ParseState<'_, P>,
    lib: &mut FunctionsLib,
    id: String,
    capture: bool,
    namespace: Option<NamespaceRef>,
    settings: ParseSettings,
) -> (r: Result<Expr, ParseError>)
    requires
        ready(*old(input), *old(state), *old(lib), settings, 9),
    ensures
        kept(*old(input), *final(input), *old(state), *final(state), *final(lib)),
        r is Ok ==> done(*old(input), *final(input), *old(state), *final(state)),
        r is Ok ==> settings.within(old(state).max_expr_depth),
        r matches Ok(e) ==> exists|args: Seq<ExprV>|
            e@ == fn_call_expr(
                id@,
                capture,
                opt_ns_view(namespace),
                final(state)@.modules,
                args,
                settings.pos,
            ),
        !settings.within(old(state).max_expr_depth) ==> expr_result(r) == Err::<
            ExprV,
            ParseErrorV,
        >(too_deep(settings.pos)),
        settings.within(old(state).max_expr_depth) && old(input).peek_spec().0 is RightParen
            ==> expr_result(r) == Ok::<ExprV, ParseErrorV>(
            fn_call_expr(
                id@,
                capture,
                opt_ns_view(namespace),
                old(state)@.modules,
                Seq::empty(),
                settings.pos,
            ),
        ) && final(input).cursor == old(input).cursor + 1 && *final(state) == *old(state)
            && *final(lib) == *old(lib),
        settings.within(old(state).max_expr_depth) && old(input).peek_spec().0 is EOF
            ==> expr_result(r) == Err::<ExprV, ParseErrorV>(
            missing_token(")"@, unclosed_call(id@), old(input).peek_spec().1),
        ),
        settings.within(old(state).max_expr_depth)
            ==> (old(input).peek_spec().0 matches Token::LexError(err)
            ==> expr_result(r) == Err::<ExprV, ParseErrorV>(
            lex_err_at(err@, old(input).peek_spec().1),
        )),
        yields(
            expr_result(r),
            *final(input),
            *final(state),
            *final(lib),
            g_fn_call(
                old(state).engine,
                source_of(*old(input)),
                config_of(*old(input), *old(state), *old(lib)),
                settings,
                id@,
                capture,
                opt_ns_view(namespace),
            ),
        ),
    decreases old(input).remaining(), 9nat,
{
    let ghost engine = state.engine;
    let ghost src = source_of(*input);
    let ghost goal = g_fn_call(
        engine,
        src,
        config_of(*input, *state, *lib),
        settings,
        id@,
        capture,
        opt_ns_view(namespace),
    );
    proof {
        reveal(g_fn_call);
    }
    settings.ensure_level_within_max_limit(state.max_expr_depth)?;
    let token_pos = input.peek().1;
    let mut args: Vec<Expr> = Vec::new();
    match &input.peek().0 {
        Token::EOF => {
            let context = concat3(
                "to close the arguments list of this function call '",
                id.as_str(),
                "'",
            );
            return Err(missing_with(")", context, token_pos));
        },
        Token::LexError(err) => {
            return Err(err.clone_error().into_err(token_pos));
        },
        Token::RightParen => {
            eat_token(input, Token::RightParen);
            proof {
                lemma_expr_views(args@);
                assert(expr_views(args@) =~= Seq::<ExprV>::empty());
            }
            return Ok(finish_fn_call(state, id, capture, namespace, args, settings.pos));
        },
        _ => {},
    }
    let inner = settings.level_up();
    proof {
        lemma_expr_views(args@);
        assert(expr_views(args@) =~= Seq::<ExprV>::empty());
        assert(src.at(input.cursor as int) == input.peek_spec());
        reveal(g_fn_call);
        reveal(g_fn_args);
        assert(goal == g_fn_args(
            engine,
            src,
            config_of(*input, *state, *lib),
            settings,
            id@,
            capture,
            opt_ns_view(namespace),
            Seq::empty(),
        ));
    }
    loop
        invariant
            engine == old(state).engine,
            src == source_of(*old(input)),
            goal == g_fn_call(
                engine,
                src,
                config_of(*old(input), *old(state), *old(lib)),
                settings,
                id@,
                capture,
                opt_ns_view(namespace),
            ),
            g_fn_args(
                engine,
                src,
                config_of(*input, *state, *lib),
                settings,
                id@,
                capture,
                opt_ns_view(namespace),
                expr_views(args@),
            ) == goal,
            kept(*old(input), *input, *old(state), *state, *lib),
            settled(*old(state), *state),
            settings.fits(old(input), 9),
            settings.within(old(state).max_expr_depth),
            inner == (ParseSettings { level: (settings.level + 1) as usize, ..settings }),
            !(old(input).peek_spec().0 is RightParen),
            !(old(input).peek_spec().0 is EOF),
            !(old(input).peek_spec().0 is LexError),
        decreases input.remaining(),
    {
        let at_close = match &input.peek().0 {
            Token::RightParen => true,
            _ => false,
        };
        proof {
            reveal(g_fn_args);
        }
        if !at_close {
            let arg = parse_expr(input, state, lib, inner)?;
            proof {
                lemma_expr_views_push(args@, arg);
            }
            args.push(arg);
        }
        let pos = input.peek().1;
        match &input.peek().0 {
            Token::RightParen => {
                eat_token(input, Token::RightParen);
                return Ok(finish_fn_call(state, id, capture, namespace, args, settings.pos));
            },
            Token::Comma => {
                eat_token(input, Token::Comma);
            },
            Token::EOF => {
                let context = concat3(
                    "to close the arguments list of this function call '",
                    id.as_str(),
                    "'",
                );
                return Err(missing_with(")", context, pos));
            },
            Token::LexError(err) => {
                return Err(err.clone_error().into_err(pos));
            },
            _ => {
                let context = concat3(
                    "to separate the arguments to function call '",
                    id.as_str(),
                    "'",
                );
                return Err(missing_with(",", context, pos));
            },
        }
    }
}

/// Parses what follows an opening bracket: the index, the closing bracket
/// and any further brackets, which group to the right. The cursor stands
/// behind the opening bracket.
#[verifier::rlimit(30)]
pub fn parse_index_chain<P: SyntaxParser>(
    input: &mut TokenStream,
    state: &mut ParseState<'_, P>,
    lib: &mut FunctionsLib,
    lhs: Expr,
    settings: ParseSettings,
) -> (r: Result<Expr, ParseError>)
    requires
        ready(*old(input), *old(state), *old(lib), settings, 9),
    ensures
        kept(*old(input), *final(input), *old(state), *final(state), *final(lib)),
        r is Ok ==> done(*old(input), *final(input), *old(state), *final(state)),
        r is Ok ==> settings.within(old(state).max_expr_depth),
        r matches Ok(e) ==> (e@ matches ExprV::Index(l, idx, p) && *l == lhs@ && p == settings.pos),
        !settings.within(old(state).max_expr_depth) ==> expr_result(r) == Err::<
            ExprV,
            ParseErrorV,
        >(too_deep(settings.pos)),
        yields(
            expr_result(r),
            *final(input),
            *final(state),
            *final(lib),
            g_index_chain(
                old(state).engine,
                source_of(*old(input)),
                config_of(*old(input), *old(state), *old(lib)),
                settings,
                lhs@,
            ),
        ),
    decreases old(input).remaining(), 9nat,
{
    proof {
        reveal(g_index_chain);
    }
    let mut s = settings;
    s.ensure_level_within_max_limit(state.max_expr_depth)?;
    let idx_expr = parse_expr(input, state, lib, s.level_up())?;
    check_index_type(&lhs, &idx_expr)?;
    let pos = input.peek().1;
    let closed = match &input.peek().0 {
        Token::RightBracket => true,
        Token::LexError(err) => {
            return Err(err.clone_error().into_err(pos));
        },
        _ => {
            return Err(missing("]", "for a matching [ in this index expression", pos));
        },
    };
    eat_token(input, Token::RightBracket);
    let more = match &input.peek().0 {
        Token::LeftBracket => true,
        _ => false,
    };
    if more {
        let prev_pos = s.pos;
        s.pos = eat_token(input, Token::LeftBracket);
        let idx_expr = parse_index_chain(input, state, lib, idx_expr, s.level_up())?;
        Ok(Expr::Index(Box::new(BinaryExpr { lhs, rhs: idx_expr }), prev_pos))
    } else {
        Ok(Expr::Index(Box::new(BinaryExpr { lhs, rhs: idx_expr }), s.pos))
    }
}

} // verus!

