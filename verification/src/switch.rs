//! The switch statement.

use vstd::prelude::*;
use crate::ast::{
    Stmt, StmtV, case_views, lemma_case_views, lemma_case_views_push, opt_stmt_view, stmt_view,
};
use crate::builder::stmt_result;
use crate::engine::SyntaxParser;
use crate::error::{ParseError, ParseErrorType, ParseErrorV, missing};
use crate::grammar::{g_switch, g_switch_cases, source_of, too_deep};
use crate::hashing::calc_value_hash;
use crate::operator::parse_expr;
use crate::parser::{
    FunctionsLib, config_of, distinct_cases, done, eat_token, has_case, hashed_cases, kept, ready,
    settled, yields,
};
use crate::state::{ParseSettings, ParseState};
use crate::statement::parse_stmt;
use crate::token::{LexError, Token, TokenStream};

verus! {

/// The value of an optional statement.
pub open spec fn opt_stmt_value(s: Option<Stmt>) -> Option<StmtV> {
    match s {
        Some(s) => Some(s@),
        None => None,
    }
}

/// Parses a switch: the value that is looked at, then the cases in braces.
/// Each case is a constant and a statement, or `_` and the statement for
/// all other values; no constant and no `_` may stand twice. The cursor
/// stands on `switch`.
#[verifier::rlimit(100)]
pub fn parse_switch<P: SyntaxParser>(
    input: &mut TokenStream,
    state: &mut ParseState<'_, P>,
    lib: &mut FunctionsLib,
    settings: ParseSettings,
) -> (r: Result<Stmt, ParseError>)
    requires
        ready(*old(input), *old(state), *old(lib), settings, 2),
        old(input).peek_spec().0 is Switch,
    ensures
        kept(*old(input), *final(input), *old(state), *final(state), *final(lib)),
        r is Ok ==> done(*old(input), *final(input), *old(state), *final(state)),
        r is Ok ==> settings.within(old(state).max_expr_depth),
        r matches Ok(s)
            ==> (s@ matches StmtV::Switch(item, table, def, p) && p == old(input).peek_spec().1
            && distinct_cases(table) && hashed_cases(table)),
        !settings.within(old(state).max_expr_depth) ==> stmt_result(r) == Err::<
            StmtV,
            ParseErrorV,
        >(too_deep(settings.pos)),
        yields(
            stmt_result(r),
            *final(input),
            *final(state),
            *final(lib),
            g_switch(
                old(state).engine,
                source_of(*old(input)),
                config_of(*old(input), *old(state), *old(lib)),
                settings,
            ),
        ),
    decreases old(input).remaining(), 2nat,
{
    let ghost engine = state.engine;
    let ghost src = source_of(*input);
    let ghost goal = g_switch(engine, src, config_of(*input, *state, *lib), settings);
    proof {
        reveal(g_switch);
    }
    let mut s = settings;
    s.ensure_level_within_max_limit(state.max_expr_depth)?;
    s.pos = eat_token(input, Token::Switch);
    let item = parse_expr(input, state, lib, s.level_up())?;
    let ghost item_view = item@;
    match input.next() {
        (Token::LeftBrace, _) => {},
        (Token::LexError(err), pos) => {
            return Err(err.into_err(pos));
        },
        (_, pos) => {
            return Err(missing("{", "to start a switch block", pos));
        },
    }
    let mut table: Vec<(u64, Stmt)> = Vec::new();
    let mut def_stmt: Option<Stmt> = None;
    proof {
        lemma_case_views(table@);
        reveal(g_switch_cases);
        assert(case_views(table@) =~= Seq::<(u64, StmtV)>::empty());
        assert(goal == g_switch_cases(
            engine,
            src,
            config_of(*input, *state, *lib),
            s,
            item_view,
            case_views(table@),
            opt_stmt_value(def_stmt),
        ));
    }
    loop
        invariant
            engine == old(state).engine,
            src == source_of(*old(input)),
            goal == g_switch(
                engine,
                src,
                config_of(*old(input), *old(state), *old(lib)),
                settings,
            ),
            item_view == item@,
            g_switch_cases(
                engine,
                src,
                config_of(*input, *state, *lib),
                s,
                item_view,
                case_views(table@),
                opt_stmt_value(def_stmt),
            ) == goal,
            s == (ParseSettings { pos: s.pos, ..settings }),
            kept(*old(input), *input, *old(state), *state, *lib),
            settled(*old(state), *state),
            input.cursor > old(input).cursor,
            s.level == settings.level,
            settings.fits(old(input), 2),
            settings.within(old(state).max_expr_depth),
            s.pos == old(input).peek_spec().1,
            distinct_cases(case_views(table@)),
            hashed_cases(case_views(table@)),
        decreases input.remaining(),
    {
        proof {
            reveal(g_switch_cases);
            lemma_case_views(table@);
        }
        let pos = input.peek().1;
        let has_default = def_stmt.is_some();
        let start = match &input.peek().0 {
            Token::RightBrace => 0u8,
            Token::EOF => {
                return Err(missing("}", "to end this switch block", pos));
            },
            Token::Underscore => {
                if has_default {
                    return Err(ParseErrorType::DuplicatedSwitchCase.into_err(pos));
                }
                1u8
            },
            _ => 2u8,
        };
        if start == 0 {
            eat_token(input, Token::RightBrace);
            let ghost def_view = opt_stmt_value(def_stmt);
            let r = Stmt::Switch(item, Box::new((table, def_stmt)), s.pos);
            proof {
                reveal_with_fuel(stmt_view, 2);
                reveal_with_fuel(opt_stmt_view, 2);
                assert(r@ == StmtV::Switch(
                    item_view,
                    case_views(table@),
                    match def_view {
                        Some(d) => Some(Box::new(d)),
                        None => None::<Box<StmtV>>,
                    },
                    s.pos,
                ));
            }
            return Ok(r);
        }
        let hash: Option<u64> = if start == 1 {
            eat_token(input, Token::Underscore);
            None
        } else {
            let expr = parse_expr(input, state, lib, s.level_up())?;
            match expr.get_constant_value() {
                Some(value) => {
                    let hash = calc_value_hash(&value);
                    if has_case(&table, hash) {
                        return Err(ParseErrorType::DuplicatedSwitchCase.into_err(expr.position()));
                    }
                    Some(hash)
                },
                None => {
                    return Err(
                        ParseErrorType::ExprExpected(String::from_str("a literal")).into_err(
                            expr.position(),
                        ),
                    );
                },
            }
        };
        match input.next() {
            (Token::DoubleArrow, _) => {},
            (Token::LexError(err), pos) => {
                return Err(err.into_err(pos));
            },
            (_, pos) => {
                return Err(missing("=>", "in this switch case", pos));
            },
        }
        let stmt = parse_stmt(input, state, lib, s.level_up())?;
        let need_comma = !stmt.is_self_terminated();
        match hash {
            Some(hash) => {
                let case = (hash, stmt);
                proof {
                    lemma_case_views(table@);
                    lemma_case_views_push(table@, case);
                    lemma_case_views(table@.push(case));
                }
                table.push(case);
            },
            None => {
                def_stmt = Some(stmt);
            },
        }
        let pos = input.peek().1;
        match &input.peek().0 {
            Token::Comma => {
                eat_token(input, Token::Comma);
            },
            Token::RightBrace => {},
            Token::EOF => {
                return Err(missing(")", "to end this switch block", pos));
            },
            Token::LexError(err) => {
                return Err(err.clone_error().into_err(pos));
            },
            _ => {
                if need_comma {
                    return Err(missing(",", "to separate the items in this switch block", pos));
                }
            },
        }
    }
}

} // verus!
