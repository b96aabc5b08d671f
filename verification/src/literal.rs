//! Array and object-map literals.

use vstd::prelude::*;
use crate::ast::{
    Expr, ExprV, Ident, IdentV, expr_views, lemma_expr_views, lemma_expr_views_push,
    lemma_pair_views, lemma_pair_views_push, pair_views,
};
use crate::builder::expr_result;
use crate::engine::SyntaxParser;
use crate::error::{ParseError, ParseErrorType, ParseErrorV, missing};
use crate::grammar::{g_array, g_array_items, g_map, g_map_items, source_of, too_deep};
use crate::operator::parse_expr;
use crate::parser::{
    FunctionsLib, config_of, distinct_properties, done, eat_token, has_property, kept, missing_with,
    ready, settled, size_within, yields,
};
use crate::state::{ParseSettings, ParseState};
use crate::strings::concat3;
use crate::token::{LexError, Token, TokenStream, is_valid_identifier};

verus! {

/// Parses an array literal `[ item, ... ]`. The cursor stands on the
/// opening bracket.
#[verifier::rlimit(30)]
pub fn parse_array_literal<P: SyntaxParser>(
    input: &mut TokenStream,
    state: &mut ParseState<'_, P>,
    lib: &mut FunctionsLib,
    settings: ParseSettings,
) -> (r: Result<Expr, ParseError>)
    requires
        ready(*old(input), *old(state), *old(lib), settings, 2),
        old(input).peek_spec().0 is LeftBracket,
    ensures
        kept(*old(input), *final(input), *old(state), *final(state), *final(lib)),
        r is Ok ==> done(*old(input), *final(input), *old(state), *final(state)),
        r is Ok ==> settings.within(old(state).max_expr_depth),
        r matches Ok(e) ==> (e@ matches ExprV::Array(items, p) && p == old(input).peek_spec().1
            && size_within(items.len(), old(state).engine.max_array_size)),
        !settings.within(old(state).max_expr_depth) ==> expr_result(r) == Err::<
            ExprV,
            ParseErrorV,
        >(too_deep(settings.pos)),
        settings.within(old(state).max_expr_depth) && old(input).ahead(1).0 is RightBracket
            ==> expr_result(r) == Ok::<ExprV, ParseErrorV>(
            ExprV::Array(Seq::empty(), old(input).peek_spec().1),
        ) && final(input).cursor == old(input).cursor + 2 && *final(state) == *old(state)
            && *final(lib) == *old(lib),
        yields(
            expr_result(r),
            *final(input),
            *final(state),
            *final(lib),
            g_array(
                old(state).engine,
                source_of(*old(input)),
                config_of(*old(input), *old(state), *old(lib)),
                settings,
            ),
        ),
    decreases old(input).remaining(), 2nat,
{
    let ghost engine = state.engine;
    let ghost src = source_of(*input);
    let ghost goal = g_array(engine, src, config_of(*input, *state, *lib), settings);
    proof {
        reveal(g_array);
    }
    let mut s = settings;
    s.ensure_level_within_max_limit(state.max_expr_depth)?;
    s.pos = eat_token(input, Token::LeftBracket);
    let max = state.engine.max_array_size;
    let mut arr: Vec<Expr> = Vec::new();
    let ghost mut fresh = true;
    proof {
        reveal(g_array);
        reveal(g_array_items);
        lemma_expr_views(arr@);
        assert(expr_views(arr@) =~= Seq::<ExprV>::empty());
        assert(goal == g_array_items(
            engine,
            src,
            config_of(*input, *state, *lib),
            s,
            expr_views(arr@),
        ));
    }
    loop
        invariant
            engine == old(state).engine,
            src == source_of(*old(input)),
            goal == g_array(engine, src, config_of(*old(input), *old(state), *old(lib)), settings),
            g_array_items(
                engine,
                src,
                config_of(*input, *state, *lib),
                s,
                expr_views(arr@),
            ) == goal,
            s == (ParseSettings { pos: s.pos, ..settings }),
            kept(*old(input), *input, *old(state), *state, *lib),
            settled(*old(state), *state),
            input.cursor > old(input).cursor,
            s.level == settings.level,
            settings.fits(old(input), 2),
            settings.within(old(state).max_expr_depth),
            s.pos == old(input).peek_spec().1,
            max == old(state).engine.max_array_size,
            size_within(arr@.len(), max),
            fresh ==> arr@.len() == 0 && input.cursor == old(input).cursor + 1
                && *state == *old(state) && *lib == *old(lib),
            fresh ==> input.peek_spec() == old(input).ahead(1),
            !fresh ==> !(old(input).ahead(1).0 is RightBracket),
        decreases input.remaining(),
    {
        proof {
            reveal(g_array_items);
            lemma_expr_views(arr@);
        }
        let pos = input.peek().1;
        let end = match &input.peek().0 {
            Token::RightBracket => true,
            Token::EOF => {
                return Err(missing("]", "to end this array literal", pos));
            },
            _ => false,
        };
        if end {
            eat_token(input, Token::RightBracket);
            proof {
                lemma_expr_views(arr@);
                if fresh {
                    assert(expr_views(arr@) =~= Seq::<ExprV>::empty());
                }
            }
            return Ok(Expr::Array(arr, s.pos));
        }
        if max > 0 && arr.len() >= max {
            return Err(
                ParseErrorType::LiteralTooLarge(
                    String::from_str("Size of array literal"),
                    max,
                ).into_err(pos),
            );
        }
        let expr = parse_expr(input, state, lib, s.level_up())?;
        proof {
            lemma_expr_views_push(arr@, expr);
        }
        arr.push(expr);
        proof {
            fresh = false;
        }
        let pos = input.peek().1;
        match &input.peek().0 {
            Token::Comma => {
                eat_token(input, Token::Comma);
            },
            Token::RightBracket => {},
            Token::EOF => {
                return Err(missing("]", "to end this array literal", pos));
            },
            Token::LexError(err) => {
                return Err(err.clone_error().into_err(pos));
            },
            _ => {
                return Err(missing(",", "to separate the items of this array literal", pos));
            },
        }
    }
}

/// Parses an object-map literal `#{ name: value, ... }`. The cursor stands
/// on the opening `#{`.
#[verifier::rlimit(40)]
pub fn parse_map_literal<P: SyntaxParser>(
    input: &mut TokenStream,
    state: &mut ParseState<'_, P>,
    lib: &mut FunctionsLib,
    settings: ParseSettings,
) -> (r: Result<Expr, ParseError>)
    requires
        ready(*old(input), *old(state), *old(lib), settings, 2),
        old(input).peek_spec().0 is MapStart,
    ensures
        kept(*old(input), *final(input), *old(state), *final(state), *final(lib)),
        r is Ok ==> done(*old(input), *final(input), *old(state), *final(state)),
        r is Ok ==> settings.within(old(state).max_expr_depth),
        r matches Ok(e)
            ==> (e@ matches ExprV::ObjectMap(items, p) && p == old(input).peek_spec().1
            && size_within(items.len(), old(state).engine.max_map_size)
            && distinct_properties(items)),
        !settings.within(old(state).max_expr_depth) ==> expr_result(r) == Err::<
            ExprV,
            ParseErrorV,
        >(too_deep(settings.pos)),
        settings.within(old(state).max_expr_depth) && old(input).ahead(1).0 is RightBrace
            ==> expr_result(r) == Ok::<ExprV, ParseErrorV>(
            ExprV::ObjectMap(Seq::empty(), old(input).peek_spec().1),
        ) && final(input).cursor == old(input).cursor + 2 && *final(state) == *old(state)
            && *final(lib) == *old(lib),
        yields(
            expr_result(r),
            *final(input),
            *final(state),
            *final(lib),
            g_map(
                old(state).engine,
                source_of(*old(input)),
                config_of(*old(input), *old(state), *old(lib)),
                settings,
            ),
        ),
    decreases old(input).remaining(), 2nat,
{
    let ghost engine = state.engine;
    let ghost src = source_of(*input);
    let ghost goal = g_map(engine, src, config_of(*input, *state, *lib), settings);
    proof {
        reveal(g_map);
    }
    let mut s = settings;
    s.ensure_level_within_max_limit(state.max_expr_depth)?;
    s.pos = eat_token(input, Token::MapStart);
    let max = state.engine.max_map_size;
    let mut map: Vec<(Ident, Expr)> = Vec::new();
    let ghost mut fresh = true;
    proof {
        lemma_pair_views(map@);
        reveal(g_map);
        reveal(g_map_items);
        assert(pair_views(map@) =~= Seq::<(IdentV, ExprV)>::empty());
        assert(goal == g_map_items(
            engine,
            src,
            config_of(*input, *state, *lib),
            s,
            pair_views(map@),
        ));
    }
    loop
        invariant
            engine == old(state).engine,
            src == source_of(*old(input)),
            goal == g_map(engine, src, config_of(*old(input), *old(state), *old(lib)), settings),
            g_map_items(
                engine,
                src,
                config_of(*input, *state, *lib),
                s,
                pair_views(map@),
            ) == goal,
            s == (ParseSettings { pos: s.pos, ..settings }),
            kept(*old(input), *input, *old(state), *state, *lib),
            settled(*old(state), *state),
            input.cursor > old(input).cursor,
            s.level == settings.level,
            settings.fits(old(input), 2),
            settings.within(old(state).max_expr_depth),
            s.pos == old(input).peek_spec().1,
            max == old(state).engine.max_map_size,
            size_within(map@.len(), max),
            distinct_properties(pair_views(map@)),
            fresh ==> map@.len() == 0 && input.cursor == old(input).cursor + 1
                && *state == *old(state) && *lib == *old(lib),
            fresh ==> input.peek_spec() == old(input).ahead(1),
            !fresh ==> !(old(input).ahead(1).0 is RightBrace),
        decreases input.remaining(),
    {
        proof {
            reveal(g_map_items);
            lemma_pair_views(map@);
        }
        let pos = input.peek().1;
        let end = match &input.peek().0 {
            Token::RightBrace => true,
            Token::EOF => {
                return Err(missing("}", "to end this object map literal", pos));
            },
            _ => false,
        };
        if end {
            eat_token(input, Token::RightBrace);
            proof {
                lemma_pair_views(map@);
                if fresh {
                    assert(pair_views(map@) =~= Seq::<(IdentV, ExprV)>::empty());
                }
            }
            return Ok(Expr::ObjectMap(map, s.pos));
        }
        let (name, name_pos) = match input.next() {
            (Token::Identifier(s), pos) => {
                if has_property(&map, s.as_str()) {
                    return Err(ParseErrorType::DuplicatedProperty(s).into_err(pos));
                }
                (s, pos)
            },
            (Token::StringConstant(s), pos) => {
                if has_property(&map, s.as_str()) {
                    return Err(ParseErrorType::DuplicatedProperty(s).into_err(pos));
                }
                (s, pos)
            },
            (Token::Reserved(s), pos) => {
                if is_valid_identifier(s.as_str()) {
                    return Err(ParseErrorType::Reserved(s).into_err(pos));
                } else if map.len() == 0 {
                    return Err(missing("}", "to end this object map literal", pos));
                } else {
                    return Err(ParseErrorType::PropertyExpected.into_err(pos));
                }
            },
            (Token::LexError(err), pos) => {
                return Err(err.into_err(pos));
            },
            (_, pos) => {
                if map.len() == 0 {
                    return Err(missing("}", "to end this object map literal", pos));
                } else {
                    return Err(ParseErrorType::PropertyExpected.into_err(pos));
                }
            },
        };
        match input.next() {
            (Token::Colon, _) => {},
            (Token::LexError(err), pos) => {
                return Err(err.into_err(pos));
            },
            (_, pos) => {
                let context = concat3(
                    "to follow the property '",
                    name.as_str(),
                    "' in this object map literal",
                );
                return Err(missing_with(":", context, pos));
            },
        }
        if max > 0 && map.len() >= max {
            return Err(
                ParseErrorType::LiteralTooLarge(
                    String::from_str("Number of properties in object map literal"),
                    max,
                ).into_err(input.peek().1),
            );
        }
        let expr = parse_expr(input, state, lib, s.level_up())?;
        let name = state.get_interned_string(name.as_str());
        let pair = (Ident { name, pos: name_pos }, expr);
        proof {
            lemma_pair_views(map@);
            lemma_pair_views_push(map@, pair);
            lemma_pair_views(map@.push(pair));
            fresh = false;
        }
        map.push(pair);
        let pos = input.peek().1;
        match &input.peek().0 {
            Token::Comma => {
                eat_token(input, Token::Comma);
            },
            Token::RightBrace => {},
            Token::Identifier(_) => {
                return Err(missing(",", "to separate the items of this object map literal", pos));
            },
            Token::LexError(err) => {
                return Err(err.clone_error().into_err(pos));
            },
            _ => {
                return Err(missing("}", "to end this object map literal", pos));
            },
        }
    }
}

} // verus!
