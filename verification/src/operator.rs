//! Unary and binary operators, and expressions as a whole.

use vstd::prelude::*;
use crate::ast::{Expr, ExprV};
use crate::builder::{
    expr_result, get_precedence, make_binary_expr, make_negated, make_notted, make_plussed,
    operator_precedence,
};
use crate::custom::parse_custom_syntax;
use crate::engine::{Engine, SyntaxParser};
use crate::error::{ParseError, ParseErrorType, ParseErrorV};
use crate::grammar::{
    Config, Source, at_pos, binds_to_parent, custom_start, deeper, g_binary, g_custom, g_expr,
    g_operators, g_unary, source_of, too_deep,
};
use crate::parser::{
    FunctionsLib, config_of, done, eat_token, kept, ready, settled, variable_resolves, yields,
};
use crate::primary::parse_primary;
use crate::state::{ParseSettings, ParseState};
use crate::token::{Token, TokenStream};

verus! {

/// The custom syntax that the token under the cursor starts, if the engine
/// knows one by the text of the token.
fn custom_syntax_at<P: SyntaxParser>(input: &TokenStream, engine: &Engine<P>) -> (r: Option<usize>)
    requires
        input.wf(),
    ensures
        match r {
            Some(index) => custom_start(engine, input.peek_spec().0) == Some(index as int)
                && index < engine.custom_syntax@.len(),
            None => custom_start(engine, input.peek_spec().0) is None,
        },
{
    if engine.custom_syntax.len() > 0 {
        match &input.peek().0 {
            Token::Custom(key) => engine.syntax_index(key.as_str()),
            Token::Reserved(key) => engine.syntax_index(key.as_str()),
            Token::Identifier(key) => engine.syntax_index(key.as_str()),
            _ => None,
        }
    } else {
        None
    }
}

/// Parses an expression with any unary operators in front of it.
#[verifier::rlimit(30)]
pub fn parse_unary<P: SyntaxParser>(
    input: &mut TokenStream,
    state: &mut ParseState<'_, P>,
    lib: &mut FunctionsLib,
    settings: ParseSettings,
) -> (r: Result<Expr, ParseError>)
    requires
        ready(*old(input), *old(state), *old(lib), settings, 6),
    ensures
        kept(*old(input), *final(input), *old(state), *final(state), *final(lib)),
        r is Ok ==> done(*old(input), *final(input), *old(state), *final(state)),
        r is Ok ==> settings.within(old(state).max_expr_depth),
        r matches Ok(e) ==> !(e is Property),
        r matches Ok(e) ==> variable_resolves(e@, final(state)@.stack),
        !settings.within(old(state).max_expr_depth) ==> expr_result(r) == Err::<
            ExprV,
            ParseErrorV,
        >(too_deep(old(input).peek_spec().1)),
        yields(
            expr_result(r),
            *final(input),
            *final(state),
            *final(lib),
            g_unary(
                old(state).engine,
                source_of(*old(input)),
                config_of(*old(input), *old(state), *old(lib)),
                settings,
            ),
        ),
    decreases old(input).remaining(), 6nat,
{
    proof {
        reveal(g_unary);
        assert(source_of(*input).at(input.cursor as int) == input.peek_spec());
    }
    let mut s = settings;
    s.pos = input.peek().1;
    s.ensure_level_within_max_limit(state.max_expr_depth)?;
    let kind: u8 = match &input.peek().0 {
        Token::UnaryMinus => 1,
        Token::UnaryPlus => 2,
        Token::Bang => 3,
        Token::EOF => 4,
        _ => 0,
    };
    if kind == 1 || kind == 2 {
        parse_signed(input, state, lib, s)
    } else if kind == 3 {
        parse_negation(input, state, lib, s)
    } else if kind == 4 {
        Err(ParseErrorType::UnexpectedEOF.into_err(s.pos))
    } else {
        parse_primary(input, state, lib, s.level_up())
    }
}

/// Parses `-expr` or `+expr`. The cursor stands on the sign.
pub(crate) fn parse_signed<P: SyntaxParser>(
    input: &mut TokenStream,
    state: &mut ParseState<'_, P>,
    lib: &mut FunctionsLib,
    s: ParseSettings,
) -> (r: Result<Expr, ParseError>)
    requires
        ready(*old(input), *old(state), *old(lib), s, 1),
        s.pos == old(input).peek_spec().1,
        s.within(old(state).max_expr_depth),
        old(input).peek_spec().0 is UnaryMinus || old(input).peek_spec().0 is UnaryPlus,
    ensures
        kept(*old(input), *final(input), *old(state), *final(state), *final(lib)),
        r is Ok ==> done(*old(input), *final(input), *old(state), *final(state)),
        r matches Ok(e) ==> !(e is Property) && !(e is Variable),
        yields(
            expr_result(r),
            *final(input),
            *final(state),
            *final(lib),
            g_unary(
                old(state).engine,
                source_of(*old(input)),
                config_of(*old(input), *old(state), *old(lib)),
                s,
            ),
        ),
    decreases old(input).remaining(), 1nat,
{
    proof {
        reveal(g_unary);
        assert(source_of(*input).at(input.cursor as int) == input.peek_spec());
    }
    let floats = state.engine.floats;
    let (sign, pos) = input.next();
    let e = parse_unary(input, state, lib, s.level_up())?;
    match sign {
        Token::UnaryMinus => make_negated(e, pos, floats),
        _ => Ok(make_plussed(e, pos)),
    }
}

/// Parses `!expr`. The cursor stands on the `!`.
pub(crate) fn parse_negation<P: SyntaxParser>(
    input: &mut TokenStream,
    state: &mut ParseState<'_, P>,
    lib: &mut FunctionsLib,
    s: ParseSettings,
) -> (r: Result<Expr, ParseError>)
    requires
        ready(*old(input), *old(state), *old(lib), s, 1),
        s.pos == old(input).peek_spec().1,
        s.within(old(state).max_expr_depth),
        old(input).peek_spec().0 is Bang,
    ensures
        kept(*old(input), *final(input), *old(state), *final(state), *final(lib)),
        r is Ok ==> done(*old(input), *final(input), *old(state), *final(state)),
        r matches Ok(e) ==> !(e is Property) && !(e is Variable),
        yields(
            expr_result(r),
            *final(input),
            *final(state),
            *final(lib),
            g_unary(
                old(state).engine,
                source_of(*old(input)),
                config_of(*old(input), *old(state), *old(lib)),
                s,
            ),
        ),
    decreases old(input).remaining(), 1nat,
{
    proof {
        reveal(g_unary);
        assert(source_of(*input).at(input.cursor as int) == input.peek_spec());
    }
    let pos = eat_token(input, Token::Bang);
    let e = parse_primary(input, state, lib, s.level_up())?;
    Ok(make_notted(e, pos))
}

/// An operator has been applied as the grammar says: what the grammar makes
/// of the operators behind the old operand is what it makes of the
/// operators behind the new one.
pub open spec fn operator_link<'e, P: SyntaxParser>(
    r: Result<(Expr, ParseSettings), ParseError>,
    input: TokenStream,
    state: ParseState<'e, P>,
    lib: FunctionsLib,
    src: Source,
    before: Config,
    s: ParseSettings,
    parent: u8,
    root: ExprV,
) -> bool {
    match r {
        Ok(pair) => g_operators(state.engine, src, before, s, parent, root) == g_operators(
            state.engine,
            src,
            config_of(input, state, lib),
            pair.1,
            parent,
            pair.0@,
        ),
        Err(err) => g_operators(state.engine, src, before, s, parent, root).result == Err::<
            ExprV,
            ParseErrorV,
        >(err@),
    }
}

/// Parses one binary operator with the operand on its right, which takes
/// with it the operators that bind more strongly, and joins it to `root`.
/// Returns the joined expression and the settings for what follows.
#[verifier::rlimit(50)]
pub(crate) fn parse_operator<P: SyntaxParser>(
    input: &mut TokenStream,
    state: &mut ParseState<'_, P>,
    lib: &mut FunctionsLib,
    s: ParseSettings,
    parent: u8,
    precedence: u8,
    root: Expr,
) -> (r: Result<(Expr, ParseSettings), ParseError>)
    requires
        ready(*old(input), *old(state), *old(lib), s, 1),
        operator_precedence(
            old(state).engine,
            old(input).peek_spec().0,
            old(input).peek_spec().1,
        ) == Ok::<u8, ParseErrorV>(precedence),
        !binds_to_parent(precedence, old(input).peek_spec().0.is_assignment_spec(), parent),
    ensures
        kept(*old(input), *final(input), *old(state), *final(state), *final(lib)),
        r is Ok ==> done(*old(input), *final(input), *old(state), *final(state)),
        r matches Ok(pair) ==> !(pair.0 is Property) && !(pair.0 is Variable),
        r matches Ok(pair) ==> pair.1 == at_pos(deeper(s), old(input).peek_spec().1),
        r matches Ok(pair) ==> pair.1.within(old(state).max_expr_depth),
        r is Ok ==> final(input).cursor >= old(input).cursor + 2,
        operator_link(
            r,
            *final(input),
            *final(state),
            *final(lib),
            source_of(*old(input)),
            config_of(*old(input), *old(state), *old(lib)),
            s,
            parent,
            root@,
        ),
    decreases old(input).remaining(), 1nat,
{
    proof {
        reveal(g_operators);
        reveal(g_unary);
        reveal(g_binary);
        assert(source_of(*input).at(input.cursor as int) == input.peek_spec());
    }
    let engine = state.engine;
    let bind_right = input.peek().0.is_bind_right();
    let (op_token, pos) = input.next();
    let rhs = parse_unary(input, state, lib, s)?;
    let next_pos = input.peek().1;
    proof {
        assert(source_of(*input).at(input.cursor as int) == input.peek_spec());
    }
    let next_precedence = get_precedence(engine, &input.peek().0, next_pos)?;
    let rhs = if (precedence == next_precedence && bind_right) || precedence < next_precedence {
        parse_binary_op(input, state, lib, precedence, rhs, s)?
    } else {
        rhs
    };
    let mut s1 = s.level_up();
    s1.pos = pos;
    s1.ensure_level_within_max_limit(state.max_expr_depth)?;
    let e = make_binary_expr(engine, op_token, root, rhs, pos)?;
    Ok((e, s1))
}

/// Parses the binary operators that follow `lhs` and bind more strongly
/// than `parent_precedence`, with their operands.
pub fn parse_binary_op<P: SyntaxParser>(
    input: &mut TokenStream,
    state: &mut ParseState<'_, P>,
    lib: &mut FunctionsLib,
    parent_precedence: u8,
    lhs: Expr,
    settings: ParseSettings,
) -> (r: Result<Expr, ParseError>)
    requires
        ready(*old(input), *old(state), *old(lib), settings, 7),
    ensures
        kept(*old(input), *final(input), *old(state), *final(state), *final(lib)),
        r is Ok ==> settled(*old(state), *final(state)),
        r is Ok ==> settings.within(old(state).max_expr_depth),
        r matches Ok(e) ==> (e is Property ==> lhs is Property),
        r matches Ok(e) ==> (variable_resolves(lhs@, old(state)@.stack) ==> variable_resolves(
            e@,
            final(state)@.stack,
        )),
        !settings.within(old(state).max_expr_depth) ==> expr_result(r) == Err::<
            ExprV,
            ParseErrorV,
        >(too_deep(settings.pos)),
        yields(
            expr_result(r),
            *final(input),
            *final(state),
            *final(lib),
            g_binary(
                old(state).engine,
                source_of(*old(input)),
                config_of(*old(input), *old(state), *old(lib)),
                settings,
                parent_precedence,
                lhs@,
            ),
        ),
    decreases old(input).remaining(), 7nat,
{
    let ghost src = source_of(*input);
    let ghost goal = g_binary(
        state.engine,
        src,
        config_of(*input, *state, *lib),
        settings,
        parent_precedence,
        lhs@,
    );
    proof {
        reveal(g_binary);
        reveal(g_operators);
    }
    let mut s = settings;
    s.ensure_level_within_max_limit(state.max_expr_depth)?;
    s.pos = lhs.position();
    let engine = state.engine;
    let mut root = lhs;
    let ghost mut untouched = true;
    loop
        invariant
            src == source_of(*old(input)),
            engine == old(state).engine,
            goal == g_binary(
                engine,
                src,
                config_of(*old(input), *old(state), *old(lib)),
                settings,
                parent_precedence,
                lhs@,
            ),
            g_operators(
                engine,
                src,
                config_of(*input, *state, *lib),
                s,
                parent_precedence,
                root@,
            ) == goal,
            kept(*old(input), *input, *old(state), *state, *lib),
            settled(*old(state), *state),
            settings.within(old(state).max_expr_depth),
            s.fits(input, 7),
            root is Property ==> lhs is Property,
            !untouched ==> !(root is Variable),
            untouched ==> root == lhs && *state == *old(state),
        decreases input.remaining(),
    {
        proof {
            reveal(g_operators);
            assert(src.at(input.cursor as int) == input.peek_spec());
        }
        let current_pos = input.peek().1;
        let precedence = get_precedence(engine, &input.peek().0, current_pos)?;
        let bind_right = input.peek().0.is_bind_right();
        if precedence < parent_precedence || (precedence == parent_precedence && !bind_right) {
            return Ok(root);
        }
        proof {
            untouched = false;
        }
        let (e, s1) = parse_operator(input, state, lib, s, parent_precedence, precedence, root)?;
        root = e;
        s = s1;
    }
}

/// Parses an expression: a custom syntax if the first token starts one,
/// else operands joined by binary operators.
#[verifier::rlimit(30)]
pub fn parse_expr<P: SyntaxParser>(
    input: &mut TokenStream,
    state: &mut ParseState<'_, P>,
    lib: &mut FunctionsLib,
    settings: ParseSettings,
) -> (r: Result<Expr, ParseError>)
    requires
        ready(*old(input), *old(state), *old(lib), settings, 8),
    ensures
        kept(*old(input), *final(input), *old(state), *final(state), *final(lib)),
        r is Ok ==> done(*old(input), *final(input), *old(state), *final(state)),
        r is Ok ==> settings.within(old(state).max_expr_depth),
        r matches Ok(e) ==> !(e is Property),
        r matches Ok(e) ==> variable_resolves(e@, final(state)@.stack),
        !settings.within(old(state).max_expr_depth) ==> expr_result(r) == Err::<
            ExprV,
            ParseErrorV,
        >(too_deep(settings.pos)),
        yields(
            expr_result(r),
            *final(input),
            *final(state),
            *final(lib),
            g_expr(
                old(state).engine,
                source_of(*old(input)),
                config_of(*old(input), *old(state), *old(lib)),
                settings,
            ),
        ),
    decreases old(input).remaining(), 8nat,
{
    proof {
        reveal(g_expr);
        reveal(g_unary);
        reveal(g_binary);
        reveal(g_custom);
        assert(source_of(*input).at(input.cursor as int) == input.peek_spec());
    }
    let mut s = settings;
    s.ensure_level_within_max_limit(state.max_expr_depth)?;
    s.pos = input.peek().1;
    match custom_syntax_at(input, state.engine) {
        Some(index) => {
            let token_pos = s.pos;
            input.next();
            return parse_custom_syntax(input, state, lib, s, index, token_pos);
        },
        None => {},
    }
    let lhs = parse_unary(input, state, lib, s.level_up())?;
    parse_binary_op(input, state, lib, 1, lhs, s.level_up())
}

} // verus!
