//! Primary expressions: atoms and the postfix operators that follow them.

use vstd::prelude::*;
use crate::ast::{Expr, ExprV, Ident, NamespaceRef, ScriptFnDefV, Stmt, expr_view, ident_views};
use crate::block::parse_block;
use crate::builder::{expr_result, make_dot_expr};
use crate::call::{parse_fn_call, parse_index_chain, parse_paren_expr};
use crate::control::parse_if;
use crate::engine::{Engine, SyntaxParser};
use crate::error::{ParseError, ParseErrorType, ParseErrorTypeV, ParseErrorV, err_at, missing};
use crate::function::parse_anon_fn;
use crate::grammar::{
    Config, Parsed, Source, Start, at_pos, function_state, g_array, g_atom, g_block, g_closure,
    g_fn_call, g_if, g_index_chain, g_literal, g_map, g_name, g_paren, g_postfix, g_primary,
    g_reserved, g_switch, lib_view, literal_of, ok, postfix_applies, source_of, st_access_all,
    start_of, too_deep,
};
use crate::literal::{parse_array_literal, parse_map_literal};
use crate::parser::{
    FunctionsLib, applies, cache_root_hash, classify, config_of, done, keep_function, kept,
    make_function_settings, match_token, next_variable_name, one_stmt, ready, settled,
    variable_resolves, yields,
};
use crate::position::Position;
use crate::state::{ParseSettings, ParseState};
use crate::strings::{concat3, str_eq};
use crate::switch::parse_switch;
use crate::token::{LexError, Token, TokenStream, is_keyword_function, is_valid_identifier};

verus! {

/// The outcome is the one that the grammar gives.
pub open spec fn yields_at<T>(result: Result<T, ParseErrorV>, after: Config, p: Parsed<T>) -> bool {
    &&& result == p.result
    &&& result is Ok ==> after == p.after
}

/// Parses a literal token.
pub(crate) fn parse_literal<P: SyntaxParser>(
    input: &mut TokenStream,
    state: &mut ParseState<'_, P>,
    pos: Position,
) -> (r: Expr)
    requires
        old(input).wf(),
        old(state).wf(),
        pos == old(input).peek_spec().1,
        literal_of(old(input).peek_spec().0, pos, old(state).engine.floats) is Some,
    ensures
        final(input).advanced_by(old(input), 1),
        final(state).interned_more(old(state)),
        Some(r@) == literal_of(old(input).peek_spec().0, pos, old(state).engine.floats),
        forall|lib: Seq<(u64, ScriptFnDefV)>| #[trigger]
            g_literal(
                old(state).engine,
                source_of(*old(input)),
                Config { cursor: old(input).cursor as int, state: old(state)@, lib },
                pos,
            ) == ok(r@, Config { cursor: final(input).cursor as int, state: final(state)@, lib }),
{
    proof {
        reveal(g_literal);
        assert(source_of(*input).at(input.cursor as int) == input.peek_spec());
    }
    match input.next().0 {
        Token::IntegerConstant(x) => Expr::IntegerConstant(x, pos),
        Token::CharConstant(c) => Expr::CharConstant(c, pos),
        Token::StringConstant(text) => Expr::StringConstant(
            state.get_interned_string(text.as_str()),
            pos,
        ),
        Token::True => Expr::BoolConstant(true, pos),
        Token::False => Expr::BoolConstant(false, pos),
        Token::FloatConstant(bits, _) => Expr::FloatConstant(bits, pos),
        _ => vstd::pervasive::unreached(),
    }
}

/// Parses a name. A name before a call or a module path is taken as it
/// is; any other name is looked up on the scope stack.
pub(crate) fn parse_name<P: SyntaxParser>(
    input: &mut TokenStream,
    state: &mut ParseState<'_, P>,
    pos: Position,
) -> (r: Expr)
    requires
        old(input).wf(),
        old(state).wf(),
        old(input).peek_spec().0 is Identifier,
    ensures
        final(input).advanced_by(old(input), 1),
        final(state).extends(old(state)),
        final(state).stack == old(state).stack,
        final(state).modules == old(state).modules,
        final(state).entry_stack_len == old(state).entry_stack_len,
        r@ matches ExprV::Variable(index, None, id) && id.pos == pos
            && id.name == old(input).peek_spec().0->Identifier_0@,
        variable_resolves(r@, final(state)@.stack),
        forall|lib: Seq<(u64, ScriptFnDefV)>| #[trigger]
            g_name(
                old(state).engine,
                source_of(*old(input)),
                Config { cursor: old(input).cursor as int, state: old(state)@, lib },
                pos,
            ) == ok(r@, Config { cursor: final(input).cursor as int, state: final(state)@, lib }),
{
    proof {
        reveal(g_name);
        assert(source_of(*input).at(input.cursor as int) == input.peek_spec());
        assert(source_of(*input).at(input.cursor + 1) == input.ahead(1));
    }
    let engine = state.engine;
    let name = match input.next().0 {
        Token::Identifier(name) => name,
        _ => vstd::pervasive::unreached(),
    };
    let lookup = match &input.peek().0 {
        Token::LeftParen | Token::Bang => false,
        Token::DoubleColon => !engine.modules,
        _ => true,
    };
    if lookup {
        let index = state.access_var(name.as_str(), pos);
        let ident = Ident { name: state.get_interned_string(name.as_str()), pos };
        Expr::Variable(Box::new((index, None, ident)))
    } else {
        if engine.closures {
            state.allow_capture = true;
        }
        let ident = Ident { name: state.get_interned_string(name.as_str()), pos };
        Expr::Variable(Box::new((None, None, ident)))
    }
}

/// Parses a reserved word in the place of a name: `this` inside a
/// function, or one of the words that are called like functions before a
/// call.
pub(crate) fn parse_reserved_name<P: SyntaxParser>(
    input: &mut TokenStream,
    state: &mut ParseState<'_, P>,
    s: ParseSettings,
) -> (r: Result<Expr, ParseError>)
    requires
        old(input).wf(),
        old(state).wf(),
        old(input).peek_spec().0 is Reserved,
    ensures
        final(input).advanced_by(old(input), 1),
        final(state).interned_more(old(state)),
        r matches Ok(e) ==> e@ matches ExprV::Variable(None, None, id),
        forall|lib: Seq<(u64, ScriptFnDefV)>|
            yields_at(
                expr_result(r),
                Config { cursor: final(input).cursor as int, state: final(state)@, lib },
                #[trigger] g_reserved(
                    old(state).engine,
                    source_of(*old(input)),
                    Config { cursor: old(input).cursor as int, state: old(state)@, lib },
                    s,
                ),
            ),
{
    proof {
        reveal(g_reserved);
        assert(source_of(*input).at(input.cursor as int) == input.peek_spec());
        assert(source_of(*input).at(input.cursor + 1) == input.ahead(1));
    }
    let engine = state.engine;
    let name = match input.next().0 {
        Token::Reserved(name) => name,
        _ => vstd::pervasive::unreached(),
    };
    let call = match &input.peek().0 {
        Token::LeftParen | Token::Bang => true,
        _ => false,
    };
    let this = str_eq(name.as_str(), "this");
    if call {
        let callable = !this && is_keyword_function(name.as_str()) && (engine.closures
            || !str_eq(name.as_str(), "is_shared"));
        if !callable {
            return Err(ParseErrorType::Reserved(name).into_err(s.pos));
        }
        let ident = Ident { name: state.get_interned_string(name.as_str()), pos: s.pos };
        Ok(Expr::Variable(Box::new((None, None, ident))))
    } else if this {
        if !s.is_function_scope {
            let msg = concat3("'", name.as_str(), "' can only be used in functions");
            return Err(LexError::ImproperSymbol(name, msg).into_err(s.pos));
        }
        let ident = Ident { name: state.get_interned_string(name.as_str()), pos: s.pos };
        Ok(Expr::Variable(Box::new((None, None, ident))))
    } else if is_valid_identifier(name.as_str()) {
        return Err(ParseErrorType::Reserved(name).into_err(s.pos));
    } else {
        return Err(LexError::UnexpectedInput(name).into_err(s.pos));
    }
}

/// Parses an anonymous function, keeps it in the library and passes the
/// variables that it captures on to the scope around it.
pub(crate) fn parse_closure<P: SyntaxParser>(
    input: &mut TokenStream,
    state: &mut ParseState<'_, P>,
    lib: &mut FunctionsLib,
    s: ParseSettings,
) -> (r: Result<Expr, ParseError>)
    requires
        ready(*old(input), *old(state), *old(lib), s, 3),
        old(input).peek_spec().0 is Pipe || old(input).peek_spec().0 is Or,
    ensures
        kept(*old(input), *final(input), *old(state), *final(state), *final(lib)),
        r is Ok ==> done(*old(input), *final(input), *old(state), *final(state)),
        r matches Ok(e) ==> !(e is Property) && !(e is Variable),
        yields(
            expr_result(r),
            *final(input),
            *final(state),
            *final(lib),
            g_closure(
                old(state).engine,
                source_of(*old(input)),
                config_of(*old(input), *old(state), *old(lib)),
                s,
            ),
        ),
    decreases old(input).remaining(), 3nat,
{
    proof {
        reveal(g_closure);
    }
    let engine = state.engine;
    let mut new_state = ParseState::new(
        engine,
        state.script_hash,
        state.max_function_expr_depth,
        state.max_function_expr_depth,
    );
    proof {
        assert(new_state@ == function_state(state@));
    }
    let (expr, func) = parse_anon_fn(input, &mut new_state, lib, make_function_settings(s.pos))?;
    if engine.closures {
        let ghost captures = new_state@.externals;
        let mut i: usize = 0;
        proof {
            assert(captures.skip(0) =~= captures);
        }
        while i < new_state.externals.len()
            invariant
                i <= new_state.externals@.len(),
                engine == state.engine,
                engine.closures,
                captures == new_state@.externals,
                st_access_all(state@, true, captures.skip(i as int)) == st_access_all(
                    old(state)@,
                    true,
                    captures,
                ),
                state.extends(old(state)),
                state.stack == old(state).stack,
                state.modules == old(state).modules,
                state.entry_stack_len == old(state).entry_stack_len,
            decreases new_state.externals@.len() - i,
        {
            proof {
                assert(captures.skip(i as int).drop_first() =~= captures.skip(i + 1));
                assert(captures.skip(i as int)[0] == (
                    new_state.externals@[i as int].0@,
                    new_state.externals@[i as int].1,
                ));
            }
            state.access_var(new_state.externals[i].0.as_str(), new_state.externals[i].1);
            i = i + 1;
        }
        proof {
            assert(captures.skip(i as int).len() == 0);
        }
    }
    keep_function(lib, func);
    Ok(expr)
}

/// A block where an expression stands.
pub(crate) fn atom_block<P: SyntaxParser>(
    input: &mut TokenStream,
    state: &mut ParseState<'_, P>,
    lib: &mut FunctionsLib,
    s: ParseSettings,
) -> (r: Result<Expr, ParseError>)
    requires
        ready(*old(input), *old(state), *old(lib), s, 3),
        s.pos == old(input).peek_spec().1,
        start_of(old(input).peek_spec().0, s, old(state).engine) == Start::Block,
    ensures
        kept(*old(input), *final(input), *old(state), *final(state), *final(lib)),
        r is Ok ==> done(*old(input), *final(input), *old(state), *final(state)),
        r matches Ok(e) ==> !(e is Property),
        r matches Ok(e) ==> variable_resolves(e@, final(state)@.stack),
        old(input).peek_spec().0 is EOF ==> expr_result(r) == Err::<ExprV, ParseErrorV>(
            err_at(ParseErrorTypeV::UnexpectedEOF, old(input).peek_spec().1),
        ),
        literal_of(old(input).peek_spec().0, old(input).peek_spec().1, old(state).engine.floats)
            matches Some(lit) ==> expr_result(r) == Ok::<ExprV, ParseErrorV>(lit)
            && final(input).cursor == old(input).cursor + 1
            && final(state).interned_more(old(state)) && *final(lib) == *old(lib),
        yields(
            expr_result(r),
            *final(input),
            *final(state),
            *final(lib),
            g_atom(
                old(state).engine,
                source_of(*old(input)),
                config_of(*old(input), *old(state), *old(lib)),
                s,
            ),
        ),
    decreases old(input).remaining(), 3nat,
{
    proof {
        reveal(g_atom);
        reveal(g_block);
        assert(source_of(*input).at(input.cursor as int) == input.peek_spec());
    }
    match parse_block(input, state, lib, s.level_up())? {
        Stmt::Block(statements, pos) => Ok(Expr::Stmt(statements, pos)),
        _ => vstd::pervasive::unreached(),
    }
}

/// A parenthesised expression.
pub(crate) fn atom_paren<P: SyntaxParser>(
    input: &mut TokenStream,
    state: &mut ParseState<'_, P>,
    lib: &mut FunctionsLib,
    s: ParseSettings,
) -> (r: Result<Expr, ParseError>)
    requires
        ready(*old(input), *old(state), *old(lib), s, 3),
        s.pos == old(input).peek_spec().1,
        start_of(old(input).peek_spec().0, s, old(state).engine) == Start::Paren,
    ensures
        kept(*old(input), *final(input), *old(state), *final(state), *final(lib)),
        r is Ok ==> done(*old(input), *final(input), *old(state), *final(state)),
        r matches Ok(e) ==> !(e is Property),
        r matches Ok(e) ==> variable_resolves(e@, final(state)@.stack),
        old(input).peek_spec().0 is EOF ==> expr_result(r) == Err::<ExprV, ParseErrorV>(
            err_at(ParseErrorTypeV::UnexpectedEOF, old(input).peek_spec().1),
        ),
        literal_of(old(input).peek_spec().0, old(input).peek_spec().1, old(state).engine.floats)
            matches Some(lit) ==> expr_result(r) == Ok::<ExprV, ParseErrorV>(lit)
            && final(input).cursor == old(input).cursor + 1
            && final(state).interned_more(old(state)) && *final(lib) == *old(lib),
        yields(
            expr_result(r),
            *final(input),
            *final(state),
            *final(lib),
            g_atom(
                old(state).engine,
                source_of(*old(input)),
                config_of(*old(input), *old(state), *old(lib)),
                s,
            ),
        ),
    decreases old(input).remaining(), 3nat,
{
    proof {
        reveal(g_atom);
        reveal(g_paren);
        assert(source_of(*input).at(input.cursor as int) == input.peek_spec());
    }
    parse_paren_expr(input, state, lib, s.level_up())
}

/// `if` where an expression stands.
pub(crate) fn atom_if<P: SyntaxParser>(
    input: &mut TokenStream,
    state: &mut ParseState<'_, P>,
    lib: &mut FunctionsLib,
    s: ParseSettings,
) -> (r: Result<Expr, ParseError>)
    requires
        ready(*old(input), *old(state), *old(lib), s, 3),
        s.pos == old(input).peek_spec().1,
        start_of(old(input).peek_spec().0, s, old(state).engine) == Start::If,
    ensures
        kept(*old(input), *final(input), *old(state), *final(state), *final(lib)),
        r is Ok ==> done(*old(input), *final(input), *old(state), *final(state)),
        r matches Ok(e) ==> !(e is Property),
        r matches Ok(e) ==> variable_resolves(e@, final(state)@.stack),
        old(input).peek_spec().0 is EOF ==> expr_result(r) == Err::<ExprV, ParseErrorV>(
            err_at(ParseErrorTypeV::UnexpectedEOF, old(input).peek_spec().1),
        ),
        literal_of(old(input).peek_spec().0, old(input).peek_spec().1, old(state).engine.floats)
            matches Some(lit) ==> expr_result(r) == Ok::<ExprV, ParseErrorV>(lit)
            && final(input).cursor == old(input).cursor + 1
            && final(state).interned_more(old(state)) && *final(lib) == *old(lib),
        yields(
            expr_result(r),
            *final(input),
            *final(state),
            *final(lib),
            g_atom(
                old(state).engine,
                source_of(*old(input)),
                config_of(*old(input), *old(state), *old(lib)),
                s,
            ),
        ),
    decreases old(input).remaining(), 3nat,
{
    proof {
        reveal(g_atom);
        reveal(g_if);
        assert(source_of(*input).at(input.cursor as int) == input.peek_spec());
    }
    let stmt = parse_if(input, state, lib, s.level_up())?;
    Ok(Expr::Stmt(one_stmt(stmt), s.pos))
}

/// `switch` where an expression stands.
pub(crate) fn atom_switch<P: SyntaxParser>(
    input: &mut TokenStream,
    state: &mut ParseState<'_, P>,
    lib: &mut FunctionsLib,
    s: ParseSettings,
) -> (r: Result<Expr, ParseError>)
    requires
        ready(*old(input), *old(state), *old(lib), s, 3),
        s.pos == old(input).peek_spec().1,
        start_of(old(input).peek_spec().0, s, old(state).engine) == Start::Switch,
    ensures
        kept(*old(input), *final(input), *old(state), *final(state), *final(lib)),
        r is Ok ==> done(*old(input), *final(input), *old(state), *final(state)),
        r matches Ok(e) ==> !(e is Property),
        r matches Ok(e) ==> variable_resolves(e@, final(state)@.stack),
        old(input).peek_spec().0 is EOF ==> expr_result(r) == Err::<ExprV, ParseErrorV>(
            err_at(ParseErrorTypeV::UnexpectedEOF, old(input).peek_spec().1),
        ),
        literal_of(old(input).peek_spec().0, old(input).peek_spec().1, old(state).engine.floats)
            matches Some(lit) ==> expr_result(r) == Ok::<ExprV, ParseErrorV>(lit)
            && final(input).cursor == old(input).cursor + 1
            && final(state).interned_more(old(state)) && *final(lib) == *old(lib),
        yields(
            expr_result(r),
            *final(input),
            *final(state),
            *final(lib),
            g_atom(
                old(state).engine,
                source_of(*old(input)),
                config_of(*old(input), *old(state), *old(lib)),
                s,
            ),
        ),
    decreases old(input).remaining(), 3nat,
{
    proof {
        reveal(g_atom);
        reveal(g_switch);
        assert(source_of(*input).at(input.cursor as int) == input.peek_spec());
    }
    let stmt = parse_switch(input, state, lib, s.level_up())?;
    Ok(Expr::Stmt(one_stmt(stmt), s.pos))
}

/// An array literal.
pub(crate) fn atom_array<P: SyntaxParser>(
    input: &mut TokenStream,
    state: &mut ParseState<'_, P>,
    lib: &mut FunctionsLib,
    s: ParseSettings,
) -> (r: Result<Expr, ParseError>)
    requires
        ready(*old(input), *old(state), *old(lib), s, 3),
        s.pos == old(input).peek_spec().1,
        start_of(old(input).peek_spec().0, s, old(state).engine) == Start::Array,
    ensures
        kept(*old(input), *final(input), *old(state), *final(state), *final(lib)),
        r is Ok ==> done(*old(input), *final(input), *old(state), *final(state)),
        r matches Ok(e) ==> !(e is Property),
        r matches Ok(e) ==> variable_resolves(e@, final(state)@.stack),
        old(input).peek_spec().0 is EOF ==> expr_result(r) == Err::<ExprV, ParseErrorV>(
            err_at(ParseErrorTypeV::UnexpectedEOF, old(input).peek_spec().1),
        ),
        literal_of(old(input).peek_spec().0, old(input).peek_spec().1, old(state).engine.floats)
            matches Some(lit) ==> expr_result(r) == Ok::<ExprV, ParseErrorV>(lit)
            && final(input).cursor == old(input).cursor + 1
            && final(state).interned_more(old(state)) && *final(lib) == *old(lib),
        yields(
            expr_result(r),
            *final(input),
            *final(state),
            *final(lib),
            g_atom(
                old(state).engine,
                source_of(*old(input)),
                config_of(*old(input), *old(state), *old(lib)),
                s,
            ),
        ),
    decreases old(input).remaining(), 3nat,
{
    proof {
        reveal(g_atom);
        reveal(g_array);
        assert(source_of(*input).at(input.cursor as int) == input.peek_spec());
    }
    parse_array_literal(input, state, lib, s.level_up())
}

/// An object-map literal.
pub(crate) fn atom_map<P: SyntaxParser>(
    input: &mut TokenStream,
    state: &mut ParseState<'_, P>,
    lib: &mut FunctionsLib,
    s: ParseSettings,
) -> (r: Result<Expr, ParseError>)
    requires
        ready(*old(input), *old(state), *old(lib), s, 3),
        s.pos == old(input).peek_spec().1,
        start_of(old(input).peek_spec().0, s, old(state).engine) == Start::ObjectMap,
    ensures
        kept(*old(input), *final(input), *old(state), *final(state), *final(lib)),
        r is Ok ==> done(*old(input), *final(input), *old(state), *final(state)),
        r matches Ok(e) ==> !(e is Property),
        r matches Ok(e) ==> variable_resolves(e@, final(state)@.stack),
        old(input).peek_spec().0 is EOF ==> expr_result(r) == Err::<ExprV, ParseErrorV>(
            err_at(ParseErrorTypeV::UnexpectedEOF, old(input).peek_spec().1),
        ),
        literal_of(old(input).peek_spec().0, old(input).peek_spec().1, old(state).engine.floats)
            matches Some(lit) ==> expr_result(r) == Ok::<ExprV, ParseErrorV>(lit)
            && final(input).cursor == old(input).cursor + 1
            && final(state).interned_more(old(state)) && *final(lib) == *old(lib),
        yields(
            expr_result(r),
            *final(input),
            *final(state),
            *final(lib),
            g_atom(
                old(state).engine,
                source_of(*old(input)),
                config_of(*old(input), *old(state), *old(lib)),
                s,
            ),
        ),
    decreases old(input).remaining(), 3nat,
{
    proof {
        reveal(g_atom);
        reveal(g_map);
        assert(source_of(*input).at(input.cursor as int) == input.peek_spec());
    }
    parse_map_literal(input, state, lib, s.level_up())
}

/// A literal, a name, or a token that starts no expression.
pub(crate) fn atom_word<P: SyntaxParser>(
    input: &mut TokenStream,
    state: &mut ParseState<'_, P>,
    lib: &mut FunctionsLib,
    s: ParseSettings,
) -> (r: Result<Expr, ParseError>)
    requires
        ready(*old(input), *old(state), *old(lib), s, 3),
        s.pos == old(input).peek_spec().1,
        match start_of(old(input).peek_spec().0, s, old(state).engine) {
            Start::End
            | Start::Literal
            | Start::Name
            | Start::Reserved
            | Start::Fault
            | Start::Other => true,
            _ => false,
        },
    ensures
        kept(*old(input), *final(input), *old(state), *final(state), *final(lib)),
        r is Ok ==> done(*old(input), *final(input), *old(state), *final(state)),
        r matches Ok(e) ==> !(e is Property),
        r matches Ok(e) ==> variable_resolves(e@, final(state)@.stack),
        old(input).peek_spec().0 is EOF ==> expr_result(r) == Err::<ExprV, ParseErrorV>(
            err_at(ParseErrorTypeV::UnexpectedEOF, old(input).peek_spec().1),
        ),
        literal_of(old(input).peek_spec().0, old(input).peek_spec().1, old(state).engine.floats)
            matches Some(lit) ==> expr_result(r) == Ok::<ExprV, ParseErrorV>(lit)
            && final(input).cursor == old(input).cursor + 1
            && final(state).interned_more(old(state)) && *final(lib) == *old(lib),
        yields(
            expr_result(r),
            *final(input),
            *final(state),
            *final(lib),
            g_atom(
                old(state).engine,
                source_of(*old(input)),
                config_of(*old(input), *old(state), *old(lib)),
                s,
            ),
        ),
    decreases old(input).remaining(), 3nat,
{
    proof {
        reveal(g_atom);
        reveal(g_literal);
        reveal(g_name);
        reveal(g_reserved);
        assert(source_of(*input).at(input.cursor as int) == input.peek_spec());
    }
    let engine = state.engine;
    let start = classify(&input.peek().0, &s, engine);
    match start {
        Start::End => Err(ParseErrorType::UnexpectedEOF.into_err(s.pos)),
        Start::Literal => Ok(parse_literal(input, state, s.pos)),
        Start::Name => Ok(parse_name(input, state, s.pos)),
        Start::Reserved => parse_reserved_name(input, state, s),
        Start::Fault => {
            let err = match input.next().0 {
                Token::LexError(err) => err,
                _ => vstd::pervasive::unreached(),
            };
            Err(err.into_err(s.pos))
        },
        _ => {
            let text = input.peek().0.syntax();
            Err(LexError::UnexpectedInput(text).into_err(s.pos))
        },
    }
}

/// Parses what a primary expression begins with, before any postfix
/// operators.
pub(crate) fn parse_atom<P: SyntaxParser>(
    input: &mut TokenStream,
    state: &mut ParseState<'_, P>,
    lib: &mut FunctionsLib,
    s: ParseSettings,
) -> (r: Result<Expr, ParseError>)
    requires
        ready(*old(input), *old(state), *old(lib), s, 4),
        s.pos == old(input).peek_spec().1,
    ensures
        kept(*old(input), *final(input), *old(state), *final(state), *final(lib)),
        r is Ok ==> done(*old(input), *final(input), *old(state), *final(state)),
        r matches Ok(e) ==> !(e is Property),
        r matches Ok(e) ==> variable_resolves(e@, final(state)@.stack),
        old(input).peek_spec().0 is EOF ==> expr_result(r) == Err::<ExprV, ParseErrorV>(
            err_at(ParseErrorTypeV::UnexpectedEOF, old(input).peek_spec().1),
        ),
        literal_of(old(input).peek_spec().0, old(input).peek_spec().1, old(state).engine.floats)
            matches Some(lit) ==> expr_result(r) == Ok::<ExprV, ParseErrorV>(lit)
            && final(input).cursor == old(input).cursor + 1
            && final(state).interned_more(old(state)) && *final(lib) == *old(lib),
        yields(
            expr_result(r),
            *final(input),
            *final(state),
            *final(lib),
            g_atom(
                old(state).engine,
                source_of(*old(input)),
                config_of(*old(input), *old(state), *old(lib)),
                s,
            ),
        ),
    decreases old(input).remaining(), 4nat,
{
    proof {
        reveal(g_atom);
        reveal(g_closure);
        assert(source_of(*input).at(input.cursor as int) == input.peek_spec());
    }
    let engine = state.engine;
    let start = classify(&input.peek().0, &s, engine);
    match start {
        Start::Block => atom_block(input, state, lib, s),
        Start::Paren => atom_paren(input, state, lib, s),
        Start::If => atom_if(input, state, lib, s),
        Start::Switch => atom_switch(input, state, lib, s),
        Start::Closure => parse_closure(input, state, lib, s),
        Start::Array => atom_array(input, state, lib, s),
        Start::ObjectMap => atom_map(input, state, lib, s),
        _ => atom_word(input, state, lib, s),
    }
}

/// A postfix operator has been applied as the grammar says: what the
/// grammar makes of the expression before the operator is what it makes of
/// the new expression behind the operator.
pub open spec fn postfix_link<'e, P: SyntaxParser>(
    r: Result<Expr, ParseError>,
    input: TokenStream,
    state: ParseState<'e, P>,
    lib: FunctionsLib,
    src: Source,
    before: Config,
    s: ParseSettings,
    root: ExprV,
) -> bool {
    match r {
        Ok(e) => g_postfix(state.engine, src, before, s, root) == g_postfix(
            state.engine,
            src,
            config_of(input, state, lib),
            s,
            e@,
        ),
        Err(err) => g_postfix(state.engine, src, before, s, root).result == Err::<
            ExprV,
            ParseErrorV,
        >(err@),
    }
}

/// A capturing call `name!(...)`, behind the `!`.
pub(crate) fn postfix_bang<P: SyntaxParser>(
    input: &mut TokenStream,
    state: &mut ParseState<'_, P>,
    lib: &mut FunctionsLib,
    s: ParseSettings,
    root: Expr,
) -> (r: Result<Expr, ParseError>)
    requires
        ready(*old(input), *old(state), *old(lib), s, 11),
        old(input).cursor >= 1,
        source_of(*old(input)).at(old(input).cursor - 1).0 is Bang,
        source_of(*old(input)).at(old(input).cursor - 1).1 == s.pos,
        postfix_applies(
            old(state).engine,
            root@,
            source_of(*old(input)).at(old(input).cursor - 1).0,
        ),
        !(root is Property),
    ensures
        kept(*old(input), *final(input), *old(state), *final(state), *final(lib)),
        r is Ok ==> settled(*old(state), *final(state)),
        r matches Ok(e) ==> !(e is Property),
        r matches Ok(e) ==> variable_resolves(e@, final(state)@.stack),
        postfix_link(
            r,
            *final(input),
            *final(state),
            *final(lib),
            source_of(*old(input)),
            Config {
                cursor: old(input).cursor - 1,
                state: old(state)@,
                lib: lib_view(old(lib)@),
            },
            s,
            root@,
        ),
    decreases old(input).remaining(), 11nat,
{
    proof {
        reveal(g_postfix);
        reveal(g_fn_call);
        reveal_with_fuel(expr_view, 2);
        assert(source_of(*input).at(input.cursor as int) == input.peek_spec());
        assert(source_of(*input).at(input.cursor + 1) == input.ahead(1));
    }
    let tail_pos = s.pos;
    match root {
        Expr::Variable(x) => {
            if x.1.is_some() {
                let matched = match_token(input, Token::LeftParen).0;
                if !matched {
                    return Err(LexError::UnexpectedInput(String::from_str("!")).into_err(tail_pos));
                } else {
                    return Err(
                        LexError::ImproperSymbol(
                            String::from_str("!"),
                            String::from_str("'!' cannot be used to call module functions"),
                        ).into_err(tail_pos),
                    );
                }
            }
            let (matched, pos) = match_token(input, Token::LeftParen);
            if !matched {
                return Err(missing("(", "to start arguments list of function call", pos));
            }
            let (_, _, ident) = *x;
            let mut inner = s;
            inner.pos = ident.pos;
            parse_fn_call(input, state, lib, ident.name, true, None, inner.level_up())
        },
        _ => vstd::pervasive::unreached(),
    }
}

/// A call `name(...)`, behind the opening parenthesis.
pub(crate) fn postfix_call<P: SyntaxParser>(
    input: &mut TokenStream,
    state: &mut ParseState<'_, P>,
    lib: &mut FunctionsLib,
    s: ParseSettings,
    root: Expr,
) -> (r: Result<Expr, ParseError>)
    requires
        ready(*old(input), *old(state), *old(lib), s, 11),
        old(input).cursor >= 1,
        source_of(*old(input)).at(old(input).cursor - 1).0 is LeftParen,
        source_of(*old(input)).at(old(input).cursor - 1).1 == s.pos,
        postfix_applies(
            old(state).engine,
            root@,
            source_of(*old(input)).at(old(input).cursor - 1).0,
        ),
        !(root is Property),
    ensures
        kept(*old(input), *final(input), *old(state), *final(state), *final(lib)),
        r is Ok ==> settled(*old(state), *final(state)),
        r matches Ok(e) ==> !(e is Property),
        r matches Ok(e) ==> variable_resolves(e@, final(state)@.stack),
        postfix_link(
            r,
            *final(input),
            *final(state),
            *final(lib),
            source_of(*old(input)),
            Config {
                cursor: old(input).cursor - 1,
                state: old(state)@,
                lib: lib_view(old(lib)@),
            },
            s,
            root@,
        ),
    decreases old(input).remaining(), 11nat,
{
    proof {
        reveal(g_postfix);
        reveal(g_fn_call);
        reveal_with_fuel(expr_view, 2);
        assert(source_of(*input).at(input.cursor as int) == input.peek_spec());
        assert(source_of(*input).at(input.cursor + 1) == input.ahead(1));
    }
    match root {
        Expr::Variable(x) => {
            let (_, qualifier, ident) = *x;
            let mut inner = s;
            inner.pos = ident.pos;
            let ns = match qualifier {
                Some((_, ns)) => Some(ns),
                None => None,
            };
            parse_fn_call(input, state, lib, ident.name, false, ns, inner.level_up())
        },
        _ => vstd::pervasive::unreached(),
    }
}

/// A module path `module::name`, behind the `::`.
pub(crate) fn postfix_path<P: SyntaxParser>(
    input: &mut TokenStream,
    state: &mut ParseState<'_, P>,
    lib: &mut FunctionsLib,
    s: ParseSettings,
    root: Expr,
) -> (r: Result<Expr, ParseError>)
    requires
        ready(*old(input), *old(state), *old(lib), s, 11),
        old(input).cursor >= 1,
        source_of(*old(input)).at(old(input).cursor - 1).0 is DoubleColon,
        source_of(*old(input)).at(old(input).cursor - 1).1 == s.pos,
        postfix_applies(
            old(state).engine,
            root@,
            source_of(*old(input)).at(old(input).cursor - 1).0,
        ),
        !(root is Property),
    ensures
        kept(*old(input), *final(input), *old(state), *final(state), *final(lib)),
        r is Ok ==> settled(*old(state), *final(state)),
        r matches Ok(e) ==> !(e is Property),
        r matches Ok(e) ==> variable_resolves(e@, final(state)@.stack),
        postfix_link(
            r,
            *final(input),
            *final(state),
            *final(lib),
            source_of(*old(input)),
            Config {
                cursor: old(input).cursor - 1,
                state: old(state)@,
                lib: lib_view(old(lib)@),
            },
            s,
            root@,
        ),
    decreases old(input).remaining(), 11nat,
{
    proof {
        reveal(g_postfix);
        reveal_with_fuel(expr_view, 2);
        assert(source_of(*input).at(input.cursor as int) == input.peek_spec());
        assert(source_of(*input).at(input.cursor + 1) == input.ahead(1));
    }
    match root {
        Expr::Variable(x) => {
            let (name, pos) = next_variable_name(input, false)?;
            let (index, qualifier, first_name) = *x;
            let qualifier = match qualifier {
                Some((hash, ns)) => {
                    let mut ns = ns;
                    let ghost before = ns.path@;
                    ns.path.push(first_name);
                    proof {
                        assert(ident_views(ns.path@) =~= ident_views(before).push(first_name@));
                    }
                    Some((hash, ns))
                },
                None => {
                    let mut path: Vec<Ident> = Vec::new();
                    path.push(first_name);
                    proof {
                        assert(ident_views(path@) =~= seq![first_name@]);
                    }
                    Some((42u64, NamespaceRef { index: None, path }))
                },
            };
            let ident = Ident { name: state.get_interned_string(name.as_str()), pos };
            Ok(Expr::Variable(Box::new((index, qualifier, ident))))
        },
        _ => vstd::pervasive::unreached(),
    }
}

/// An index `expr[...]`, behind the opening bracket.
pub(crate) fn postfix_index<P: SyntaxParser>(
    input: &mut TokenStream,
    state: &mut ParseState<'_, P>,
    lib: &mut FunctionsLib,
    s: ParseSettings,
    root: Expr,
) -> (r: Result<Expr, ParseError>)
    requires
        ready(*old(input), *old(state), *old(lib), s, 11),
        old(input).cursor >= 1,
        source_of(*old(input)).at(old(input).cursor - 1).0 is LeftBracket,
        source_of(*old(input)).at(old(input).cursor - 1).1 == s.pos,
        postfix_applies(
            old(state).engine,
            root@,
            source_of(*old(input)).at(old(input).cursor - 1).0,
        ),
        !(root is Property),
    ensures
        kept(*old(input), *final(input), *old(state), *final(state), *final(lib)),
        r is Ok ==> settled(*old(state), *final(state)),
        r matches Ok(e) ==> !(e is Property),
        r matches Ok(e) ==> variable_resolves(e@, final(state)@.stack),
        postfix_link(
            r,
            *final(input),
            *final(state),
            *final(lib),
            source_of(*old(input)),
            Config {
                cursor: old(input).cursor - 1,
                state: old(state)@,
                lib: lib_view(old(lib)@),
            },
            s,
            root@,
        ),
    decreases old(input).remaining(), 11nat,
{
    proof {
        reveal(g_postfix);
        reveal(g_index_chain);
        reveal_with_fuel(expr_view, 2);
        assert(source_of(*input).at(input.cursor as int) == input.peek_spec());
        assert(source_of(*input).at(input.cursor + 1) == input.ahead(1));
    }
    parse_index_chain(input, state, lib, root, s.level_up())
}

/// A property access `expr.name`, behind the period.
#[verifier::rlimit(80)]
pub(crate) fn postfix_dot<P: SyntaxParser>(
    input: &mut TokenStream,
    state: &mut ParseState<'_, P>,
    lib: &mut FunctionsLib,
    s: ParseSettings,
    root: Expr,
) -> (r: Result<Expr, ParseError>)
    requires
        ready(*old(input), *old(state), *old(lib), s, 11),
        old(input).cursor >= 1,
        source_of(*old(input)).at(old(input).cursor - 1).0 is Period,
        source_of(*old(input)).at(old(input).cursor - 1).1 == s.pos,
        postfix_applies(
            old(state).engine,
            root@,
            source_of(*old(input)).at(old(input).cursor - 1).0,
        ),
        !(root is Property),
    ensures
        kept(*old(input), *final(input), *old(state), *final(state), *final(lib)),
        r is Ok ==> settled(*old(state), *final(state)),
        r matches Ok(e) ==> !(e is Property),
        r matches Ok(e) ==> variable_resolves(e@, final(state)@.stack),
        postfix_link(
            r,
            *final(input),
            *final(state),
            *final(lib),
            source_of(*old(input)),
            Config {
                cursor: old(input).cursor - 1,
                state: old(state)@,
                lib: lib_view(old(lib)@),
            },
            s,
            root@,
        ),
    decreases old(input).remaining(), 11nat,
{
    proof {
        reveal(g_postfix);
        reveal(g_primary);
        assert(source_of(*input).at(input.cursor as int) == input.peek_spec());
        assert(source_of(*input).at(input.cursor + 1) == input.ahead(1));
    }
    let engine = state.engine;
    let tail_pos = s.pos;
    if engine.closures {
        let before_name = match &input.peek().0 {
            Token::Identifier(_) => true,
            _ => false,
        };
        if before_name {
            state.allow_capture = false;
        }
    }
    let rhs = parse_primary(input, state, lib, s.level_up())?;
    make_dot_expr(state, root, rhs, tail_pos)
}

/// Applies the postfix operator that has just been consumed.
pub(crate) fn postfix_step<P: SyntaxParser>(
    input: &mut TokenStream,
    state: &mut ParseState<'_, P>,
    lib: &mut FunctionsLib,
    s: ParseSettings,
    root: Expr,
    tail_token: Token,
) -> (r: Result<Expr, ParseError>)
    requires
        ready(*old(input), *old(state), *old(lib), s, 12),
        old(input).cursor >= 1,
        source_of(*old(input)).at(old(input).cursor - 1).0 == tail_token,
        source_of(*old(input)).at(old(input).cursor - 1).1 == s.pos,
        postfix_applies(
            old(state).engine,
            root@,
            source_of(*old(input)).at(old(input).cursor - 1).0,
        ),
        !(root is Property),
    ensures
        kept(*old(input), *final(input), *old(state), *final(state), *final(lib)),
        r is Ok ==> settled(*old(state), *final(state)),
        r matches Ok(e) ==> !(e is Property),
        r matches Ok(e) ==> variable_resolves(e@, final(state)@.stack),
        postfix_link(
            r,
            *final(input),
            *final(state),
            *final(lib),
            source_of(*old(input)),
            Config {
                cursor: old(input).cursor - 1,
                state: old(state)@,
                lib: lib_view(old(lib)@),
            },
            s,
            root@,
        ),
    decreases old(input).remaining(), 12nat,
{
    match tail_token {
        Token::Bang => postfix_bang(input, state, lib, s, root),
        Token::LeftParen => postfix_call(input, state, lib, s, root),
        Token::DoubleColon => postfix_path(input, state, lib, s, root),
        Token::LeftBracket => postfix_index(input, state, lib, s, root),
        Token::Period => postfix_dot(input, state, lib, s, root),
        _ => vstd::pervasive::unreached(),
    }
}

/// Where an expression stands makes no difference to the postfix operators
/// that follow it.
pub proof fn lemma_postfix_anywhere<P: SyntaxParser>(
    engine: &Engine<P>,
    src: Source,
    cfg: Config,
    s: ParseSettings,
    pos: Position,
    root: ExprV,
)
    ensures
        g_postfix(engine, src, cfg, s, root) == g_postfix(engine, src, cfg, at_pos(s, pos), root),
{
    reveal(g_postfix);
    assert(at_pos(at_pos(s, pos), src.at(cfg.cursor).1) == at_pos(s, src.at(cfg.cursor).1));
}

/// Parses a primary expression: a literal, a name, a parenthesised
/// expression, an array or object-map literal, a block, `if` or `switch` in
/// the place of an expression, or an anonymous function; and after it any
/// run of calls, indexes, property accesses and module paths.
pub fn parse_primary<P: SyntaxParser>(
    input: &mut TokenStream,
    state: &mut ParseState<'_, P>,
    lib: &mut FunctionsLib,
    settings: ParseSettings,
) -> (r: Result<Expr, ParseError>)
    requires
        ready(*old(input), *old(state), *old(lib), settings, 5),
    ensures
        kept(*old(input), *final(input), *old(state), *final(state), *final(lib)),
        r is Ok ==> done(*old(input), *final(input), *old(state), *final(state)),
        r is Ok ==> settings.within(old(state).max_expr_depth),
        r matches Ok(e) ==> !(e is Property),
        r matches Ok(e) ==> variable_resolves(e@, final(state)@.stack),
        !settings.within(old(state).max_expr_depth) ==> expr_result(r) == Err::<
            ExprV,
            ParseErrorV,
        >(too_deep(settings.pos)),
        settings.within(old(state).max_expr_depth) && old(input).peek_spec().0 is EOF
            ==> expr_result(r) == Err::<ExprV, ParseErrorV>(
            err_at(ParseErrorTypeV::UnexpectedEOF, old(input).peek_spec().1),
        ),
        yields(
            expr_result(r),
            *final(input),
            *final(state),
            *final(lib),
            g_primary(
                old(state).engine,
                source_of(*old(input)),
                config_of(*old(input), *old(state), *old(lib)),
                settings,
            ),
        ),
    decreases old(input).remaining(), 5nat,
{
    let ghost src = source_of(*input);
    let ghost goal = g_primary(state.engine, src, config_of(*input, *state, *lib), settings);
    proof {
        reveal(g_primary);
        reveal(g_atom);
        reveal(g_postfix);
        assert(src.at(input.cursor as int) == input.peek_spec());
    }
    let mut s = settings;
    s.ensure_level_within_max_limit(state.max_expr_depth)?;
    let engine = state.engine;
    s.pos = input.peek().1;
    let mut root_expr = parse_atom(input, state, lib, s)?;
    loop
        invariant
            src == source_of(*old(input)),
            engine == old(state).engine,
            goal == g_primary(
                old(state).engine,
                src,
                config_of(*old(input), *old(state), *old(lib)),
                settings,
            ),
            g_postfix(
                engine,
                src,
                config_of(*input, *state, *lib),
                s,
                root_expr@,
            ) == goal,
            s == (ParseSettings { pos: s.pos, ..settings }),
            kept(*old(input), *input, *old(state), *state, *lib),
            settled(*old(state), *state),
            input.cursor > old(input).cursor,
            settings.fits(old(input), 5),
            settings.within(old(state).max_expr_depth),
            !(root_expr is Property),
            variable_resolves(root_expr@, state@.stack),
            !(old(input).peek_spec().0 is EOF),
        ensures
            g_postfix(
                engine,
                src,
                config_of(*input, *state, *lib),
                s,
                root_expr@,
            ) == goal,
            !postfix_applies(engine, root_expr@, input.peek_spec().0),
            kept(*old(input), *input, *old(state), *state, *lib),
            settled(*old(state), *state),
            input.cursor > old(input).cursor,
            !(root_expr is Property),
            variable_resolves(root_expr@, state@.stack),
        decreases input.remaining(),
    {
        if !applies(engine, &root_expr, &input.peek().0) {
            break ;
        }
        let ghost before = config_of(*input, *state, *lib);
        let ghost was = s;
        let (tail_token, tail_pos) = input.next();
        s.pos = tail_pos;
        proof {
            lemma_postfix_anywhere(engine, src, before, was, tail_pos, root_expr@);
            assert(src.at(before.cursor) == (tail_token, tail_pos));
            assert(at_pos(was, tail_pos) == s);
        }
        root_expr = postfix_step(input, state, lib, s, root_expr, tail_token)?;
    }
    proof {
        reveal(g_postfix);
        assert(src.at(input.cursor as int) == input.peek_spec());
    }
    Ok(cache_root_hash(state, root_expr))
}

} // verus!
