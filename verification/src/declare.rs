//! Declarations of variables, imports and exports.

use vstd::prelude::*;
use crate::ast::{Expr, ExprV, Ident, IdentV, Stmt, StmtV, export_views, opt_ident_view};
use crate::builder::stmt_result;
use crate::dynamic::AccessMode;
use crate::engine::SyntaxParser;
use crate::error::{ParseError, ParseErrorV, missing};
use crate::grammar::{
    declaration, declared_at, g_export, g_export_items, g_expr, g_import, g_initial_value, g_let,
    ok, source_of, too_deep, variable_name,
};
use crate::operator::parse_expr;
use crate::parser::{
    FunctionsLib, config_of, done, eat_token, kept, match_token, next_variable_name, ready, settled,
    yields,
};
use crate::position::Position;
use crate::state::{ParseSettings, ParseState};
use crate::token::{Token, TokenStream};

verus! {

/// The value of an optional expression.
pub open spec fn opt_expr_result(r: Result<Option<Expr>, ParseError>) -> Result<
    Option<ExprV>,
    ParseErrorV,
> {
    match r {
        Ok(Some(e)) => Ok(Some(e@)),
        Ok(None) => Ok(None),
        Err(e) => Err(e@),
    }
}

/// Parses the value that a declaration gives to its variable, behind `=`,
/// if it gives one.
#[verifier::rlimit(30)]
pub(crate) fn parse_initial_value<P: SyntaxParser>(
    input: &mut TokenStream,
    state: &mut ParseState<'_, P>,
    lib: &mut FunctionsLib,
    s: ParseSettings,
) -> (r: Result<Option<Expr>, ParseError>)
    requires
        ready(*old(input), *old(state), *old(lib), s, 9),
    ensures
        kept(*old(input), *final(input), *old(state), *final(state), *final(lib)),
        r is Ok ==> settled(*old(state), *final(state)),
        yields(
            opt_expr_result(r),
            *final(input),
            *final(state),
            *final(lib),
            g_initial_value(
                old(state).engine,
                source_of(*old(input)),
                config_of(*old(input), *old(state), *old(lib)),
                s,
            ),
        ),
    decreases old(input).remaining(), 9nat,
{
    proof {
        reveal(g_initial_value);
        reveal(g_expr);
        assert(source_of(*input).at(input.cursor as int) == input.peek_spec());
    }
    if match_token(input, Token::Equals).0 {
        Ok(Some(parse_expr(input, state, lib, s.level_up())?))
    } else {
        Ok(None)
    }
}

/// Parses `let name = value` or `const name = value`; the value may be
/// left out. The new variable is in scope from here on. The cursor stands
/// on `let` or `const`.
#[verifier::rlimit(30)]
pub fn parse_let<P: SyntaxParser>(
    input: &mut TokenStream,
    state: &mut ParseState<'_, P>,
    lib: &mut FunctionsLib,
    var_type: AccessMode,
    export: bool,
    settings: ParseSettings,
) -> (r: Result<Stmt, ParseError>)
    requires
        ready(*old(input), *old(state), *old(lib), settings, 2),
        old(input).peek_spec().0 is Let || old(input).peek_spec().0 is Const,
    ensures
        kept(*old(input), *final(input), *old(state), *final(state), *final(lib)),
        r is Ok ==> done(*old(input), *final(input), *old(state), *final(state)),
        r is Ok ==> settings.within(old(state).max_expr_depth),
        r matches Ok(st) ==> (var_type is ReadWrite ==> st is Let) && (var_type is ReadOnly ==> st
            is Const),
        r is Ok ==> old(input).ahead(1).0 is Identifier && final(state)@.stack.len() > 0
            && final(state)@.stack.last() == (old(input).ahead(1).0->Identifier_0@, var_type),
        !settings.within(old(state).max_expr_depth) ==> stmt_result(r) == Err::<
            StmtV,
            ParseErrorV,
        >(too_deep(settings.pos)),
        settings.within(old(state).max_expr_depth) ==> (variable_name(
            old(input).ahead(1).0,
            old(input).ahead(1).1,
            true,
        ) matches Err(e) ==> stmt_result(r) == Err::<StmtV, ParseErrorV>(e)),
        yields(
            stmt_result(r),
            *final(input),
            *final(state),
            *final(lib),
            g_let(
                old(state).engine,
                source_of(*old(input)),
                config_of(*old(input), *old(state), *old(lib)),
                settings,
                var_type,
                export,
            ),
        ),
    decreases old(input).remaining(), 2nat,
{
    proof {
        reveal(g_let);
        reveal(g_initial_value);
        assert(source_of(*input).at(input.cursor as int) == input.peek_spec());
        assert(source_of(*input).at(input.cursor + 1) == input.ahead(1));
        assert(source_of(*input).at(input.cursor + 2) == input.ahead(2));
    }
    let mut s = settings;
    s.ensure_level_within_max_limit(state.max_expr_depth)?;
    s.pos = input.next().1;
    let (name, pos) = next_variable_name(input, true)?;
    let expr = parse_initial_value(input, state, lib, s)?;
    let name = state.get_interned_string(name.as_str());
    let ghost before = state@.stack;
    state.stack.push((name.clone(), var_type));
    proof {
        assert(state@.stack =~= before.push((name@, var_type)));
    }
    let var_def = Ident { name, pos };
    let ghost value = crate::ast::opt_expr_view(expr);
    let ghost ident = var_def@;
    let r = match var_type {
        AccessMode::ReadWrite => Stmt::Let(Box::new(var_def), expr, export, s.pos),
        AccessMode::ReadOnly => Stmt::Const(Box::new(var_def), expr, export, s.pos),
    };
    proof {
        assert(r@ == declaration(var_type, ident, value, export, s.pos));
    }
    Ok(r)
}

/// Parses `import path` or `import path as name`. The alias, if there is
/// one, names the module from here on. The cursor stands on `import`.
pub fn parse_import<P: SyntaxParser>(
    input: &mut TokenStream,
    state: &mut ParseState<'_, P>,
    lib: &mut FunctionsLib,
    settings: ParseSettings,
) -> (r: Result<Stmt, ParseError>)
    requires
        ready(*old(input), *old(state), *old(lib), settings, 2),
        old(input).peek_spec().0 is Import,
    ensures
        kept(*old(input), *final(input), *old(state), *final(state), *final(lib)),
        r is Ok ==> done(*old(input), *final(input), *old(state), *final(state)),
        r is Ok ==> settings.within(old(state).max_expr_depth),
        r matches Ok(st)
            ==> (st@ matches StmtV::Import(_, alias, p) && p == old(input).peek_spec().1
            && (alias matches Some(id) ==> final(state)@.modules.len() > 0
            && final(state)@.modules.last() == id.name)),
        !settings.within(old(state).max_expr_depth) ==> stmt_result(r) == Err::<
            StmtV,
            ParseErrorV,
        >(too_deep(settings.pos)),
        yields(
            stmt_result(r),
            *final(input),
            *final(state),
            *final(lib),
            g_import(
                old(state).engine,
                source_of(*old(input)),
                config_of(*old(input), *old(state), *old(lib)),
                settings,
            ),
        ),
    decreases old(input).remaining(), 2nat,
{
    proof {
        reveal(g_import);
        reveal(g_expr);
        assert(source_of(*input).at(input.cursor as int) == input.peek_spec());
        assert(source_of(*input).at(input.cursor + 1) == input.ahead(1));
        assert(source_of(*input).at(input.cursor + 2) == input.ahead(2));
    }
    let mut s = settings;
    s.ensure_level_within_max_limit(state.max_expr_depth)?;
    s.pos = eat_token(input, Token::Import);
    let expr = parse_expr(input, state, lib, s.level_up())?;
    if !match_token(input, Token::As).0 {
        return Ok(Stmt::Import(expr, None, s.pos));
    }
    let (name, name_pos) = next_variable_name(input, true)?;
    let name = state.get_interned_string(name.as_str());
    let ghost before = state@.modules;
    state.modules.push(name.clone());
    proof {
        assert(state@.modules =~= before.push(name@));
    }
    Ok(Stmt::Import(expr, Some(Box::new(Ident { name, pos: name_pos })), s.pos))
}

pub(crate) fn set_declaration_position(st: Stmt, pos: Position) -> (r: Stmt)
    ensures
        r@ == declared_at(st@, pos),
{
    match st {
        Stmt::Let(name, value, export, _) => Stmt::Let(name, value, export, pos),
        Stmt::Const(name, value, export, _) => Stmt::Const(name, value, export, pos),
        st => st,
    }
}

/// Parses `export name as alias, ...`, or `export let ...` and `export
/// const ...`, which declare and export in one. The cursor stands on
/// `export`.
pub fn parse_export<P: SyntaxParser>(
    input: &mut TokenStream,
    state: &mut ParseState<'_, P>,
    lib: &mut FunctionsLib,
    settings: ParseSettings,
) -> (r: Result<Stmt, ParseError>)
    requires
        ready(*old(input), *old(state), *old(lib), settings, 2),
        old(input).peek_spec().0 is Export,
    ensures
        kept(*old(input), *final(input), *old(state), *final(state), *final(lib)),
        r is Ok ==> done(*old(input), *final(input), *old(state), *final(state)),
        r is Ok ==> settings.within(old(state).max_expr_depth),
        r matches Ok(st) ==> (old(input).ahead(1).0 is Let ==> st is Let)
            && (old(input).ahead(1).0 is Const ==> st is Const)
            && (!(old(input).ahead(1).0 is Let) && !(old(input).ahead(1).0 is Const)
            ==> (st@ matches StmtV::Export(list, p) && list.len() > 0
            && p == old(input).peek_spec().1)),
        !settings.within(old(state).max_expr_depth) ==> stmt_result(r) == Err::<
            StmtV,
            ParseErrorV,
        >(too_deep(settings.pos)),
        yields(
            stmt_result(r),
            *final(input),
            *final(state),
            *final(lib),
            g_export(
                old(state).engine,
                source_of(*old(input)),
                config_of(*old(input), *old(state), *old(lib)),
                settings,
            ),
        ),
    decreases old(input).remaining(), 2nat,
{
    proof {
        reveal(g_export);
        reveal(g_let);
        reveal(g_export_items);
        assert(source_of(*input).at(input.cursor as int) == input.peek_spec());
        assert(source_of(*input).at(input.cursor + 1) == input.ahead(1));
        assert(source_of(*input).at(input.cursor + 2) == input.ahead(2));
    }
    let mut s = settings;
    s.ensure_level_within_max_limit(state.max_expr_depth)?;
    s.pos = eat_token(input, Token::Export);
    let pos = input.peek().1;
    let declares: u8 = match &input.peek().0 {
        Token::Let => 1,
        Token::Const => 2,
        _ => 0,
    };
    if declares == 1 {
        let stmt = parse_let(input, state, lib, AccessMode::ReadWrite, true, s)?;
        return Ok(set_declaration_position(stmt, pos));
    } else if declares == 2 {
        let stmt = parse_let(input, state, lib, AccessMode::ReadOnly, true, s)?;
        return Ok(set_declaration_position(stmt, pos));
    }
    let mut exports: Vec<(Ident, Option<Ident>)> = Vec::new();
    let ghost engine = old(state).engine;
    let ghost src = source_of(*old(input));
    let ghost goal = g_export(
        engine,
        src,
        config_of(*old(input), *old(state), *old(lib)),
        settings,
    );
    proof {
        assert(export_views(exports@) =~= Seq::<(IdentV, Option<IdentV>)>::empty());
    }
    loop
        invariant_except_break
            g_export_items(
                src,
                config_of(*input, *state, *lib),
                s.pos,
                export_views(exports@),
            ) == goal,
        invariant
            engine == old(state).engine,
            src == source_of(*old(input)),
            goal == g_export(
                engine,
                src,
                config_of(*old(input), *old(state), *old(lib)),
                settings,
            ),
            kept(*old(input), *input, *old(state), *state, *lib),
            settled(*old(state), *state),
            input.cursor > old(input).cursor,
            settings.within(old(state).max_expr_depth),
            s.pos == old(input).peek_spec().1,
            !(old(input).ahead(1).0 is Let),
            !(old(input).ahead(1).0 is Const),
        ensures
            goal == ok(
                StmtV::Export(export_views(exports@), s.pos),
                config_of(*input, *state, *lib),
            ),
            kept(*old(input), *input, *old(state), *state, *lib),
            settled(*old(state), *state),
            input.cursor > old(input).cursor,
            exports@.len() > 0,
        decreases input.remaining(),
    {
        proof {
            reveal(g_export_items);
            assert(src.at(input.cursor as int) == input.peek_spec());
            assert(src.at(input.cursor + 1) == input.ahead(1));
        }
        let (id, id_pos) = next_variable_name(input, true)?;
        proof {
            assert(src.at(input.cursor as int) == input.peek_spec());
            assert(src.at(input.cursor + 1) == input.ahead(1));
        }
        let rename = if match_token(input, Token::As).0 {
            let (alias, alias_pos) = next_variable_name(input, true)?;
            Some(Ident { name: state.get_interned_string(alias.as_str()), pos: alias_pos })
        } else {
            None
        };
        let item = (Ident { name: state.get_interned_string(id.as_str()), pos: id_pos }, rename);
        proof {
            assert(export_views(exports@.push(item)) =~= export_views(exports@).push(
                (item.0@, opt_ident_view(item.1)),
            ));
            assert(src.at(input.cursor as int) == input.peek_spec());
        }
        exports.push(item);
        let pos = input.peek().1;
        let next: u8 = match &input.peek().0 {
            Token::Comma => 0,
            Token::Identifier(_) => 1,
            _ => 2,
        };
        if next == 0 {
            eat_token(input, Token::Comma);
        } else if next == 1 {
            return Err(missing(",", "to separate the list of exports", pos));
        } else {
            break ;
        }
    }
    Ok(Stmt::Export(exports, s.pos))
}

} // verus!
