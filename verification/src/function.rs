//! Definitions of functions, named and anonymous.

use vstd::prelude::*;
use crate::ast::{
    Expr, ExprV, FnAccess, Ident, IdentV, ScriptFnDef, Stmt, ident_names, ident_views, string_views,
};
use crate::block::parse_block;
use crate::builder::{curry_expr, make_curry_from_externals, stmt_result};
use crate::dynamic::AccessMode;
use crate::engine::SyntaxParser;
use crate::error::{ParseError, ParseErrorType, ParseErrorTypeV, ParseErrorV, err_at, missing};
use crate::grammar::{
    captured_idents, closes_params, fn_name_error, free_names, function_settings, g_anon_fn,
    g_block, g_doc_comments, g_fn, g_fn_body, g_fn_definition, g_params, g_stmt, ok, source_of,
    too_deep, unclosed_error, unseparated_error,
};
use crate::hashing::{anon_fn_name, make_anon_fn_name};
use crate::parser::{
    FunctionsLib, anon_fn_result, config_of, distinct_names, eat_token, fn_def_result, has_name,
    keep_function, kept, lib_wf, make_function_settings, missing_with, names_of_params, param_names,
    ready, yields,
};
use crate::position::Position;
use crate::state::{ParseSettings, ParseState, external_views, prefix_of};
use crate::statement::parse_stmt;
use crate::strings::concat3;
use crate::token::{LexError, Token, TokenStream};

verus! {

/// The names of the parameters, whichever way the function ended.
pub open spec fn params_result(r: Result<Vec<(String, Position)>, ParseError>) -> Result<
    Seq<Seq<char>>,
    ParseErrorV,
> {
    match r {
        Ok(params) => Ok(param_names(params@)),
        Err(e) => Err(e@),
    }
}

fn unclosed_params_error(name: &str, anonymous: bool, pos: Position) -> (r: ParseError)
    ensures
        r@ == err_at(unclosed_error(name@, anonymous), pos),
{
    if anonymous {
        missing("|", "to close the parameters list of anonymous function", pos)
    } else {
        let context = concat3("to close the parameters list of function '", name, "'");
        missing_with(")", context, pos)
    }
}

fn unseparated_params_error(name: &str, anonymous: bool, pos: Position) -> (r: ParseError)
    ensures
        r@ == err_at(unseparated_error(name@, anonymous), pos),
{
    if anonymous {
        missing(",", "to separate the parameters of anonymous function", pos)
    } else {
        let context = concat3("to separate the parameters of function '", name, "'");
        missing_with(",", context, pos)
    }
}

fn closes(token: &Token, anonymous: bool) -> (r: bool)
    ensures
        r == closes_params(*token, anonymous),
{
    match token {
        Token::Pipe => anonymous,
        Token::RightParen => !anonymous,
        _ => false,
    }
}

/// Parses the parameters of the function `name` up to the token that
/// closes them, and puts each in scope. No name may occur twice. The
/// cursor stands behind the token that opens the parameters.
pub(crate) fn parse_params<P: SyntaxParser>(
    input: &mut TokenStream,
    state: &mut ParseState<'_, P>,
    lib: &FunctionsLib,
    name: &str,
    anonymous: bool,
) -> (r: Result<Vec<(String, Position)>, ParseError>)
    requires
        old(input).wf(),
        old(state).wf(),
        lib_wf(lib@),
    ensures
        kept(*old(input), *final(input), *old(state), *final(state), *lib),
        final(state).entry_stack_len == old(state).entry_stack_len,
        prefix_of(old(state)@.stack, final(state)@.stack),
        r matches Ok(params) ==> distinct_names(param_names(params@)),
        r is Ok ==> final(input).cursor > old(input).cursor || old(input).cursor
            >= old(input).tokens@.len(),
        yields(
            params_result(r),
            *final(input),
            *final(state),
            *lib,
            g_params(
                source_of(*old(input)),
                config_of(*old(input), *old(state), *lib),
                Seq::empty(),
                name@,
                anonymous,
            ),
        ),
{
    let ghost src = source_of(*old(input));
    let ghost goal = g_params(
        src,
        config_of(*old(input), *old(state), *lib),
        Seq::empty(),
        name@,
        anonymous,
    );
    let mut params: Vec<(String, Position)> = Vec::new();
    proof {
        assert(param_names(params@) =~= Seq::<Seq<char>>::empty());
    }
    loop
        invariant_except_break
            g_params(src, config_of(*input, *state, *lib), param_names(params@), name@, anonymous)
                == goal,
        invariant
            src == source_of(*old(input)),
            goal == g_params(
                src,
                config_of(*old(input), *old(state), *lib),
                Seq::empty(),
                name@,
                anonymous,
            ),
            kept(*old(input), *input, *old(state), *state, *lib),
            input.wf(),
            state.wf(),
            state.entry_stack_len == old(state).entry_stack_len,
            prefix_of(old(state)@.stack, state@.stack),
            distinct_names(param_names(params@)),
        ensures
            goal == ok(param_names(params@), config_of(*input, *state, *lib)),
            kept(*old(input), *input, *old(state), *state, *lib),
            state.entry_stack_len == old(state).entry_stack_len,
            prefix_of(old(state)@.stack, state@.stack),
            distinct_names(param_names(params@)),
            input.cursor > old(input).cursor || old(input).cursor >= old(input).tokens@.len(),
        decreases input.remaining(),
    {
        proof {
            reveal(g_params);
            assert(src.at(input.cursor as int) == input.peek_spec());
            assert(src.at(input.cursor + 1) == input.ahead(1));
        }
        let (token, pos) = input.next();
        if closes(&token, anonymous) {
            break ;
        }
        match token {
            Token::Identifier(param) => {
                if has_name(&params, param.as_str()) {
                    return Err(
                        ParseErrorType::FnDuplicatedParam(String::from_str(name), param).into_err(
                            pos,
                        ),
                    );
                }
                let param = state.get_interned_string(param.as_str());
                let ghost before = state@.stack;
                state.stack.push((param.clone(), AccessMode::ReadWrite));
                proof {
                    assert(state@.stack =~= before.push((param@, AccessMode::ReadWrite)));
                    assert(param_names(params@.push((param, pos))) =~= param_names(
                        params@,
                    ).push(param@));
                }
                params.push((param, pos));
            },
            Token::LexError(err) => {
                return Err(err.into_err(pos));
            },
            _ => {
                return Err(unclosed_params_error(name, anonymous, pos));
            },
        }
        proof {
            assert(src.at(input.cursor as int) == input.peek_spec());
        }
        let (token, pos) = input.next();
        if closes(&token, anonymous) {
            break ;
        }
        match token {
            Token::Comma => {},
            Token::LexError(err) => {
                return Err(err.into_err(pos));
            },
            _ => {
                return Err(unseparated_params_error(name, anonymous, pos));
            },
        }
    }
    Ok(params)
}

/// The names of the captured variables that are no parameters.
fn free_externals(externals: &Vec<(String, Position)>, params: &Vec<(String, Position)>) -> (r:
    Vec<String>)
    ensures
        string_views(r@) == free_names(external_views(externals@), param_names(params@)),
{
    let mut free: Vec<String> = Vec::new();
    let mut i: usize = 0;
    proof {
        assert(string_views(free@) =~= Seq::<Seq<char>>::empty());
    }
    while i < externals.len()
        invariant
            i <= externals@.len(),
            string_views(free@) == free_names(
                external_views(externals@).take(i as int),
                param_names(params@),
            ),
        decreases externals@.len() - i,
    {
        let ghost before = external_views(externals@).take(i as int);
        let ghost now = external_views(externals@).take(i + 1);
        proof {
            assert(now.drop_last() =~= before);
            assert(now.last() == (externals@[i as int].0@, externals@[i as int].1));
        }
        if !has_name(params, externals[i].0.as_str()) {
            let name = externals[i].0.clone();
            proof {
                assert(string_views(free@.push(name)) =~= string_views(free@).push(name@));
            }
            free.push(name);
        }
        i = i + 1;
    }
    proof {
        assert(external_views(externals@).take(i as int) =~= external_views(externals@));
    }
    free
}

/// Parses the body of a function, which is a block, and makes the
/// function of it. The cursor stands behind the parameters.
pub(crate) fn parse_fn_body<P: SyntaxParser>(
    input: &mut TokenStream,
    state: &mut ParseState<'_, P>,
    lib: &mut FunctionsLib,
    settings: ParseSettings,
    access: FnAccess,
    comments: Vec<String>,
    name: String,
    params: Vec<(String, Position)>,
) -> (r: Result<ScriptFnDef, ParseError>)
    requires
        ready(*old(input), *old(state), *old(lib), settings, 14),
    ensures
        kept(*old(input), *final(input), *old(state), *final(state), *final(lib)),
        r is Ok ==> final(input).cursor > old(input).cursor,
        r matches Ok(def) ==> def.access == access && def.comments == comments && def.name == name
            && def@.params == param_names(params@) && def.body is Block,
        yields(
            fn_def_result(r),
            *final(input),
            *final(state),
            *final(lib),
            g_fn_body(
                old(state).engine,
                source_of(*old(input)),
                config_of(*old(input), *old(state), *old(lib)),
                settings,
                access,
                string_views(comments@),
                name@,
                param_names(params@),
            ),
        ),
    decreases old(input).remaining(), 14nat,
{
    proof {
        reveal(g_fn_body);
        reveal(g_block);
        assert(source_of(*input).at(input.cursor as int) == input.peek_spec());
    }
    let mut s = settings;
    let pos = input.peek().1;
    let has_body = match &input.peek().0 {
        Token::LeftBrace => true,
        _ => false,
    };
    if !has_body {
        return Err(ParseErrorType::FnMissingBody(name).into_err(pos));
    }
    s.is_breakable = false;
    let body = parse_block(input, state, lib, s.level_up())?;
    let externals = if state.engine.closures {
        free_externals(&state.externals, &params)
    } else {
        Vec::new()
    };
    proof {
        assert(string_views(Seq::<String>::empty()) =~= Seq::<Seq<char>>::empty());
    }
    let params = names_of_params(params);
    Ok(ScriptFnDef { name, access, params, externals, body, comments })
}

/// Parses the definition of a function from its name on: the name, the
/// parameters in parentheses, and the body, which is a block. The
/// parameters are in scope in the body.
pub fn parse_fn<P: SyntaxParser>(
    input: &mut TokenStream,
    state: &mut ParseState<'_, P>,
    lib: &mut FunctionsLib,
    access: FnAccess,
    settings: ParseSettings,
    comments: Vec<String>,
) -> (r: Result<ScriptFnDef, ParseError>)
    requires
        ready(*old(input), *old(state), *old(lib), settings, 2),
    ensures
        kept(*old(input), *final(input), *old(state), *final(state), *final(lib)),
        r is Ok ==> final(input).cursor > old(input).cursor,
        r is Ok ==> settings.within(old(state).max_expr_depth),
        r matches Ok(def) ==> def.access == access && def.comments == comments
            && old(input).peek_spec().0.function_name_spec() == Some(def.name@)
            && distinct_names(def@.params)
            && def.body is Block,
        !settings.within(old(state).max_expr_depth) ==> (r matches Err(e) && e@ == too_deep(
            settings.pos,
        )),
        settings.within(old(state).max_expr_depth)
            && old(input).peek_spec().0.function_name_spec() is None
            ==> (r matches Err(e) && e@ == fn_name_error(
            old(input).peek_spec().0,
            old(input).peek_spec().1,
        )),
        settings.within(old(state).max_expr_depth)
            ==> (old(input).peek_spec().0.function_name_spec() matches Some(name)
            ==> !(old(input).ahead(1).0
            is LeftParen) ==> (r matches Err(e) && e@ == err_at(
            ParseErrorTypeV::FnMissingParams(name),
            old(input).ahead(1).1,
        ))),
        yields(
            fn_def_result(r),
            *final(input),
            *final(state),
            *final(lib),
            g_fn(
                old(state).engine,
                source_of(*old(input)),
                config_of(*old(input), *old(state), *old(lib)),
                settings,
                access,
                string_views(comments@),
            ),
        ),
    decreases old(input).remaining(), 2nat,
{
    proof {
        reveal(g_fn);
        reveal(g_fn_body);
        assert(source_of(*input).at(input.cursor as int) == input.peek_spec());
        assert(source_of(*input).at(input.cursor + 1) == input.ahead(1));
    }
    let mut s = settings;
    s.ensure_level_within_max_limit(state.max_expr_depth)?;
    let (token, pos) = input.next();
    let name = match token.into_function_name_for_override() {
        Ok(name) => name,
        Err(t) => {
            match t {
                Token::Reserved(word) => {
                    return Err(ParseErrorType::Reserved(word).into_err(pos));
                },
                _ => {
                    return Err(ParseErrorType::FnMissingName.into_err(pos));
                },
            }
        },
    };
    let pos = input.peek().1;
    let open = match &input.peek().0 {
        Token::LeftParen => true,
        _ => false,
    };
    if !open {
        return Err(ParseErrorType::FnMissingParams(name).into_err(pos));
    }
    eat_token(input, Token::LeftParen);
    let params = parse_params(input, state, &*lib, name.as_str(), false)?;
    parse_fn_body(input, state, lib, s, access, comments, name, params)
}

/// The captured variables as identifiers, and their names.
fn captures(externals: &Vec<(String, Position)>) -> (r: (Vec<Ident>, Vec<String>))
    ensures
        ident_views(r.0@) == captured_idents(external_views(externals@), true),
        string_views(r.1@) == ident_names(ident_views(r.0@)),
{
    let mut idents: Vec<Ident> = Vec::new();
    let mut names: Vec<String> = Vec::new();
    let mut i: usize = 0;
    while i < externals.len()
        invariant
            i <= externals@.len(),
            idents@.len() == i,
            names@.len() == i,
            forall|j: int|
                0 <= j < i ==> idents@[j]@ == (IdentV {
                    name: externals@[j].0@,
                    pos: externals@[j].1,
                }),
            forall|j: int| 0 <= j < i ==> names@[j]@ == externals@[j].0@,
        decreases externals@.len() - i,
    {
        idents.push(Ident { name: externals[i].0.clone(), pos: externals[i].1 });
        names.push(externals[i].0.clone());
        i = i + 1;
    }
    proof {
        assert(ident_views(idents@) =~= captured_idents(external_views(externals@), true));
        assert(string_views(names@) =~= ident_names(ident_views(idents@)));
    }
    (idents, names)
}

/// Parses an anonymous function: the parameters between bars, then the
/// body, which is one statement. The function is named after the
/// fingerprint of the script and the position of its first bar. Returns
/// the expression that stands where the function is written, and the
/// function, whose first parameters are the variables that it captures.
/// The cursor stands on the first bar.
pub fn parse_anon_fn<P: SyntaxParser>(
    input: &mut TokenStream,
    state: &mut ParseState<'_, P>,
    lib: &mut FunctionsLib,
    settings: ParseSettings,
) -> (r: Result<(Expr, ScriptFnDef), ParseError>)
    requires
        ready(*old(input), *old(state), *old(lib), settings, 2),
        old(input).peek_spec().0 is Pipe || old(input).peek_spec().0 is Or,
    ensures
        kept(*old(input), *final(input), *old(state), *final(state), *final(lib)),
        r is Ok ==> final(input).cursor > old(input).cursor,
        r is Ok ==> settings.within(old(state).max_expr_depth),
        r matches Ok(pair) ==> pair.1.name@ == anon_fn_name(old(state).script_hash, settings.pos),
        r matches Ok(pair) ==> pair.1.access == FnAccess::Public,
        r matches Ok(pair) ==> pair.0@ == curry_expr(
            ExprV::FnPointer(anon_fn_name(old(state).script_hash, settings.pos), settings.pos),
            captured_idents(final(state)@.externals, old(state).engine.closures),
            settings.pos,
            old(state).engine.closures,
        ),
        !settings.within(old(state).max_expr_depth) ==> (r matches Err(e) && e@ == too_deep(
            settings.pos,
        )),
        yields(
            anon_fn_result(r),
            *final(input),
            *final(state),
            *final(lib),
            g_anon_fn(
                old(state).engine,
                source_of(*old(input)),
                config_of(*old(input), *old(state), *old(lib)),
                settings,
            ),
        ),
    decreases old(input).remaining(), 2nat,
{
    proof {
        reveal(g_anon_fn);
        reveal(g_stmt);
        reveal_strlit("");
        assert(""@ =~= Seq::<char>::empty());
        assert(param_names(Seq::<(String, Position)>::empty()) =~= Seq::<Seq<char>>::empty());
        assert(source_of(*input).at(input.cursor as int) == input.peek_spec());
    }
    let mut s = settings;
    s.ensure_level_within_max_limit(state.max_expr_depth)?;
    let no_params = match input.next().0 {
        Token::Or => true,
        _ => false,
    };
    let params = if no_params {
        Vec::new()
    } else {
        parse_params(input, state, &*lib, "", true)?
    };
    s.is_breakable = false;
    let body = parse_stmt(input, state, lib, s.level_up())?;
    let closures = state.engine.closures;
    let (externals, mut all_params) = if closures {
        captures(&state.externals)
    } else {
        (Vec::new(), Vec::new())
    };
    let mut own = names_of_params(params);
    let ghost first = string_views(all_params@);
    let ghost rest = string_views(own@);
    all_params.append(&mut own);
    proof {
        assert(ident_views(Seq::<Ident>::empty()) =~= Seq::<IdentV>::empty());
        assert(string_views(Seq::<String>::empty()) =~= Seq::<Seq<char>>::empty());
        assert(ident_names(Seq::<IdentV>::empty()) =~= Seq::<Seq<char>>::empty());
        assert(string_views(all_params@) =~= first + rest);
        assert(string_views(Seq::<String>::empty()) =~= Seq::<Seq<char>>::empty());
    }
    let fn_name = make_anon_fn_name(state.script_hash, s.pos);
    let script = ScriptFnDef {
        name: fn_name.clone(),
        access: FnAccess::Public,
        params: all_params,
        externals: Vec::new(),
        body,
        comments: Vec::new(),
    };
    let expr = Expr::FnPointer(fn_name, s.pos);
    let expr = make_curry_from_externals(expr, externals, s.pos, closures);
    Ok((expr, script))
}

/// The doc-comments, whichever way the function ended.
pub open spec fn comments_result(r: Result<Vec<String>, ParseError>) -> Result<
    Seq<Seq<char>>,
    ParseErrorV,
> {
    match r {
        Ok(comments) => Ok(string_views(comments@)),
        Err(e) => Err(e@),
    }
}

/// Consumes the doc-comments in front of a function definition and returns
/// them. Doc-comments may stand at global level only, and only in front of
/// a function definition.
pub(crate) fn parse_doc_comments(input: &mut TokenStream, is_global: bool) -> (r: Result<
    Vec<String>,
    ParseError,
>)
    requires
        old(input).wf(),
    ensures
        final(input).follows(old(input)),
        !(old(input).peek_spec().0 is Comment) ==> r is Ok && *final(input) == *old(input),
        old(input).peek_spec().0 is Comment && !is_global ==> (r matches Err(e) && e@ == err_at(
            ParseErrorTypeV::WrongDocComment,
            old(input).peek_spec().1,
        )),
        r is Ok && old(input).peek_spec().0 is Comment ==> is_global
            && final(input).cursor > old(input).cursor
            && (final(input).peek_spec().0 is Fn || final(input).peek_spec().0 is Private),
        comments_result(r) == g_doc_comments(
            source_of(*old(input)),
            old(input).cursor as int,
            is_global,
            Position::none(),
            Seq::empty(),
        ).0,
        r is Ok ==> final(input).cursor == g_doc_comments(
            source_of(*old(input)),
            old(input).cursor as int,
            is_global,
            Position::none(),
            Seq::empty(),
        ).1,
{
    let ghost src = source_of(*old(input));
    let ghost goal = g_doc_comments(
        src,
        old(input).cursor as int,
        is_global,
        Position::none(),
        Seq::empty(),
    );
    let mut comments: Vec<String> = Vec::new();
    let mut comments_pos = Position::no_position();
    proof {
        assert(string_views(comments@) =~= Seq::<Seq<char>>::empty());
    }
    loop
        invariant_except_break
            comments@.len() > 0 ==> input.peek_spec().0 is Comment,
            g_doc_comments(
                src,
                input.cursor as int,
                is_global,
                comments_pos,
                string_views(comments@),
            ) == goal,
        invariant
            src == source_of(*old(input)),
            goal == g_doc_comments(
                src,
                old(input).cursor as int,
                is_global,
                Position::none(),
                Seq::empty(),
            ),
            input.follows(old(input)),
            comments@.len() == 0 ==> *input == *old(input) && comments_pos == Position::none(),
            comments@.len() > 0 ==> is_global && input.cursor > old(input).cursor
                && old(input).peek_spec().0 is Comment,
        ensures
            input.follows(old(input)),
            comments@.len() == 0 ==> *input == *old(input) && !(old(input).peek_spec().0
                is Comment),
            comments@.len() > 0 ==> is_global && input.cursor > old(input).cursor && (
            input.peek_spec().0 is Fn || input.peek_spec().0 is Private)
                && old(input).peek_spec().0 is Comment,
            goal == (
                Ok::<Seq<Seq<char>>, ParseErrorV>(string_views(comments@)),
                input.cursor as int,
            ),
        decreases input.remaining(),
    {
        proof {
            reveal(g_doc_comments);
            assert(src.at(input.cursor as int) == input.peek_spec());
            assert(src.at(input.cursor + 1) == input.ahead(1));
        }
        let pos = input.peek().1;
        let is_comment = match &input.peek().0 {
            Token::Comment(_) => true,
            _ => false,
        };
        if !is_comment {
            break ;
        }
        if comments_pos.is_none() {
            comments_pos = pos;
        }
        if !is_global {
            return Err(ParseErrorType::WrongDocComment.into_err(comments_pos));
        }
        match input.next().0 {
            Token::Comment(comment) => {
                proof {
                    assert(string_views(comments@.push(comment)) =~= string_views(
                        comments@,
                    ).push(comment@));
                }
                comments.push(comment);
            },
            _ => {
                vstd::pervasive::unreached::<()>();
            },
        }
        proof {
            assert(src.at(input.cursor as int) == input.peek_spec());
        }
        let next: u8 = match &input.peek().0 {
            Token::Fn | Token::Private => 0,
            Token::Comment(_) => 1,
            _ => 2,
        };
        if next == 0 {
            break ;
        } else if next == 2 {
            return Err(ParseErrorType::WrongDocComment.into_err(comments_pos));
        }
    }
    Ok(comments)
}

/// Parses `fn ...` or `private fn ...` and keeps the function in the
/// library. The function is parsed in a scope of its own.
pub(crate) fn parse_fn_definition<P: SyntaxParser>(
    input: &mut TokenStream,
    state: &ParseState<'_, P>,
    lib: &mut FunctionsLib,
    comments: Vec<String>,
) -> (r: Result<Stmt, ParseError>)
    requires
        old(input).wf(),
        state.wf(),
        lib_wf(old(lib)@),
        function_settings(Position::none()).fits(old(input), 3),
        old(input).peek_spec().0 is Fn || old(input).peek_spec().0 is Private,
    ensures
        final(input).follows(old(input)),
        lib_wf(final(lib)@),
        r is Ok ==> final(input).cursor > old(input).cursor,
        r matches Ok(st) ==> st is Noop,
        yields(
            stmt_result(r),
            *final(input),
            *state,
            *final(lib),
            g_fn_definition(
                state.engine,
                source_of(*old(input)),
                config_of(*old(input), *state, *old(lib)),
                string_views(comments@),
            ),
        ),
    decreases old(input).remaining(), 3nat,
{
    proof {
        reveal(g_fn_definition);
        reveal(g_fn);
        assert(source_of(*input).at(input.cursor as int) == input.peek_spec());
        assert(source_of(*input).at(input.cursor + 1) == input.ahead(1));
    }
    let private = match &input.peek().0 {
        Token::Private => true,
        _ => false,
    };
    let access = if private {
        eat_token(input, Token::Private);
        FnAccess::Private
    } else {
        FnAccess::Public
    };
    match input.next() {
        (Token::Fn, pos) => {
            let mut new_state = ParseState::new(
                state.engine,
                state.script_hash,
                state.max_function_expr_depth,
                state.max_function_expr_depth,
            );
            let fn_settings = make_function_settings(pos);
            let func = parse_fn(input, &mut new_state, lib, access, fn_settings, comments)?;
            keep_function(lib, func);
            Ok(Stmt::Noop(pos))
        },
        (_, pos) => Err(missing("fn", "following 'private'", pos)),
    }
}

} // verus!
