//! What the productions of the grammar share: the library of functions, the
//! conditions under which productions run and what they leave behind, and
//! the small steps that several of them take.

use vstd::prelude::*;
use crate::ast::{
    BinaryExpr, Expr, ExprV, FnCallExpr, Ident, IdentV, NamespaceRef, NamespaceRefV, ScriptFnDef,
    ScriptFnDefV, Stmt, StmtV, case_views, expr_view, expr_views, ident_names, ident_views,
    lemma_case_views, lemma_expr_views, lemma_pair_views, lemma_stmt_views, pair_views, stmt_views,
    string_views,
};
use crate::dynamic::{AccessMode, DynamicV};
use crate::engine::{Engine, SyntaxParser};
use crate::error::{ParseError, ParseErrorType, ParseErrorV, missing_token};
use crate::grammar::{
    Config, Lead, Parsed, Start, assignment_fault, barriers, fn_call_expr, function_settings,
    global_settings, lead_of, lib_keep, lib_put, lib_view, moved, postfix_applies, resolved,
    start_of, statement_expr_fault, variable_name, with_cached_hash, with_root_hash,
    with_scope_delta,
};
use crate::hashing::{calc_script_fn_hash, value_hash};
use crate::lookup::{lemma_first_index, lemma_no_index};
use crate::position::Position;
use crate::state::{ParseSettings, ParseState, ParseStateV, prefix_of};
use crate::strings::str_eq;
use crate::token::{LexError, Token, TokenStream, is_valid_identifier};

verus! {

/// The functions that a script defines, each under the hash of its name and
/// number of parameters, in the order in which they were first defined.
pub type FunctionsLib = Vec<(u64, ScriptFnDef)>;

/// The hashes under which the functions are kept.
pub open spec fn lib_keys(lib: Seq<(u64, ScriptFnDef)>) -> Seq<u64> {
    Seq::new(lib.len(), |i: int| lib[i].0)
}

/// No two functions are kept under one hash.
pub open spec fn lib_wf(lib: Seq<(u64, ScriptFnDef)>) -> bool {
    forall|i: int, j: int| 0 <= i < j < lib.len() ==> lib[i].0 != lib[j].0
}

/// Keeps a function under a hash. A function that was kept under that hash
/// before is replaced, in its place.
pub fn lib_insert(lib: &mut FunctionsLib, hash: u64, func: ScriptFnDef)
    requires
        lib_wf(old(lib)@),
    ensures
        lib_wf(final(lib)@),
        match lib_keys(old(lib)@).index_of_first(hash) {
            Some(i) => final(lib)@ == old(lib)@.update(i, (hash, func)),
            None => final(lib)@ == old(lib)@.push((hash, func)),
        },
        lib_view(final(lib)@) == lib_put(lib_view(old(lib)@), hash, func@),
{
    proof {
        assert(Seq::new(lib_view(lib@).len(), |i: int| lib_view(lib@)[i].0) =~= lib_keys(lib@));
    }
    let mut i: usize = 0;
    while i < lib.len()
        invariant
            i <= lib@.len(),
            *lib == *old(lib),
            lib_wf(lib@),
            forall|j: int| 0 <= j < i ==> lib_keys(lib@)[j] != hash,
        decreases lib@.len() - i,
    {
        if lib[i].0 == hash {
            proof {
                lemma_first_index(lib_keys(lib@), hash, i as int);
                assert(Seq::new(lib_view(lib@).len(), |i: int| lib_view(lib@)[i].0) =~= lib_keys(
                    lib@,
                ));
            }
            lib.set(i, (hash, func));
            proof {
                assert(lib_view(lib@) =~= lib_view(old(lib)@).update(i as int, (hash, func@)));
            }
            return ;
        }
        i = i + 1;
    }
    proof {
        lemma_no_index(lib_keys(lib@), hash);
        assert forall|a: int| 0 <= a < lib@.len() implies lib@[a].0 != hash by {
            assert(lib_keys(lib@)[a] != hash);
        }
    }
    lib.push((hash, func));
    proof {
        assert(lib_view(lib@) =~= lib_view(old(lib)@).push((hash, func@)));
    }
}

/// Where a parse has got to.
pub open spec fn config_of<'e, P: SyntaxParser>(
    input: TokenStream,
    state: ParseState<'e, P>,
    lib: FunctionsLib,
) -> Config {
    Config { cursor: input.cursor as int, state: state@, lib: lib_view(lib@) }
}

/// The outcome of a production is the one that the grammar gives: the
/// same tree or the same error and, after a tree, the same place in the
/// tokens, the same state and the same library.
pub open spec fn yields<'e, P: SyntaxParser, T>(
    result: Result<T, ParseErrorV>,
    input: TokenStream,
    state: ParseState<'e, P>,
    lib: FunctionsLib,
    p: Parsed<T>,
) -> bool {
    &&& result == p.result
    &&& result is Ok ==> config_of(input, state, lib) == p.after
}

/// The result as a value, whichever way the function ended.
pub open spec fn fn_def_result(r: Result<ScriptFnDef, ParseError>) -> Result<
    ScriptFnDefV,
    ParseErrorV,
> {
    match r {
        Ok(def) => Ok(def@),
        Err(e) => Err(e@),
    }
}

/// The result as a value, whichever way the function ended.
pub open spec fn anon_fn_result(r: Result<(Expr, ScriptFnDef), ParseError>) -> Result<
    (ExprV, ScriptFnDefV),
    ParseErrorV,
> {
    match r {
        Ok(pair) => Ok((pair.0@, pair.1@)),
        Err(e) => Err(e@),
    }
}

/// What every production needs: a sound stream, state and library, and
/// room for the nesting level to grow.
pub open spec fn ready<'e, P: SyntaxParser>(
    input: TokenStream,
    state: ParseState<'e, P>,
    lib: FunctionsLib,
    settings: ParseSettings,
    rank: nat,
) -> bool {
    &&& input.wf()
    &&& state.wf()
    &&& lib_wf(lib@)
    &&& settings.fits(&input, rank)
}

/// What every production leaves behind, however it ends: the same tokens
/// with the cursor no further back, a sound state in which strings,
/// captured variables and modules have at most been added, and a sound
/// library.
pub open spec fn kept<'e, P: SyntaxParser>(
    input0: TokenStream,
    input: TokenStream,
    state0: ParseState<'e, P>,
    state: ParseState<'e, P>,
    lib: FunctionsLib,
) -> bool {
    &&& input.follows(&input0)
    &&& state.extends(&state0)
    &&& prefix_of(state0@.modules, state@.modules)
    &&& lib_wf(lib@)
}

/// What every production leaves behind when it succeeds: the block
/// baseline as it was and, unless a custom syntax may have moved it, the
/// scope stack with at most new variables on top.
pub open spec fn settled<'e, P: SyntaxParser>(
    state0: ParseState<'e, P>,
    state: ParseState<'e, P>,
) -> bool {
    &&& state.entry_stack_len == state0.entry_stack_len
    &&& (state.engine.custom_syntax@.len() == 0 ==> prefix_of(state0@.stack, state@.stack))
}

/// A production that succeeds has consumed at least one token.
pub open spec fn done<'e, P: SyntaxParser>(
    input0: TokenStream,
    input: TokenStream,
    state0: ParseState<'e, P>,
    state: ParseState<'e, P>,
) -> bool {
    &&& input.cursor > input0.cursor
    &&& settled(state0, state)
}

/// Consumes the token under the cursor, which must be the given one, and
/// returns its position.
pub fn eat_token(input: &mut TokenStream, token: Token) -> (r: Position)
    requires
        old(input).wf(),
        old(input).peek_spec().0.same_spec(&token),
    ensures
        r == old(input).peek_spec().1,
        final(input).follows(old(input)),
        final(input).cursor == if old(input).cursor < old(input).tokens@.len() {
            old(input).cursor + 1
        } else {
            old(input).cursor as int
        },
{
    let (_, pos) = input.next();
    pos
}

/// Consumes the token under the cursor if it is the given one. Returns
/// whether it was, and its position either way.
pub fn match_token(input: &mut TokenStream, token: Token) -> (r: (bool, Position))
    requires
        old(input).wf(),
    ensures
        r.0 == old(input).peek_spec().0.same_spec(&token),
        r.1 == old(input).peek_spec().1,
        final(input).follows(old(input)),
        final(input).cursor == if r.0 && old(input).cursor < old(input).tokens@.len() {
            old(input).cursor + 1
        } else {
            old(input).cursor as int
        },
{
    let matched = input.peek().0.same(&token);
    let pos = input.peek().1;
    if matched {
        let p = eat_token(input, token);
        (true, p)
    } else {
        (false, pos)
    }
}

/// The error for a block or the end of the input where an expression of
/// the named kind must stand, if one of the two is next.
pub open spec fn statement_expr_error(input: TokenStream, kind: Seq<char>) -> Option<
    ParseErrorV,
> {
    statement_expr_fault(input.peek_spec(), kind)
}

/// Makes sure that no block stands where an expression of the named kind
/// must stand.
pub fn ensure_not_statement_expr(input: &TokenStream, kind: &str) -> (r: Result<
    (),
    ParseError,
>)
    requires
        input.wf(),
    ensures
        match r {
            Ok(()) => statement_expr_error(*input, kind@) is None,
            Err(e) => statement_expr_error(*input, kind@) == Some(e@),
        },
{
    let pos = input.peek().1;
    match &input.peek().0 {
        Token::LeftBrace | Token::EOF => Err(
            ParseErrorType::ExprExpected(String::from_str(kind)).into_err(pos),
        ),
        _ => Ok(()),
    }
}

/// The error for an assignment where a condition must stand, if an
/// assignment operator is next.
pub open spec fn assignment_error(input: TokenStream) -> Option<ParseErrorV> {
    assignment_fault(input.peek_spec())
}

/// Makes sure that a condition is not followed by an assignment operator,
/// as in `a = b` written for `a == b`.
pub fn ensure_not_assignment(input: &TokenStream) -> (r: Result<(), ParseError>)
    requires
        input.wf(),
    ensures
        match r {
            Ok(()) => assignment_error(*input) is None,
            Err(e) => assignment_error(*input) == Some(e@),
        },
{
    let pos = input.peek().1;
    let token = &input.peek().0;
    match token {
        Token::Equals => Err(
            LexError::ImproperSymbol(
                String::from_str("="),
                String::from_str("Possibly a typo of '=='?"),
            ).into_err(pos),
        ),
        _ => {
            if token.is_assignment() {
                Err(
                    LexError::ImproperSymbol(
                        token.syntax(),
                        String::from_str("Expecting a boolean expression, not an assignment"),
                    ).into_err(pos),
                )
            } else {
                Ok(())
            }
        },
    }
}

/// Adjusts the scope stack for a custom syntax that changes the number of
/// variables in scope by `delta`.
pub fn apply_scope_delta<P: SyntaxParser>(state: &mut ParseState<'_, P>, delta: isize)
    requires
        old(state).wf(),
    ensures
        final(state).wf(),
        final(state).extends(old(state)),
        final(state).modules == old(state).modules,
        final(state)@ == (ParseStateV {
            stack: with_scope_delta(old(state)@.stack, delta as int),
            ..old(state)@
        }),
{
    if delta > 0 {
        let mut i: isize = 0;
        assert(state@.stack =~= old(state)@.stack + barriers(0));
        while i < delta
            invariant
                0 <= i <= delta,
                state.wf(),
                state.extends(old(state)),
                state.modules == old(state).modules,
                state@ == (ParseStateV {
                    stack: old(state)@.stack + barriers(i as nat),
                    ..old(state)@
                }),
            decreases delta - i,
        {
            let ghost before = state@.stack;
            state.stack.push((String::new(), AccessMode::ReadWrite));
            assert(state@.stack =~= before.push((Seq::<char>::empty(), AccessMode::ReadWrite)));
            assert(before.push((Seq::<char>::empty(), AccessMode::ReadWrite)) =~= old(state)@.stack
                + barriers((i + 1) as nat));
            i = i + 1;
        }
    } else if delta < 0 {
        let len = state.stack.len();
        let drop: usize = if delta == isize::MIN {
            (isize::MAX as usize) + 1
        } else {
            (-delta) as usize
        };
        if len <= drop {
            state.stack.clear();
            assert(state@.stack =~= Seq::empty());
        } else {
            state.stack.truncate(len - drop);
            assert(state@.stack =~= old(state)@.stack.take(len + delta));
        }
    }
}

/// Consumes a token that must be the name of a variable.
pub fn next_variable_name(input: &mut TokenStream, pass_lex: bool) -> (r: Result<
    (String, Position),
    ParseError,
>)
    requires
        old(input).wf(),
    ensures
        final(input).follows(old(input)),
        final(input).cursor == if old(input).cursor < old(input).tokens@.len() {
            old(input).cursor + 1
        } else {
            old(input).cursor as int
        },
        match r {
            Ok(name) => variable_name(old(input).peek_spec().0, old(input).peek_spec().1, pass_lex)
                == Ok::<Seq<char>, ParseErrorV>(name.0@) && name.1 == old(input).peek_spec().1,
            Err(e) => variable_name(old(input).peek_spec().0, old(input).peek_spec().1, pass_lex)
                == Err::<Seq<char>, ParseErrorV>(e@),
        },
        r is Ok ==> final(input).cursor > old(input).cursor,
{
    match input.next() {
        (Token::Identifier(s), pos) => Ok((s, pos)),
        (Token::Reserved(s), pos) => {
            if is_valid_identifier(s.as_str()) {
                Err(ParseErrorType::Reserved(s).into_err(pos))
            } else {
                Err(ParseErrorType::VariableExpected.into_err(pos))
            }
        },
        (Token::LexError(err), pos) => {
            if pass_lex {
                Err(err.into_err(pos))
            } else {
                Err(ParseErrorType::VariableExpected.into_err(pos))
            }
        },
        (_, pos) => Err(ParseErrorType::VariableExpected.into_err(pos)),
    }
}

/// The value of an optional chain of modules.
pub open spec fn opt_ns_view(ns: Option<NamespaceRef>) -> Option<NamespaceRefV> {
    match ns {
        Some(n) => Some(n@),
        None => None,
    }
}

pub(crate) fn resolve_namespace<P: SyntaxParser>(state: &ParseState<'_, P>, ns: NamespaceRef) -> (r:
    NamespaceRef)
    ensures
        r@ == resolved(ns@, state@.modules),
{
    if ns.path.len() > 0 {
        let index = state.find_module(ns.path[0].name.as_str());
        NamespaceRef { index, path: ns.path }
    } else {
        ns
    }
}

pub(crate) fn finish_fn_call<P: SyntaxParser>(
    state: &ParseState<'_, P>,
    id: String,
    capture: bool,
    namespace: Option<NamespaceRef>,
    args: Vec<Expr>,
    pos: Position,
) -> (r: Expr)
    ensures
        r@ == fn_call_expr(
            id@,
            capture,
            opt_ns_view(namespace),
            state@.modules,
            expr_views(args@),
            pos,
        ),
{
    let no_modules: Vec<Ident> = Vec::new();
    proof {
        assert(ident_names(ident_views(no_modules@)) =~= Seq::<Seq<char>>::empty());
        lemma_expr_views(args@);
    }
    let valid = is_valid_identifier(id.as_str());
    let (namespace, hash_script) = match namespace {
        Some(ns) => {
            let hash = if valid {
                Some(calc_script_fn_hash(&ns.path, id.as_str(), args.len()))
            } else {
                None
            };
            (Some(resolve_namespace(state, ns)), hash)
        },
        None => {
            let hash = if valid {
                Some(calc_script_fn_hash(&no_modules, id.as_str(), args.len()))
            } else {
                None
            };
            (None, hash)
        },
    };
    Expr::FnCall(
        Box::new(FnCallExpr { name: id, namespace, capture, hash_script, def_value: None, args }),
        pos,
    )
}

/// A variable that no module qualifies and that was found at parse time
/// stands on the scope stack where its index says, under its own name.
pub open spec fn variable_resolves(e: ExprV, stack: Seq<(Seq<char>, AccessMode)>) -> bool {
    e matches ExprV::Variable(Some(k), None, id) ==> 1 <= k <= stack.len() && stack[stack.len()
        - k].0 == id.name
}

pub(crate) fn cache_hash<P: SyntaxParser>(state: &ParseState<'_, P>, e: Expr) -> (r: Expr)
    ensures
        r@ == with_cached_hash(e@, state@.modules),
{
    match e {
        Expr::Variable(x) => {
            let (index, qualifier, ident) = *x;
            match qualifier {
                Some((_, ns)) => {
                    let hash = calc_script_fn_hash(&ns.path, ident.name.as_str(), 0);
                    let ns = resolve_namespace(state, ns);
                    Expr::Variable(Box::new((index, Some((hash, ns)), ident)))
                },
                None => Expr::Variable(Box::new((index, None, ident))),
            }
        },
        e => e,
    }
}

pub(crate) fn cache_root_hash<P: SyntaxParser>(state: &ParseState<'_, P>, e: Expr) -> (r: Expr)
    ensures
        r@ == with_root_hash(e@, state@.modules),
{
    proof {
        reveal_with_fuel(expr_view, 2);
    }
    match e {
        Expr::Index(x, p) => {
            let BinaryExpr { lhs, rhs } = *x;
            let lhs = cache_hash(state, lhs);
            Expr::Index(Box::new(BinaryExpr { lhs, rhs }), p)
        },
        Expr::Dot(x, p) => {
            let BinaryExpr { lhs, rhs } = *x;
            let lhs = cache_hash(state, lhs);
            Expr::Dot(Box::new(BinaryExpr { lhs, rhs }), p)
        },
        e => cache_hash(state, e),
    }
}

/// No two cases of a switch have the same key.
pub open spec fn distinct_cases(table: Seq<(u64, StmtV)>) -> bool {
    forall|i: int, j: int| 0 <= i < j < table.len() ==> table[i].0 != table[j].0
}

/// Every key of a switch is the hash of a value.
pub open spec fn hashed_cases(table: Seq<(u64, StmtV)>) -> bool {
    forall|i: int| 0 <= i < table.len()
        ==> exists|v: DynamicV| #[trigger] table[i].0 == value_hash(v)
}

/// No two properties of an object-map literal have the same name.
pub open spec fn distinct_properties(items: Seq<(IdentV, ExprV)>) -> bool {
    forall|i: int, j: int| 0 <= i < j < items.len() ==> items[i].0.name != items[j].0.name
}

/// Is the literal within the limit on its size? A limit of 0 is no limit.
pub open spec fn size_within(len: nat, limit: usize) -> bool {
    limit == 0 || len <= limit
}

pub(crate) fn has_property(map: &Vec<(Ident, Expr)>, name: &str) -> (r: bool)
    ensures
        r == exists|i: int| 0 <= i < map@.len() && #[trigger] map@[i].0.name@ == name@,
        r == crate::grammar::has_property(pair_views(map@), name@),
{
    let mut i: usize = 0;
    while i < map.len()
        invariant
            i <= map@.len(),
            forall|j: int| 0 <= j < i ==> #[trigger] map@[j].0.name@ != name@,
        decreases map@.len() - i,
    {
        if str_eq(map[i].0.name.as_str(), name) {
            proof {
                lemma_pair_views(map@);
                assert(pair_views(map@)[i as int].0.name == name@);
            }
            return true;
        }
        i = i + 1;
    }
    proof {
        lemma_pair_views(map@);
        if crate::grammar::has_property(pair_views(map@), name@) {
            let k = choose|k: int|
                0 <= k < pair_views(map@).len() && #[trigger] pair_views(map@)[k].0.name == name@;
            assert(map@[k].0.name@ == name@);
        }
    }
    false
}

pub(crate) fn has_case(table: &Vec<(u64, Stmt)>, hash: u64) -> (r: bool)
    ensures
        r == exists|i: int| 0 <= i < table@.len() && #[trigger] table@[i].0 == hash,
        r == crate::grammar::has_case(case_views(table@), hash),
{
    let mut i: usize = 0;
    while i < table.len()
        invariant
            i <= table@.len(),
            forall|j: int| 0 <= j < i ==> #[trigger] table@[j].0 != hash,
        decreases table@.len() - i,
    {
        if table[i].0 == hash {
            proof {
                lemma_case_views(table@);
                assert(case_views(table@)[i as int].0 == hash);
            }
            return true;
        }
        i = i + 1;
    }
    proof {
        lemma_case_views(table@);
        if crate::grammar::has_case(case_views(table@), hash) {
            let k = choose|k: int|
                0 <= k < case_views(table@).len() && #[trigger] case_views(table@)[k].0 == hash;
            assert(table@[k].0 == hash);
        }
    }
    false
}

pub(crate) fn has_name(params: &Vec<(String, Position)>, name: &str) -> (r: bool)
    ensures
        r == exists|i: int| 0 <= i < params@.len() && #[trigger] params@[i].0@ == name@,
        r == crate::grammar::has_param(param_names(params@), name@),
{
    let mut i: usize = 0;
    while i < params.len()
        invariant
            i <= params@.len(),
            forall|j: int| 0 <= j < i ==> #[trigger] params@[j].0@ != name@,
        decreases params@.len() - i,
    {
        if str_eq(params[i].0.as_str(), name) {
            proof {
                assert(param_names(params@)[i as int] == name@);
            }
            return true;
        }
        i = i + 1;
    }
    proof {
        if crate::grammar::has_param(param_names(params@), name@) {
            let k = choose|k: int|
                0 <= k < param_names(params@).len() && #[trigger] param_names(params@)[k]
                    == name@;
            assert(params@[k].0@ == name@);
        }
    }
    false
}

pub(crate) fn missing_with(token: &str, context: String, pos: Position) -> (r: ParseError)
    ensures
        r@ == missing_token(token@, context@, pos),
{
    ParseErrorType::MissingToken(String::from_str(token), context).into_err(pos)
}

pub(crate) fn one_stmt(stmt: Stmt) -> (r: Vec<Stmt>)
    ensures
        r@ == seq![stmt],
        stmt_views(r@) == seq![stmt@],
{
    let mut v: Vec<Stmt> = Vec::new();
    v.push(stmt);
    proof {
        lemma_stmt_views(v@);
        assert(v@ =~= seq![stmt]);
        assert(stmt_views(v@) =~= seq![stmt@]);
    }
    v
}

pub(crate) fn classify<P: SyntaxParser>(
    token: &Token,
    settings: &ParseSettings,
    engine: &Engine<P>,
) -> (r: Start)
    ensures
        r == start_of(*token, *settings, engine),
{
    match token {
        Token::EOF => Start::End,
        Token::IntegerConstant(_)
        | Token::CharConstant(_)
        | Token::StringConstant(_)
        | Token::True
        | Token::False => Start::Literal,
        Token::FloatConstant(_, _) => {
            if engine.floats {
                Start::Literal
            } else {
                Start::Other
            }
        },
        Token::LeftBrace => {
            if settings.allow_stmt_expr {
                Start::Block
            } else {
                Start::Other
            }
        },
        Token::LeftParen => Start::Paren,
        Token::If => {
            if settings.allow_if_expr {
                Start::If
            } else {
                Start::Other
            }
        },
        Token::Switch => {
            if settings.allow_switch_expr {
                Start::Switch
            } else {
                Start::Other
            }
        },
        Token::Pipe | Token::Or => {
            if settings.allow_anonymous_fn && engine.anonymous_functions {
                Start::Closure
            } else {
                Start::Other
            }
        },
        Token::LeftBracket => {
            if engine.indexing {
                Start::Array
            } else {
                Start::Other
            }
        },
        Token::MapStart => {
            if engine.object_maps {
                Start::ObjectMap
            } else {
                Start::Other
            }
        },
        Token::Identifier(_) => Start::Name,
        Token::Reserved(_) => Start::Reserved,
        Token::LexError(_) => Start::Fault,
        _ => Start::Other,
    }
}

pub(crate) fn applies<P: SyntaxParser>(engine: &Engine<P>, e: &Expr, token: &Token) -> (r: bool)
    ensures
        r == postfix_applies(engine, e@, *token),
        r ==> !(*token is EOF),
{
    if !e.is_valid_postfix(token) {
        return false;
    }
    match token {
        Token::LeftBracket => engine.indexing,
        Token::Period => engine.object_maps,
        Token::DoubleColon => engine.modules,
        _ => true,
    }
}

pub(crate) fn make_function_settings(pos: Position) -> (r: ParseSettings)
    ensures
        r == function_settings(pos),
{
    ParseSettings {
        pos,
        is_global: false,
        is_function_scope: true,
        is_breakable: false,
        allow_anonymous_fn: true,
        allow_if_expr: true,
        allow_switch_expr: true,
        allow_stmt_expr: true,
        level: 0,
    }
}

pub(crate) fn keep_function(lib: &mut FunctionsLib, func: ScriptFnDef)
    requires
        lib_wf(old(lib)@),
    ensures
        lib_wf(final(lib)@),
        lib_view(final(lib)@) == lib_keep(lib_view(old(lib)@), func@),
{
    let no_modules: Vec<Ident> = Vec::new();
    proof {
        assert(ident_names(ident_views(no_modules@)) =~= Seq::<Seq<char>>::empty());
        assert(func@.params.len() == func.params@.len());
    }
    let hash = calc_script_fn_hash(&no_modules, func.name.as_str(), func.params.len());
    lib_insert(lib, hash, func);
}

/// The texts of a list of parameters.
pub open spec fn param_names(params: Seq<(String, Position)>) -> Seq<Seq<char>> {
    Seq::new(params.len(), |i: int| params[i].0@)
}

/// No two parameters have the same name.
pub open spec fn distinct_names(names: Seq<Seq<char>>) -> bool {
    forall|i: int, j: int| 0 <= i < j < names.len() ==> names[i] != names[j]
}

pub(crate) fn names_of_params(params: Vec<(String, Position)>) -> (r: Vec<String>)
    ensures
        string_views(r@) == param_names(params@),
{
    let mut names: Vec<String> = Vec::new();
    let mut i: usize = 0;
    while i < params.len()
        invariant
            i <= params@.len(),
            names@.len() == i,
            forall|j: int| 0 <= j < i ==> names@[j]@ == params@[j].0@,
        decreases params@.len() - i,
    {
        names.push(params[i].0.clone());
        i = i + 1;
    }
    proof {
        assert(string_views(names@) =~= param_names(params@));
    }
    names
}

pub(crate) fn lead(token: &Token, modules: bool) -> (r: Lead)
    ensures
        r == lead_of(*token, modules),
{
    match token {
        Token::SemiColon => Lead::Empty,
        Token::LeftBrace => Lead::Block,
        Token::Fn | Token::Private => Lead::Function,
        Token::If => Lead::If,
        Token::Switch => Lead::Switch,
        Token::While | Token::Loop => Lead::While,
        Token::Do => Lead::Do,
        Token::For => Lead::For,
        Token::Continue => Lead::Continue,
        Token::Break => Lead::Break,
        Token::Return | Token::Throw => Lead::Return,
        Token::Try => Lead::Try,
        Token::Let => Lead::Let,
        Token::Const => Lead::Const,
        Token::Import => {
            if modules {
                Lead::Import
            } else {
                Lead::Expression
            }
        },
        Token::Export => {
            if modules {
                Lead::Export
            } else {
                Lead::Expression
            }
        },
        _ => Lead::Expression,
    }
}

pub(crate) fn make_global_settings(statements: bool) -> (r: ParseSettings)
    ensures
        r == global_settings(statements),
{
    ParseSettings {
        pos: Position::no_position(),
        is_global: true,
        is_function_scope: false,
        is_breakable: false,
        allow_anonymous_fn: statements,
        allow_if_expr: statements,
        allow_switch_expr: statements,
        allow_stmt_expr: statements,
        level: 0,
    }
}

/// The functions of a library, in the order in which they were first
/// defined.
pub open spec fn lib_functions(lib: Seq<(u64, ScriptFnDef)>) -> Seq<ScriptFnDef> {
    Seq::new(lib.len(), |i: int| lib[i].1)
}

pub(crate) fn into_functions(lib: FunctionsLib) -> (r: Vec<ScriptFnDef>)
    ensures
        r@ == lib_functions(lib@),
{
    let mut lib = lib;
    let mut functions: Vec<ScriptFnDef> = Vec::new();
    let ghost all = lib@;
    while lib.len() > 0
        invariant
            functions@.len() + lib@.len() == all.len(),
            forall|i: int| 0 <= i < functions@.len() ==> functions@[i] == all[i].1,
            forall|i: int| 0 <= i < lib@.len() ==> lib@[i] == all[functions@.len() + i],
        decreases lib@.len(),
    {
        let (_, func) = lib.remove(0);
        functions.push(func);
    }
    proof {
        assert(functions@ =~= lib_functions(all));
    }
    functions
}

/// No statement of the sequence is empty.
pub open spec fn no_noop(statements: Seq<Stmt>) -> bool {
    forall|i: int| 0 <= i < statements.len() ==> !(#[trigger] statements[i] is Noop)
}

/// The number of tokens is small enough for the nesting level to be
/// counted in a machine word.
pub open spec fn countable(input: TokenStream) -> bool {
    32 * input.remaining() + 12 <= usize::MAX
}

} // verus!
