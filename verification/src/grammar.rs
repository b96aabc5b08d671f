//! The grammar of the language, as mathematical functions: what each
//! production makes of the tokens from a given place on, in a given state.

use vstd::prelude::*;
use crate::ast::{
    CustomExprV, ExprV, FnAccess, FnCallExprV, IdentV, NamespaceRefV, ReturnType, ScriptFnDef,
    ScriptFnDefV, StmtV, ident_names,
};
use crate::builder::{
    assignment_stmt, binary_expr, curry_expr, dot_expr, dot_strings, index_error, negated, notted,
    operator_precedence, plussed,
};
use crate::dynamic::AccessMode;
use crate::engine::{Engine, SyntaxParser};
use crate::error::{ParseErrorTypeV, ParseErrorV, err_at, lex_err_at, missing_token};
use crate::hashing::{anon_fn_name, script_fn_hash, value_hash};
use crate::position::Position;
use crate::state::{
    Lookup, ParseSettings, ParseStateV, captured, find_from_top, interned, lookup_var,
};
use crate::token::{
    LexErrorV, Token, TokenStream, is_keyword_function_spec, is_valid_identifier_spec,
};

verus! {

/// The tokens of a script, and the token that stands for its end.
pub ghost struct Source {
    pub tokens: Seq<(Token, Position)>,
    pub eof: (Token, Position),
}

impl Source {
    /// The token at place `c`; behind the last token, the end of the input.
    pub open spec fn at(self, c: int) -> (Token, Position) {
        if 0 <= c < self.tokens.len() {
            self.tokens[c]
        } else {
            self.eof
        }
    }

    /// How many tokens stand at place `c` and behind it.
    pub open spec fn left(self, c: int) -> nat {
        if c <= self.tokens.len() {
            (self.tokens.len() - c) as nat
        } else {
            0
        }
    }

    /// The place behind the token at `c`; at the end of the input, `c`
    /// itself.
    pub open spec fn step(self, c: int) -> int {
        if c < self.tokens.len() {
            c + 1
        } else {
            c
        }
    }
}

/// The tokens of a stream.
pub open spec fn source_of(input: TokenStream) -> Source {
    Source { tokens: input.tokens@, eof: input.eof }
}

/// The functions of a library, as values.
pub open spec fn lib_view(lib: Seq<(u64, ScriptFnDef)>) -> Seq<(u64, ScriptFnDefV)> {
    Seq::new(lib.len(), |i: int| (lib[i].0, lib[i].1@))
}

/// What a parse has got to: the place in the tokens, the state, and the
/// functions that have been defined.
pub ghost struct Config {
    pub cursor: int,
    pub state: ParseStateV,
    pub lib: Seq<(u64, ScriptFnDefV)>,
}

/// What a production makes of the tokens: a tree or an error, and where
/// the parse has got to.
pub ghost struct Parsed<T> {
    pub result: Result<T, ParseErrorV>,
    pub after: Config,
}

/// A production that succeeds.
pub open spec fn ok<T>(value: T, after: Config) -> Parsed<T> {
    Parsed { result: Ok(value), after }
}

/// A production that fails.
pub open spec fn fail<T>(error: ParseErrorV, after: Config) -> Parsed<T> {
    Parsed { result: Err(error), after }
}

/// A production that is applied where it has no meaning.
pub open spec fn halt<T>(after: Config) -> Parsed<T> {
    Parsed { result: Err(err_at(ParseErrorTypeV::UnexpectedEOF, Position::none())), after }
}

/// The configuration at another place.
pub open spec fn moved(cfg: Config, cursor: int) -> Config {
    Config { cursor, ..cfg }
}

/// The configuration in another state.
pub open spec fn in_state(cfg: Config, state: ParseStateV) -> Config {
    Config { state, ..cfg }
}

/// The outcome, with the cursor no further back than `from`.
pub open spec fn onward<T>(p: Parsed<T>, from: int) -> Parsed<T> {
    if p.after.cursor >= from {
        p
    } else {
        Parsed { result: p.result, after: moved(p.after, from) }
    }
}

/// Has the parse got on from place `c` to place `to`?
pub open spec fn progress(src: Source, c: int, to: int) -> bool {
    c < to && c < src.tokens.len()
}

/// The settings one level deeper.
pub open spec fn deeper(s: ParseSettings) -> ParseSettings {
    ParseSettings { level: (s.level + 1) as usize, ..s }
}

/// The settings at another position.
pub open spec fn at_pos(s: ParseSettings, pos: Position) -> ParseSettings {
    ParseSettings { pos, ..s }
}

/// The error for nesting beyond the limit.
pub open spec fn too_deep(pos: Position) -> ParseErrorV {
    err_at(ParseErrorTypeV::ExprTooDeep, pos)
}

/// The state after `text` has been interned.
pub open spec fn st_intern(st: ParseStateV, text: Seq<char>) -> ParseStateV {
    ParseStateV { strings: interned(st.strings, text), ..st }
}

/// The index under which a lookup finds a variable.
pub open spec fn found_index(found: Lookup) -> Option<usize> {
    match found {
        Lookup::Found(k) => Some(k as usize),
        _ => None,
    }
}

/// The state after the variable `name` has been looked up at `pos`.
pub open spec fn st_access(
    st: ParseStateV,
    closures: bool,
    name: Seq<char>,
    pos: Position,
) -> ParseStateV {
    ParseStateV {
        externals: captured(
            st.externals,
            closures && st.allow_capture,
            lookup_var(st.stack, name),
            name,
            pos,
        ),
        allow_capture: st.allow_capture || closures,
        ..st
    }
}

/// The state after each of the given variables has been looked up, one
/// after the other.
pub open spec fn st_access_all(
    st: ParseStateV,
    closures: bool,
    names: Seq<(Seq<char>, Position)>,
) -> ParseStateV
    decreases names.len(),
{
    if names.len() == 0 {
        st
    } else {
        st_access_all(
            st_access(st, closures, names[0].0, names[0].1),
            closures,
            names.drop_first(),
        )
    }
}

/// A sequence cut down to at most `n` items.
pub open spec fn truncated<A>(s: Seq<A>, n: int) -> Seq<A> {
    if 0 <= n <= s.len() {
        s.take(n)
    } else {
        s
    }
}

/// The library with a function kept under a hash, in the place of the
/// function that was kept under that hash before, if one was.
pub open spec fn lib_put(lib: Seq<(u64, ScriptFnDefV)>, hash: u64, def: ScriptFnDefV) -> Seq<
    (u64, ScriptFnDefV),
> {
    match Seq::new(lib.len(), |i: int| lib[i].0).index_of_first(hash) {
        Some(i) => lib.update(i, (hash, def)),
        None => lib.push((hash, def)),
    }
}

/// The library with a function kept under the hash of its name and number
/// of parameters.
pub open spec fn lib_keep(lib: Seq<(u64, ScriptFnDefV)>, def: ScriptFnDefV) -> Seq<
    (u64, ScriptFnDefV),
> {
    lib_put(lib, script_fn_hash(Seq::empty(), def.name, def.params.len()), def)
}

/// A fresh state for the body of a function of a script.
pub open spec fn function_state(st: ParseStateV) -> ParseStateV {
    ParseStateV {
        script_hash: st.script_hash,
        strings: Seq::empty(),
        stack: Seq::empty(),
        entry_stack_len: 0,
        externals: Seq::empty(),
        allow_capture: true,
        modules: Seq::empty(),
        max_expr_depth: st.max_function_expr_depth,
        max_function_expr_depth: st.max_function_expr_depth,
    }
}

/// The settings under which the body of a function is parsed.
pub open spec fn function_settings(pos: Position) -> ParseSettings {
    ParseSettings {
        pos,
        is_global: false,
        is_function_scope: true,
        is_breakable: false,
        allow_anonymous_fn: true,
        allow_if_expr: true,
        allow_switch_expr: true,
        allow_stmt_expr: true,
        level: 0,
    }
}

/// The name that a token gives to a variable, or why it gives none: a
/// reserved word that looks like a name is reserved, an error of the lexer
/// is passed on if `pass_lex` is set, and anything else is no name.
pub open spec fn variable_name(token: Token, pos: Position, pass_lex: bool) -> Result<
    Seq<char>,
    ParseErrorV,
> {
    match token {
        Token::Identifier(s) => Ok(s@),
        Token::Reserved(s) => if is_valid_identifier_spec(s@) {
            Err(err_at(ParseErrorTypeV::Reserved(s@), pos))
        } else {
            Err(err_at(ParseErrorTypeV::VariableExpected, pos))
        },
        Token::LexError(e) => if pass_lex {
            Err(lex_err_at(e@, pos))
        } else {
            Err(err_at(ParseErrorTypeV::VariableExpected, pos))
        },
        _ => Err(err_at(ParseErrorTypeV::VariableExpected, pos)),
    }
}

/// The names of the modules that qualify a name.
pub open spec fn namespace_names(ns: Option<NamespaceRefV>) -> Seq<Seq<char>> {
    match ns {
        Some(n) => ident_names(n.path),
        None => Seq::empty(),
    }
}

/// The chain of modules with the place of its first module on the stack
/// of imported modules looked up.
pub open spec fn resolved(ns: NamespaceRefV, modules: Seq<Seq<char>>) -> NamespaceRefV {
    if ns.path.len() > 0 {
        NamespaceRefV {
            index: match find_from_top(modules, ns.path[0].name) {
                Some(k) => Some(k as usize),
                None => None,
            },
            path: ns.path,
        }
    } else {
        ns
    }
}

/// The hash under which a call looks for a script function, if the name of
/// the function is one that a script function can have.
pub open spec fn call_hash(qualifiers: Seq<Seq<char>>, name: Seq<char>, arity: nat) -> Option<u64> {
    if is_valid_identifier_spec(name) {
        Some(script_fn_hash(qualifiers, name, arity))
    } else {
        None
    }
}

/// The call `id(args)` at `pos`, qualified by `ns`.
pub open spec fn fn_call_expr(
    id: Seq<char>,
    capture: bool,
    ns: Option<NamespaceRefV>,
    modules: Seq<Seq<char>>,
    args: Seq<ExprV>,
    pos: Position,
) -> ExprV {
    ExprV::FnCall(
        FnCallExprV {
            name: id,
            namespace: match ns {
                Some(n) => Some(resolved(n, modules)),
                None => None,
            },
            capture,
            hash_script: call_hash(namespace_names(ns), id, args.len()),
            def_value: None,
            args,
        },
        pos,
    )
}

/// The literal expression for a token at `pos`, if the token is a literal.
pub open spec fn literal_of(token: Token, pos: Position, floats: bool) -> Option<ExprV> {
    match token {
        Token::IntegerConstant(x) => Some(ExprV::IntegerConstant(x, pos)),
        Token::CharConstant(c) => Some(ExprV::CharConstant(c, pos)),
        Token::StringConstant(s) => Some(ExprV::StringConstant(s@, pos)),
        Token::True => Some(ExprV::BoolConstant(true, pos)),
        Token::False => Some(ExprV::BoolConstant(false, pos)),
        Token::FloatConstant(bits, _) => if floats {
            Some(ExprV::FloatConstant(bits, pos))
        } else {
            None
        },
        _ => None,
    }
}

/// May the token follow the expression as a postfix operator under the
/// engine's configuration?
pub open spec fn postfix_applies<P: SyntaxParser>(
    engine: &Engine<P>,
    e: ExprV,
    token: Token,
) -> bool {
    &&& e.is_valid_postfix(token)
    &&& (token is LeftBracket ==> engine.indexing)
    &&& (token is Period ==> engine.object_maps)
    &&& (token is DoubleColon ==> engine.modules)
}

/// The variable with the hash of its qualified name computed and its first
/// module looked up, if modules qualify it.
pub open spec fn with_cached_hash(e: ExprV, modules: Seq<Seq<char>>) -> ExprV {
    match e {
        ExprV::Variable(index, Some(q), id) => ExprV::Variable(
            index,
            Some((script_fn_hash(ident_names(q.1.path), id.name, 0), resolved(q.1, modules))),
            id,
        ),
        _ => e,
    }
}

/// The expression with the hash of a module-qualified variable at its root
/// or at the left of its root computed.
pub open spec fn with_root_hash(e: ExprV, modules: Seq<Seq<char>>) -> ExprV {
    match e {
        ExprV::Index(lhs, rhs, p) => ExprV::Index(
            Box::new(with_cached_hash(*lhs, modules)),
            rhs,
            p,
        ),
        ExprV::Dot(lhs, rhs, p) => ExprV::Dot(Box::new(with_cached_hash(*lhs, modules)), rhs, p),
        _ => with_cached_hash(e, modules),
    }
}

/// The way a token starts a primary expression.
#[derive(Clone, Copy, PartialEq, Eq, Structural)]
pub enum Start {
    End,
    Literal,
    Block,
    Paren,
    If,
    Switch,
    Closure,
    Array,
    ObjectMap,
    Name,
    Reserved,
    Fault,
    Other,
}

/// The way in which a token starts a primary expression under the given
/// settings and configuration.
pub open spec fn start_of<P: SyntaxParser>(
    token: Token,
    settings: ParseSettings,
    engine: &Engine<P>,
) -> Start {
    match token {
        Token::EOF => Start::End,
        Token::IntegerConstant(_)
        | Token::CharConstant(_)
        | Token::StringConstant(_)
        | Token::True
        | Token::False => Start::Literal,
        Token::FloatConstant(_, _) => if engine.floats {
            Start::Literal
        } else {
            Start::Other
        },
        Token::LeftBrace => if settings.allow_stmt_expr {
            Start::Block
        } else {
            Start::Other
        },
        Token::LeftParen => Start::Paren,
        Token::If => if settings.allow_if_expr {
            Start::If
        } else {
            Start::Other
        },
        Token::Switch => if settings.allow_switch_expr {
            Start::Switch
        } else {
            Start::Other
        },
        Token::Pipe | Token::Or => if settings.allow_anonymous_fn && engine.anonymous_functions {
            Start::Closure
        } else {
            Start::Other
        },
        Token::LeftBracket => if engine.indexing {
            Start::Array
        } else {
            Start::Other
        },
        Token::MapStart => if engine.object_maps {
            Start::ObjectMap
        } else {
            Start::Other
        },
        Token::Identifier(_) => Start::Name,
        Token::Reserved(_) => Start::Reserved,
        Token::LexError(_) => Start::Fault,
        _ => Start::Other,
    }
}

/// The way a token starts a statement.
#[derive(Clone, Copy, PartialEq, Eq, Structural)]
pub enum Lead {
    Empty,
    Block,
    Function,
    If,
    Switch,
    While,
    Do,
    For,
    Continue,
    Break,
    Return,
    Try,
    Let,
    Const,
    Import,
    Export,
    Expression,
}

/// The way in which a token starts a statement.
pub open spec fn lead_of(token: Token, modules: bool) -> Lead {
    match token {
        Token::SemiColon => Lead::Empty,
        Token::LeftBrace => Lead::Block,
        Token::Fn | Token::Private => Lead::Function,
        Token::If => Lead::If,
        Token::Switch => Lead::Switch,
        Token::While | Token::Loop => Lead::While,
        Token::Do => Lead::Do,
        Token::For => Lead::For,
        Token::Continue => Lead::Continue,
        Token::Break => Lead::Break,
        Token::Return | Token::Throw => Lead::Return,
        Token::Try => Lead::Try,
        Token::Let => Lead::Let,
        Token::Const => Lead::Const,
        Token::Import => if modules {
            Lead::Import
        } else {
            Lead::Expression
        },
        Token::Export => if modules {
            Lead::Export
        } else {
            Lead::Expression
        },
        _ => Lead::Expression,
    }
}

/// The error for a block or the end of the input where an expression of
/// the named kind must stand, if the token is one of the two.
pub open spec fn statement_expr_fault(
    t: (Token, Position),
    kind: Seq<char>,
) -> Option<ParseErrorV> {
    if t.0 is LeftBrace || t.0 is EOF {
        Some(err_at(ParseErrorTypeV::ExprExpected(kind), t.1))
    } else {
        None
    }
}

/// The error for an assignment where a condition must stand, if the token
/// is an assignment operator.
pub open spec fn assignment_fault(t: (Token, Position)) -> Option<ParseErrorV> {
    if t.0 is Equals {
        Some(lex_err_at(LexErrorV::ImproperSymbol("="@, "Possibly a typo of '=='?"@), t.1))
    } else if t.0.is_assignment_spec() {
        Some(
            lex_err_at(
                LexErrorV::ImproperSymbol(
                    t.0.syntax_spec(),
                    "Expecting a boolean expression, not an assignment"@,
                ),
                t.1,
            ),
        )
    } else {
        None
    }
}

/// The context of the error for a call whose arguments do not end.
pub open spec fn unclosed_call(id: Seq<char>) -> Seq<char> {
    "to close the arguments list of this function call '"@ + id + "'"@
}

/// The context of the error for arguments without a comma between them.
pub open spec fn unseparated_call(id: Seq<char>) -> Seq<char> {
    "to separate the arguments to function call '"@ + id + "'"@
}

/// The context of the error for a property without a colon.
pub open spec fn property_without_colon(name: Seq<char>) -> Seq<char> {
    "to follow the property '"@ + name + "' in this object map literal"@
}

/// The error for a literal that is too large.
pub open spec fn too_large(what: Seq<char>, limit: usize, pos: Position) -> ParseErrorV {
    err_at(ParseErrorTypeV::LiteralTooLarge(what, limit), pos)
}

/// Does an operator of the given precedence, grouping to the right or not,
/// end the operand of an operator of precedence `parent`?
pub open spec fn binds_to_parent(precedence: u8, bind_right: bool, parent: u8) -> bool {
    precedence < parent || (precedence == parent && !bind_right)
}

/// Is a property of that name among the properties?
pub open spec fn has_property(items: Seq<(IdentV, ExprV)>, name: Seq<char>) -> bool {
    exists|i: int| 0 <= i < items.len() && #[trigger] items[i].0.name == name
}

/// Is a case of that key among the cases?
pub open spec fn has_case(table: Seq<(u64, StmtV)>, hash: u64) -> bool {
    exists|i: int| 0 <= i < table.len() && #[trigger] table[i].0 == hash
}

/// Is a parameter of that name among the parameters?
pub open spec fn has_param(params: Seq<Seq<char>>, name: Seq<char>) -> bool {
    exists|i: int| 0 <= i < params.len() && #[trigger] params[i] == name
}

/// `( expr )`, or `()` for the unit value.
#[verifier::opaque]
pub open spec fn g_paren<P: SyntaxParser>(
    engine: &Engine<P>,
    src: Source,
    cfg: Config,
    s: ParseSettings,
) -> Parsed<ExprV>
    decreases src.left(cfg.cursor), 2nat,
{
    let c = cfg.cursor;
    if !s.within(cfg.state.max_expr_depth) {
        fail(too_deep(s.pos), cfg)
    } else if c >= src.tokens.len() {
        halt(cfg)
    } else {
        let pos = src.at(c).1;
        if src.at(c + 1).0 is RightParen {
            ok(ExprV::Unit(pos), moved(cfg, src.step(c + 1)))
        } else {
            let e = onward(g_expr(engine, src, moved(cfg, c + 1), deeper(at_pos(s, pos))), c + 1);
            match e.result {
                Err(err) => fail(err, e.after),
                Ok(v) => {
                    let t = src.at(e.after.cursor);
                    let after = moved(e.after, src.step(e.after.cursor));
                    match t.0 {
                        Token::RightParen => ok(v, after),
                        Token::LexError(le) => fail(lex_err_at(le@, t.1), after),
                        _ => fail(
                            missing_token(")"@, "for a matching ( in this expression"@, t.1),
                            after,
                        ),
                    }
                },
            }
        }
    }
}

/// The arguments of a call of `id` from the opening parenthesis on, and
/// the call.
#[verifier::opaque]
pub open spec fn g_fn_call<P: SyntaxParser>(
    engine: &Engine<P>,
    src: Source,
    cfg: Config,
    s: ParseSettings,
    id: Seq<char>,
    capture: bool,
    ns: Option<NamespaceRefV>,
) -> Parsed<ExprV>
    decreases src.left(cfg.cursor), 10nat,
{
    let c = cfg.cursor;
    let t = src.at(c);
    if !s.within(cfg.state.max_expr_depth) {
        fail(too_deep(s.pos), cfg)
    } else {
        match t.0 {
            Token::EOF => fail(missing_token(")"@, unclosed_call(id), t.1), cfg),
            Token::LexError(le) => fail(lex_err_at(le@, t.1), cfg),
            Token::RightParen => ok(
                fn_call_expr(id, capture, ns, cfg.state.modules, Seq::empty(), s.pos),
                moved(cfg, src.step(c)),
            ),
            _ => g_fn_args(engine, src, cfg, s, id, capture, ns, Seq::empty()),
        }
    }
}

/// The arguments of a call that come after `args`, and the call.
#[verifier::opaque]
pub open spec fn g_fn_args<P: SyntaxParser>(
    engine: &Engine<P>,
    src: Source,
    cfg: Config,
    s: ParseSettings,
    id: Seq<char>,
    capture: bool,
    ns: Option<NamespaceRefV>,
    args: Seq<ExprV>,
) -> Parsed<ExprV>
    decreases src.left(cfg.cursor), 9nat,
{
    let c = cfg.cursor;
    let e = if src.at(c).0 is RightParen {
        ok(args, cfg)
    } else {
        let e = onward(g_expr(engine, src, cfg, deeper(s)), c);
        match e.result {
            Ok(v) => ok(args.push(v), e.after),
            Err(err) => fail(err, e.after),
        }
    };
    match e.result {
        Err(err) => fail(err, e.after),
        Ok(args) => {
            let c1 = e.after.cursor;
            let t = src.at(c1);
            match t.0 {
                Token::RightParen => ok(
                    fn_call_expr(id, capture, ns, e.after.state.modules, args, s.pos),
                    moved(e.after, src.step(c1)),
                ),
                Token::Comma => if progress(src, c, src.step(c1)) {
                    g_fn_args(engine, src, moved(e.after, src.step(c1)), s, id, capture, ns, args)
                } else {
                    halt(e.after)
                },
                Token::EOF => fail(missing_token(")"@, unclosed_call(id), t.1), e.after),
                Token::LexError(le) => fail(lex_err_at(le@, t.1), e.after),
                _ => fail(missing_token(","@, unseparated_call(id), t.1), e.after),
            }
        },
    }
}

/// What follows an opening bracket: the index, the closing bracket and any
/// further brackets, which group to the right.
#[verifier::opaque]
pub open spec fn g_index_chain<P: SyntaxParser>(
    engine: &Engine<P>,
    src: Source,
    cfg: Config,
    s: ParseSettings,
    lhs: ExprV,
) -> Parsed<ExprV>
    decreases src.left(cfg.cursor), 9nat,
{
    let c = cfg.cursor;
    if !s.within(cfg.state.max_expr_depth) {
        fail(too_deep(s.pos), cfg)
    } else {
        let e = onward(g_expr(engine, src, cfg, deeper(s)), c);
        match e.result {
            Err(err) => fail(err, e.after),
            Ok(idx) => match index_error(lhs, idx) {
                Some(err) => fail(err, e.after),
                None => {
                    let c1 = e.after.cursor;
                    let t = src.at(c1);
                    match t.0 {
                        Token::RightBracket => {
                            let c2 = src.step(c1);
                            if src.at(c2).0 is LeftBracket {
                                if progress(src, c, src.step(c2)) {
                                    let inner = g_index_chain(
                                        engine,
                                        src,
                                        moved(e.after, src.step(c2)),
                                        deeper(at_pos(s, src.at(c2).1)),
                                        idx,
                                    );
                                    match inner.result {
                                        Err(err) => fail(err, inner.after),
                                        Ok(chain) => ok(
                                            ExprV::Index(Box::new(lhs), Box::new(chain), s.pos),
                                            inner.after,
                                        ),
                                    }
                                } else {
                                    halt(e.after)
                                }
                            } else {
                                ok(
                                    ExprV::Index(Box::new(lhs), Box::new(idx), s.pos),
                                    moved(e.after, c2),
                                )
                            }
                        },
                        Token::LexError(le) => fail(lex_err_at(le@, t.1), e.after),
                        _ => fail(
                            missing_token(
                                "]"@,
                                "for a matching [ in this index expression"@,
                                t.1,
                            ),
                            e.after,
                        ),
                    }
                },
            },
        }
    }
}

/// An array literal `[ item, ... ]`.
#[verifier::opaque]
pub open spec fn g_array<P: SyntaxParser>(
    engine: &Engine<P>,
    src: Source,
    cfg: Config,
    s: ParseSettings,
) -> Parsed<ExprV>
    decreases src.left(cfg.cursor), 2nat,
{
    let c = cfg.cursor;
    if !s.within(cfg.state.max_expr_depth) {
        fail(too_deep(s.pos), cfg)
    } else if c >= src.tokens.len() {
        halt(cfg)
    } else {
        g_array_items(engine, src, moved(cfg, c + 1), at_pos(s, src.at(c).1), Seq::empty())
    }
}

/// The items of an array literal that come after `items`, and the literal.
#[verifier::opaque]
pub open spec fn g_array_items<P: SyntaxParser>(
    engine: &Engine<P>,
    src: Source,
    cfg: Config,
    s: ParseSettings,
    items: Seq<ExprV>,
) -> Parsed<ExprV>
    decreases src.left(cfg.cursor), 9nat,
{
    let c = cfg.cursor;
    let t = src.at(c);
    let max = engine.max_array_size;
    if t.0 is RightBracket {
        ok(ExprV::Array(items, s.pos), moved(cfg, src.step(c)))
    } else if t.0 is EOF {
        fail(missing_token("]"@, "to end this array literal"@, t.1), cfg)
    } else if max > 0 && items.len() >= max {
        fail(too_large("Size of array literal"@, max, t.1), cfg)
    } else {
        let e = onward(g_expr(engine, src, cfg, deeper(s)), c);
        match e.result {
            Err(err) => fail(err, e.after),
            Ok(v) => {
                let c1 = e.after.cursor;
                let t1 = src.at(c1);
                let next = match t1.0 {
                    Token::Comma => Ok(src.step(c1)),
                    Token::RightBracket => Ok(c1),
                    Token::EOF => Err(missing_token("]"@, "to end this array literal"@, t1.1)),
                    Token::LexError(le) => Err(lex_err_at(le@, t1.1)),
                    _ => Err(
                        missing_token(","@, "to separate the items of this array literal"@, t1.1),
                    ),
                };
                match next {
                    Err(err) => fail(err, e.after),
                    Ok(c2) => if progress(src, c, c2) {
                        g_array_items(engine, src, moved(e.after, c2), s, items.push(v))
                    } else {
                        halt(e.after)
                    },
                }
            },
        }
    }
}

/// An object-map literal `#{ name: value, ... }`.
#[verifier::opaque]
pub open spec fn g_map<P: SyntaxParser>(
    engine: &Engine<P>,
    src: Source,
    cfg: Config,
    s: ParseSettings,
) -> Parsed<ExprV>
    decreases src.left(cfg.cursor), 2nat,
{
    let c = cfg.cursor;
    if !s.within(cfg.state.max_expr_depth) {
        fail(too_deep(s.pos), cfg)
    } else if c >= src.tokens.len() {
        halt(cfg)
    } else {
        g_map_items(engine, src, moved(cfg, c + 1), at_pos(s, src.at(c).1), Seq::empty())
    }
}

/// The name of the property that a token starts, or why it starts none.
pub open spec fn property_name(t: (Token, Position), items: Seq<(IdentV, ExprV)>) -> Result<
    Seq<char>,
    ParseErrorV,
> {
    let stray = if items.len() == 0 {
        missing_token("}"@, "to end this object map literal"@, t.1)
    } else {
        err_at(ParseErrorTypeV::PropertyExpected, t.1)
    };
    match t.0 {
        Token::Identifier(name) => if has_property(items, name@) {
            Err(err_at(ParseErrorTypeV::DuplicatedProperty(name@), t.1))
        } else {
            Ok(name@)
        },
        Token::StringConstant(name) => if has_property(items, name@) {
            Err(err_at(ParseErrorTypeV::DuplicatedProperty(name@), t.1))
        } else {
            Ok(name@)
        },
        Token::Reserved(name) => if is_valid_identifier_spec(name@) {
            Err(err_at(ParseErrorTypeV::Reserved(name@), t.1))
        } else {
            Err(stray)
        },
        Token::LexError(le) => Err(lex_err_at(le@, t.1)),
        _ => Err(stray),
    }
}

/// The properties of an object-map literal that come after `items`, and
/// the literal.
#[verifier::opaque]
pub open spec fn g_map_items<P: SyntaxParser>(
    engine: &Engine<P>,
    src: Source,
    cfg: Config,
    s: ParseSettings,
    items: Seq<(IdentV, ExprV)>,
) -> Parsed<ExprV>
    decreases src.left(cfg.cursor), 9nat,
{
    let c = cfg.cursor;
    let t = src.at(c);
    let max = engine.max_map_size;
    if t.0 is RightBrace {
        ok(ExprV::ObjectMap(items, s.pos), moved(cfg, src.step(c)))
    } else if t.0 is EOF {
        fail(missing_token("}"@, "to end this object map literal"@, t.1), cfg)
    } else {
        match property_name(t, items) {
            Err(err) => fail(err, cfg),
            Ok(name) => {
                let colon = src.at(c + 1);
                match colon.0 {
                    Token::Colon => {
                        let c2 = src.step(c + 1);
                        if max > 0 && items.len() >= max {
                            fail(
                                too_large(
                                    "Number of properties in object map literal"@,
                                    max,
                                    src.at(c2).1,
                                ),
                                cfg,
                            )
                        } else if !progress(src, c, c2) {
                            halt(cfg)
                        } else {
                            let e = onward(g_expr(engine, src, moved(cfg, c2), deeper(s)), c2);
                            match e.result {
                                Err(err) => fail(err, e.after),
                                Ok(v) => {
                                    let after = in_state(e.after, st_intern(e.after.state, name));
                                    let items1 = items.push((IdentV { name, pos: t.1 }, v));
                                    let c3 = e.after.cursor;
                                    let t3 = src.at(c3);
                                    match t3.0 {
                                        Token::Comma => g_map_items(
                                            engine,
                                            src,
                                            moved(after, src.step(c3)),
                                            s,
                                            items1,
                                        ),
                                        Token::RightBrace => g_map_items(
                                            engine,
                                            src,
                                            after,
                                            s,
                                            items1,
                                        ),
                                        Token::Identifier(_) => fail(
                                            missing_token(
                                                ","@,
                                                "to separate the items of this object map literal"@,
                                                t3.1,
                                            ),
                                            after,
                                        ),
                                        Token::LexError(le) => fail(lex_err_at(le@, t3.1), after),
                                        _ => fail(
                                            missing_token(
                                                "}"@,
                                                "to end this object map literal"@,
                                                t3.1,
                                            ),
                                            after,
                                        ),
                                    }
                                },
                            }
                        }
                    },
                    Token::LexError(le) => fail(lex_err_at(le@, colon.1), cfg),
                    _ => fail(missing_token(":"@, property_without_colon(name), colon.1), cfg),
                }
            },
        }
    }
}

/// The key of a switch case with the given pattern, or why the pattern
/// cannot be a case.
pub open spec fn case_key(pattern: ExprV, table: Seq<(u64, StmtV)>) -> Result<u64, ParseErrorV> {
    match pattern.constant_value() {
        Some(value) => if has_case(table, value_hash(value)) {
            Err(err_at(ParseErrorTypeV::DuplicatedSwitchCase, pattern.position()))
        } else {
            Ok(value_hash(value))
        },
        None => Err(err_at(ParseErrorTypeV::ExprExpected("a literal"@), pattern.position())),
    }
}

/// A switch: the value that is looked at, then the cases in braces.
#[verifier::opaque]
pub open spec fn g_switch<P: SyntaxParser>(
    engine: &Engine<P>,
    src: Source,
    cfg: Config,
    s: ParseSettings,
) -> Parsed<StmtV>
    decreases src.left(cfg.cursor), 2nat,
{
    let c = cfg.cursor;
    if !s.within(cfg.state.max_expr_depth) {
        fail(too_deep(s.pos), cfg)
    } else if c >= src.tokens.len() {
        halt(cfg)
    } else {
        let s1 = at_pos(s, src.at(c).1);
        let e = onward(g_expr(engine, src, moved(cfg, c + 1), deeper(s1)), c + 1);
        match e.result {
            Err(err) => fail(err, e.after),
            Ok(item) => {
                let t = src.at(e.after.cursor);
                let after = moved(e.after, src.step(e.after.cursor));
                match t.0 {
                    Token::LeftBrace => g_switch_cases(
                        engine,
                        src,
                        after,
                        s1,
                        item,
                        Seq::empty(),
                        None,
                    ),
                    Token::LexError(le) => fail(lex_err_at(le@, t.1), after),
                    _ => fail(missing_token("{"@, "to start a switch block"@, t.1), after),
                }
            },
        }
    }
}

/// The cases of a switch that come after those in `table` and `def`, and
/// the switch.
#[verifier::opaque]
pub open spec fn g_switch_cases<P: SyntaxParser>(
    engine: &Engine<P>,
    src: Source,
    cfg: Config,
    s: ParseSettings,
    item: ExprV,
    table: Seq<(u64, StmtV)>,
    def: Option<StmtV>,
) -> Parsed<StmtV>
    decreases src.left(cfg.cursor), 9nat,
{
    let c = cfg.cursor;
    let t = src.at(c);
    let boxed = match def {
        Some(d) => Some(Box::new(d)),
        None => None::<Box<StmtV>>,
    };
    if t.0 is RightBrace {
        ok(StmtV::Switch(item, table, boxed, s.pos), moved(cfg, src.step(c)))
    } else if t.0 is EOF {
        fail(missing_token("}"@, "to end this switch block"@, t.1), cfg)
    } else if t.0 is Underscore && def is Some {
        fail(err_at(ParseErrorTypeV::DuplicatedSwitchCase, t.1), cfg)
    } else {
        let pattern: Parsed<Option<u64>> = if t.0 is Underscore {
            ok(None, moved(cfg, src.step(c)))
        } else {
            let e = onward(g_expr(engine, src, cfg, deeper(s)), c);
            match e.result {
                Err(err) => fail(err, e.after),
                Ok(p) => match case_key(p, table) {
                    Ok(hash) => ok(Some(hash), e.after),
                    Err(err) => fail(err, e.after),
                },
            }
        };
        match pattern.result {
            Err(err) => fail(err, pattern.after),
            Ok(hash) => {
                let c1 = pattern.after.cursor;
                let arrow = src.at(c1);
                let c2 = src.step(c1);
                match arrow.0 {
                    Token::DoubleArrow => if !progress(src, c, c2) {
                        halt(pattern.after)
                    } else {
                        let body = onward(
                            g_stmt(engine, src, moved(pattern.after, c2), deeper(s)),
                            c2,
                        );
                        match body.result {
                            Err(err) => fail(err, body.after),
                            Ok(stmt) => {
                                let need_comma = !stmt.is_self_terminated();
                                let table1 = match hash {
                                    Some(h) => table.push((h, stmt)),
                                    None => table,
                                };
                                let def1 = match hash {
                                    Some(_) => def,
                                    None => Some(stmt),
                                };
                                let c3 = body.after.cursor;
                                let t3 = src.at(c3);
                                let next = match t3.0 {
                                    Token::Comma => Ok(src.step(c3)),
                                    Token::RightBrace => Ok(c3),
                                    Token::EOF => Err(
                                        missing_token(")"@, "to end this switch block"@, t3.1),
                                    ),
                                    Token::LexError(le) => Err(lex_err_at(le@, t3.1)),
                                    _ => if need_comma {
                                        Err(
                                            missing_token(
                                                ","@,
                                                "to separate the items in this switch block"@,
                                                t3.1,
                                            ),
                                        )
                                    } else {
                                        Ok(c3)
                                    },
                                };
                                match next {
                                    Err(err) => fail(err, body.after),
                                    Ok(c4) => g_switch_cases(
                                        engine,
                                        src,
                                        moved(body.after, c4),
                                        s,
                                        item,
                                        table1,
                                        def1,
                                    ),
                                }
                            },
                        }
                    },
                    Token::LexError(le) => fail(lex_err_at(le@, arrow.1), pattern.after),
                    _ => fail(
                        missing_token("=>"@, "in this switch case"@, arrow.1),
                        pattern.after,
                    ),
                }
            },
        }
    }
}

/// A literal token.
#[verifier::opaque]
pub open spec fn g_literal<P: SyntaxParser>(
    engine: &Engine<P>,
    src: Source,
    cfg: Config,
    pos: Position,
) -> Parsed<ExprV> {
    let t = src.at(cfg.cursor);
    let state = match t.0 {
        Token::StringConstant(text) => st_intern(cfg.state, text@),
        _ => cfg.state,
    };
    match literal_of(t.0, pos, engine.floats) {
        Some(lit) => ok(lit, Config { cursor: cfg.cursor + 1, state, lib: cfg.lib }),
        None => halt(cfg),
    }
}

/// A name. A name before a call or a module path is taken as it is; any
/// other name is looked up on the scope stack.
#[verifier::opaque]
pub open spec fn g_name<P: SyntaxParser>(
    engine: &Engine<P>,
    src: Source,
    cfg: Config,
    pos: Position,
) -> Parsed<ExprV> {
    let c = cfg.cursor;
    match src.at(c).0 {
        Token::Identifier(text) => {
            let name = text@;
            let lookup = match src.at(c + 1).0 {
                Token::LeftParen | Token::Bang => false,
                Token::DoubleColon => !engine.modules,
                _ => true,
            };
            let ident = IdentV { name, pos };
            if lookup {
                let index = found_index(lookup_var(cfg.state.stack, name));
                let state = st_intern(st_access(cfg.state, engine.closures, name, pos), name);
                ok(
                    ExprV::Variable(index, None, ident),
                    Config { cursor: c + 1, state, lib: cfg.lib },
                )
            } else {
                let state = st_intern(
                    ParseStateV {
                        allow_capture: cfg.state.allow_capture || engine.closures,
                        ..cfg.state
                    },
                    name,
                );
                ok(
                    ExprV::Variable(None, None, ident),
                    Config { cursor: c + 1, state, lib: cfg.lib },
                )
            }
        },
        _ => halt(cfg),
    }
}

/// The hint for `this` outside a function.
pub open spec fn this_hint(name: Seq<char>) -> Seq<char> {
    "'"@ + name + "' can only be used in functions"@
}

/// A reserved word in the place of a name: `this` inside a function, or
/// one of the words that are called like functions before a call.
#[verifier::opaque]
pub open spec fn g_reserved<P: SyntaxParser>(
    engine: &Engine<P>,
    src: Source,
    cfg: Config,
    s: ParseSettings,
) -> Parsed<ExprV> {
    let c = cfg.cursor;
    match src.at(c).0 {
        Token::Reserved(text) => {
            let name = text@;
            let after = moved(cfg, c + 1);
            let call = src.at(c + 1).0 is LeftParen || src.at(c + 1).0 is Bang;
            let this = name == "this"@;
            let variable = ok(
                ExprV::Variable(None, None, IdentV { name, pos: s.pos }),
                in_state(after, st_intern(cfg.state, name)),
            );
            if call {
                if !this && is_keyword_function_spec(name) && (engine.closures || name
                    != "is_shared"@) {
                    variable
                } else {
                    fail(err_at(ParseErrorTypeV::Reserved(name), s.pos), after)
                }
            } else if this {
                if s.is_function_scope {
                    variable
                } else {
                    fail(
                        lex_err_at(LexErrorV::ImproperSymbol(name, this_hint(name)), s.pos),
                        after,
                    )
                }
            } else if is_valid_identifier_spec(name) {
                fail(err_at(ParseErrorTypeV::Reserved(name), s.pos), after)
            } else {
                fail(lex_err_at(LexErrorV::UnexpectedInput(name), s.pos), after)
            }
        },
        _ => halt(cfg),
    }
}

/// An anonymous function where an expression stands. The function is kept
/// in the library, and the variables that it captures are looked up in the
/// scope around it.
#[verifier::opaque]
pub open spec fn g_closure<P: SyntaxParser>(
    engine: &Engine<P>,
    src: Source,
    cfg: Config,
    s: ParseSettings,
) -> Parsed<ExprV>
    decreases src.left(cfg.cursor), 3nat,
{
    let inner = onward(
        g_anon_fn(
            engine,
            src,
            Config { cursor: cfg.cursor, state: function_state(cfg.state), lib: cfg.lib },
            function_settings(s.pos),
        ),
        cfg.cursor,
    );
    match inner.result {
        Err(err) => fail(
            err,
            Config { cursor: inner.after.cursor, state: cfg.state, lib: inner.after.lib },
        ),
        Ok(pair) => ok(
            pair.0,
            Config {
                cursor: inner.after.cursor,
                state: if engine.closures {
                    st_access_all(cfg.state, true, inner.after.state.externals)
                } else {
                    cfg.state
                },
                lib: lib_keep(inner.after.lib, pair.1),
            },
        ),
    }
}

/// What a primary expression begins with, before any postfix operators.
#[verifier::opaque]
pub open spec fn g_atom<P: SyntaxParser>(
    engine: &Engine<P>,
    src: Source,
    cfg: Config,
    s: ParseSettings,
) -> Parsed<ExprV>
    decreases src.left(cfg.cursor), 4nat,
{
    let c = cfg.cursor;
    let t = src.at(c);
    match start_of(t.0, s, engine) {
        Start::End => fail(err_at(ParseErrorTypeV::UnexpectedEOF, s.pos), cfg),
        Start::Literal => g_literal(engine, src, cfg, s.pos),
        Start::Block => {
            let b = g_block(engine, src, cfg, deeper(s));
            match b.result {
                Err(err) => fail(err, b.after),
                Ok(StmtV::Block(statements, pos)) => ok(ExprV::Stmt(statements, pos), b.after),
                Ok(_) => halt(b.after),
            }
        },
        Start::Paren => g_paren(engine, src, cfg, deeper(s)),
        Start::If => {
            let b = g_if(engine, src, cfg, deeper(s));
            match b.result {
                Err(err) => fail(err, b.after),
                Ok(stmt) => ok(ExprV::Stmt(seq![stmt], s.pos), b.after),
            }
        },
        Start::Switch => {
            let b = g_switch(engine, src, cfg, deeper(s));
            match b.result {
                Err(err) => fail(err, b.after),
                Ok(stmt) => ok(ExprV::Stmt(seq![stmt], s.pos), b.after),
            }
        },
        Start::Closure => g_closure(engine, src, cfg, s),
        Start::Array => g_array(engine, src, cfg, deeper(s)),
        Start::ObjectMap => g_map(engine, src, cfg, deeper(s)),
        Start::Name => g_name(engine, src, cfg, s.pos),
        Start::Reserved => g_reserved(engine, src, cfg, s),
        Start::Fault => match t.0 {
            Token::LexError(le) => fail(lex_err_at(le@, s.pos), moved(cfg, src.step(c))),
            _ => halt(cfg),
        },
        Start::Other => fail(
            lex_err_at(LexErrorV::UnexpectedInput(t.0.syntax_spec()), s.pos),
            cfg,
        ),
    }
}

/// A primary expression: an atom, and after it any run of calls, indexes,
/// property accesses and module paths.
#[verifier::opaque]
pub open spec fn g_primary<P: SyntaxParser>(
    engine: &Engine<P>,
    src: Source,
    cfg: Config,
    s: ParseSettings,
) -> Parsed<ExprV>
    decreases src.left(cfg.cursor), 5nat,
{
    if !s.within(cfg.state.max_expr_depth) {
        fail(too_deep(s.pos), cfg)
    } else {
        let s1 = at_pos(s, src.at(cfg.cursor).1);
        let a = onward(g_atom(engine, src, cfg, s1), cfg.cursor);
        match a.result {
            Err(err) => fail(err, a.after),
            Ok(root) => g_postfix(engine, src, a.after, s1, root),
        }
    }
}

/// The chain of modules with one more module at its end.
pub open spec fn qualified_by(q: Option<(u64, NamespaceRefV)>, first: IdentV) -> Option<
    (u64, NamespaceRefV),
> {
    match q {
        Some((hash, ns)) => Some(
            (hash, NamespaceRefV { index: ns.index, path: ns.path.push(first) }),
        ),
        None => Some((42u64, NamespaceRefV { index: None, path: seq![first] })),
    }
}

/// The postfix operators that follow `root`, applied to it from left to
/// right.
#[verifier::opaque]
pub open spec fn g_postfix<P: SyntaxParser>(
    engine: &Engine<P>,
    src: Source,
    cfg: Config,
    s: ParseSettings,
    root: ExprV,
) -> Parsed<ExprV>
    decreases src.left(cfg.cursor), 1nat,
{
    let c = cfg.cursor;
    let t = src.at(c);
    if !postfix_applies(engine, root, t.0) {
        ok(with_root_hash(root, cfg.state.modules), cfg)
    } else if c >= src.tokens.len() {
        halt(cfg)
    } else {
        let s1 = at_pos(s, t.1);
        let next = src.at(c + 1);
        let step: Parsed<ExprV> = match (t.0, root) {
            (Token::Bang, ExprV::Variable(_, q, ident)) => if q is Some {
                if next.0 is LeftParen {
                    fail(
                        lex_err_at(
                            LexErrorV::ImproperSymbol(
                                "!"@,
                                "'!' cannot be used to call module functions"@,
                            ),
                            t.1,
                        ),
                        cfg,
                    )
                } else {
                    fail(lex_err_at(LexErrorV::UnexpectedInput("!"@), t.1), cfg)
                }
            } else if !(next.0 is LeftParen) {
                fail(
                    missing_token("("@, "to start arguments list of function call"@, next.1),
                    cfg,
                )
            } else {
                onward(
                    g_fn_call(
                        engine,
                        src,
                        moved(cfg, src.step(c + 1)),
                        deeper(at_pos(s1, ident.pos)),
                        ident.name,
                        true,
                        None,
                    ),
                    c + 1,
                )
            },
            (Token::LeftParen, ExprV::Variable(_, q, ident)) => onward(
                g_fn_call(
                    engine,
                    src,
                    moved(cfg, c + 1),
                    deeper(at_pos(s1, ident.pos)),
                    ident.name,
                    false,
                    match q {
                        Some(x) => Some(x.1),
                        None => None,
                    },
                ),
                c + 1,
            ),
            (Token::DoubleColon, ExprV::Variable(index, q, first)) => match variable_name(
                next.0,
                next.1,
                false,
            ) {
                Err(err) => fail(err, cfg),
                Ok(name) => ok(
                    ExprV::Variable(index, qualified_by(q, first), IdentV { name, pos: next.1 }),
                    Config {
                        cursor: src.step(c + 1),
                        state: st_intern(cfg.state, name),
                        lib: cfg.lib,
                    },
                ),
            },
            (Token::LeftBracket, _) => onward(
                g_index_chain(engine, src, moved(cfg, c + 1), deeper(s1), root),
                c + 1,
            ),
            (Token::Period, _) => {
                let state = if engine.closures && next.0 is Identifier {
                    ParseStateV { allow_capture: false, ..cfg.state }
                } else {
                    cfg.state
                };
                let rhs = onward(
                    g_primary(
                        engine,
                        src,
                        Config { cursor: c + 1, state, lib: cfg.lib },
                        deeper(s1),
                    ),
                    c + 1,
                );
                match rhs.result {
                    Err(err) => fail(err, rhs.after),
                    Ok(r) => match dot_expr(root, r, t.1) {
                        Err(err) => fail(err, rhs.after),
                        Ok(d) => ok(
                            d,
                            in_state(
                                rhs.after,
                                ParseStateV {
                                    strings: dot_strings(rhs.after.state.strings, root, r),
                                    ..rhs.after.state
                                },
                            ),
                        ),
                    },
                }
            },
            _ => halt(cfg),
        };
        match step.result {
            Err(err) => fail(err, step.after),
            Ok(e) => if step.after.cursor > c {
                g_postfix(engine, src, step.after, s1, e)
            } else {
                halt(step.after)
            },
        }
    }
}

/// An expression with any unary operators in front of it.
#[verifier::opaque]
pub open spec fn g_unary<P: SyntaxParser>(
    engine: &Engine<P>,
    src: Source,
    cfg: Config,
    s: ParseSettings,
) -> Parsed<ExprV>
    decreases src.left(cfg.cursor), 6nat,
{
    let c = cfg.cursor;
    let t = src.at(c);
    let s1 = at_pos(s, t.1);
    if !s1.within(cfg.state.max_expr_depth) {
        fail(too_deep(s1.pos), cfg)
    } else {
        match t.0 {
            Token::UnaryMinus => if c >= src.tokens.len() {
                halt(cfg)
            } else {
                let e = g_unary(engine, src, moved(cfg, c + 1), deeper(s1));
                match e.result {
                    Err(err) => fail(err, e.after),
                    Ok(v) => match negated(v, t.1, engine.floats) {
                        Ok(n) => ok(n, e.after),
                        Err(err) => fail(err, e.after),
                    },
                }
            },
            Token::UnaryPlus => if c >= src.tokens.len() {
                halt(cfg)
            } else {
                let e = g_unary(engine, src, moved(cfg, c + 1), deeper(s1));
                match e.result {
                    Err(err) => fail(err, e.after),
                    Ok(v) => ok(plussed(v, t.1), e.after),
                }
            },
            Token::Bang => if c >= src.tokens.len() {
                halt(cfg)
            } else {
                let e = g_primary(engine, src, moved(cfg, c + 1), deeper(s1));
                match e.result {
                    Err(err) => fail(err, e.after),
                    Ok(v) => ok(notted(v, t.1), e.after),
                }
            },
            Token::EOF => fail(err_at(ParseErrorTypeV::UnexpectedEOF, s1.pos), cfg),
            _ => g_primary(engine, src, cfg, deeper(s1)),
        }
    }
}

/// The binary operators that follow `lhs` and bind more strongly than
/// `parent`, with their operands.
#[verifier::opaque]
pub open spec fn g_binary<P: SyntaxParser>(
    engine: &Engine<P>,
    src: Source,
    cfg: Config,
    s: ParseSettings,
    parent: u8,
    lhs: ExprV,
) -> Parsed<ExprV>
    decreases src.left(cfg.cursor), 7nat,
{
    if !s.within(cfg.state.max_expr_depth) {
        fail(too_deep(s.pos), cfg)
    } else {
        g_operators(engine, src, cfg, at_pos(s, lhs.position()), parent, lhs)
    }
}

/// The operators that follow `root`, folded into it from left to right.
/// The operand on the right of an operator takes with it the operators
/// that bind more strongly.
#[verifier::opaque]
pub open spec fn g_operators<P: SyntaxParser>(
    engine: &Engine<P>,
    src: Source,
    cfg: Config,
    s: ParseSettings,
    parent: u8,
    root: ExprV,
) -> Parsed<ExprV>
    decreases src.left(cfg.cursor), 1nat,
{
    let c = cfg.cursor;
    let t = src.at(c);
    match operator_precedence(engine, t.0, t.1) {
        Err(err) => fail(err, cfg),
        Ok(precedence) => {
            let bind_right = t.0.is_assignment_spec();
            if binds_to_parent(precedence, bind_right, parent) {
                ok(root, cfg)
            } else if c >= src.tokens.len() {
                halt(cfg)
            } else {
                let rhs = onward(g_unary(engine, src, moved(cfg, c + 1), s), c + 1);
                match rhs.result {
                    Err(err) => fail(err, rhs.after),
                    Ok(operand) => {
                        let n = src.at(rhs.after.cursor);
                        match operator_precedence(engine, n.0, n.1) {
                            Err(err) => fail(err, rhs.after),
                            Ok(next) => {
                                let tail: Parsed<ExprV> = if (precedence == next && bind_right)
                                    || precedence < next {
                                    onward(
                                        g_binary(engine, src, rhs.after, s, precedence, operand),
                                        c + 1,
                                    )
                                } else {
                                    ok(operand, rhs.after)
                                };
                                match tail.result {
                                    Err(err) => fail(err, tail.after),
                                    Ok(right) => {
                                        let s1 = at_pos(deeper(s), t.1);
                                        if !s1.within(tail.after.state.max_expr_depth) {
                                            fail(too_deep(s1.pos), tail.after)
                                        } else {
                                            match binary_expr(engine, t.0, root, right, t.1) {
                                                Err(err) => fail(err, tail.after),
                                                Ok(e) => g_operators(
                                                    engine,
                                                    src,
                                                    tail.after,
                                                    s1,
                                                    parent,
                                                    e,
                                                ),
                                            }
                                        }
                                    },
                                }
                            },
                        }
                    },
                }
            }
        },
    }
}

/// A run of barriers.
pub open spec fn barriers(n: nat) -> Seq<(Seq<char>, AccessMode)> {
    Seq::new(n, |i: int| (Seq::<char>::empty(), AccessMode::ReadWrite))
}

/// The scope stack after a custom syntax has changed the number of
/// variables in scope by `delta`: that many barriers more, or that many
/// entries fewer.
pub open spec fn with_scope_delta(stack: Seq<(Seq<char>, AccessMode)>, delta: int) -> Seq<
    (Seq<char>, AccessMode),
> {
    if delta > 0 {
        stack + barriers(delta as nat)
    } else if delta == 0 {
        stack
    } else if stack.len() + delta <= 0 {
        Seq::empty()
    } else {
        stack.take(stack.len() + delta)
    }
}

/// The custom syntax that the token starts, if the engine knows one by
/// the text of the token.
pub open spec fn custom_start<P: SyntaxParser>(engine: &Engine<P>, token: Token) -> Option<int> {
    if engine.custom_syntax@.len() == 0 {
        None
    } else {
        match token {
            Token::Custom(key) | Token::Reserved(key) | Token::Identifier(key) => {
                engine.syntax_index_spec(key@)
            },
            _ => None,
        }
    }
}

/// The expression that a hook of a custom syntax has refused, with the error
/// placed at the token that the hook looked at.
pub open spec fn refused(err: ParseErrorV, pos: Position) -> ParseErrorV {
    err_at(err.kind, pos)
}

/// What is left of an expression of the custom syntax at place `index` of
/// the engine, behind the segments matched so far. The hook of the syntax
/// is asked for the segment that must come next, until it asks for none:
/// `$ident$` for a name, `$expr$` for an expression, `$block$` for a
/// block, anything else for the token of that text.
#[verifier::opaque]
pub open spec fn g_custom<P: SyntaxParser>(
    engine: &Engine<P>,
    src: Source,
    cfg: Config,
    s: ParseSettings,
    index: int,
    segments: Seq<Seq<char>>,
    tokens: Seq<Seq<char>>,
    keywords: Seq<ExprV>,
    pos: Position,
) -> Parsed<ExprV>
    decreases src.left(cfg.cursor), 20 + usize::MAX - segments.len(),
{
    let c = cfg.cursor;
    let t = src.at(c);
    let inner = deeper(at_pos(s, t.1));
    let syntax = engine.custom_syntax@[index].1;
    if segments.len() >= usize::MAX || segments.len() == 0 {
        halt(cfg)
    } else {
        match syntax.parse.answer(segments, t.0.syntax_spec()) {
            Err(err) => fail(refused(err, t.1), cfg),
            Ok(None) => ok(
                ExprV::Custom(CustomExprV { keywords, func: syntax.func, tokens }, pos),
                cfg,
            ),
            Ok(Some(required)) => if required == "$ident$"@ {
                match variable_name(t.0, t.1, false) {
                    Err(err) => fail(err, cfg),
                    Ok(name) => if c >= src.tokens.len() {
                        halt(cfg)
                    } else {
                        g_custom(
                            engine,
                            src,
                            Config {
                                cursor: c + 1,
                                state: st_intern(st_intern(cfg.state, name), required),
                                lib: cfg.lib,
                            },
                            s,
                            index,
                            segments.push(name),
                            tokens.push(required),
                            keywords.push(
                                ExprV::Variable(None, None, IdentV { name, pos: t.1 }),
                            ),
                            pos,
                        )
                    },
                }
            } else if required == "$expr$"@ {
                let e = g_expr(engine, src, cfg, inner);
                match e.result {
                    Err(err) => fail(err, e.after),
                    Ok(value) => if !progress(src, c, e.after.cursor) {
                        halt(e.after)
                    } else {
                        g_custom(
                            engine,
                            src,
                            in_state(e.after, st_intern(e.after.state, required)),
                            s,
                            index,
                            segments.push(required),
                            tokens.push(required),
                            keywords.push(value),
                            pos,
                        )
                    },
                }
            } else if required == "$block$"@ {
                let b = g_block(engine, src, cfg, inner);
                match b.result {
                    Err(err) => fail(err, b.after),
                    Ok(StmtV::Block(statements, p)) => if !progress(src, c, b.after.cursor) {
                        halt(b.after)
                    } else {
                        g_custom(
                            engine,
                            src,
                            in_state(b.after, st_intern(b.after.state, required)),
                            s,
                            index,
                            segments.push(required),
                            tokens.push(required),
                            keywords.push(ExprV::Stmt(statements, p)),
                            pos,
                        )
                    },
                    Ok(_) => halt(b.after),
                }
            } else {
                match t.0 {
                    Token::LexError(le) => fail(lex_err_at(le@, t.1), cfg),
                    _ => if t.0.syntax_spec() == required {
                        g_custom(
                            engine,
                            src,
                            moved(cfg, src.step(c)),
                            s,
                            index,
                            segments.push(required),
                            tokens.push(required),
                            keywords,
                            pos,
                        )
                    } else {
                        fail(
                            missing_token(
                                required,
                                "for '"@ + segments[0] + "' expression"@,
                                t.1,
                            ),
                            cfg,
                        )
                    },
                }
            },
        }
    }
}

/// An expression: an expression of a custom syntax, or an operand with the
/// binary operators and operands that follow it.
#[verifier::opaque]
pub open spec fn g_expr<P: SyntaxParser>(
    engine: &Engine<P>,
    src: Source,
    cfg: Config,
    s: ParseSettings,
) -> Parsed<ExprV>
    decreases src.left(cfg.cursor), 8nat,
{
    let c = cfg.cursor;
    if !s.within(cfg.state.max_expr_depth) {
        fail(too_deep(s.pos), cfg)
    } else {
        let s1 = at_pos(s, src.at(c).1);
        match custom_start(engine, src.at(c).0) {
            Some(index) => if c >= src.tokens.len() || !(0 <= index
                < engine.custom_syntax@.len()) {
                halt(cfg)
            } else {
                let key = engine.custom_syntax@[index].0@;
                let delta = engine.custom_syntax@[index].1.scope_delta;
                g_custom(
                    engine,
                    src,
                    Config {
                        cursor: c + 1,
                        state: ParseStateV {
                            stack: with_scope_delta(cfg.state.stack, delta as int),
                            ..cfg.state
                        },
                        lib: cfg.lib,
                    },
                    s1,
                    index,
                    seq![key],
                    seq![key],
                    Seq::empty(),
                    src.at(c).1,
                )
            },
            None => {
                let u = onward(g_unary(engine, src, cfg, deeper(s1)), c);
                match u.result {
                    Err(err) => fail(err, u.after),
                    Ok(lhs) => g_binary(engine, src, u.after, deeper(s1), 1, lhs),
                }
            },
        }
    }
}

/// What may follow an expression that stands as a statement: an assignment
/// operator and the value that is assigned.
#[verifier::opaque]
pub open spec fn g_op_assignment<P: SyntaxParser>(
    engine: &Engine<P>,
    src: Source,
    cfg: Config,
    s: ParseSettings,
    lhs: ExprV,
) -> Parsed<StmtV>
    decreases src.left(cfg.cursor), 9nat,
{
    let c = cfg.cursor;
    let t = src.at(c);
    if !s.within(cfg.state.max_expr_depth) {
        fail(too_deep(s.pos), cfg)
    } else if !t.0.is_assignment_spec() {
        ok(StmtV::Expr(lhs), cfg)
    } else if c >= src.tokens.len() {
        halt(cfg)
    } else {
        let e = g_expr(engine, src, moved(cfg, c + 1), deeper(at_pos(s, t.1)));
        match e.result {
            Err(err) => fail(err, e.after),
            Ok(rhs) => match assignment_stmt(
                e.after.state.stack,
                t.0.syntax_spec(),
                lhs,
                rhs,
                t.1,
            ) {
                Ok(stmt) => ok(stmt, e.after),
                Err(err) => fail(err, e.after),
            },
        }
    }
}

/// An expression that stands as a statement, with the assignment that may
/// follow it.
#[verifier::opaque]
pub open spec fn g_expr_stmt<P: SyntaxParser>(
    engine: &Engine<P>,
    src: Source,
    cfg: Config,
    s: ParseSettings,
) -> Parsed<StmtV>
    decreases src.left(cfg.cursor), 10nat,
{
    if !s.within(cfg.state.max_expr_depth) {
        fail(too_deep(s.pos), cfg)
    } else {
        let s1 = at_pos(s, src.at(cfg.cursor).1);
        let e = onward(g_expr(engine, src, cfg, deeper(s1)), cfg.cursor);
        match e.result {
            Err(err) => fail(err, e.after),
            Ok(lhs) => g_op_assignment(engine, src, e.after, deeper(s1), lhs),
        }
    }
}

/// The statements of a block closed, with the variables and modules that
/// they declared out of scope again.
pub open spec fn block_end(
    cfg: Config,
    pos: Position,
    statements: Seq<StmtV>,
    prev_entry: usize,
    prev_modules: int,
) -> Parsed<StmtV> {
    ok(
        StmtV::Block(statements, pos),
        in_state(
            cfg,
            ParseStateV {
                stack: truncated(cfg.state.stack, cfg.state.entry_stack_len as int),
                entry_stack_len: prev_entry,
                modules: truncated(cfg.state.modules, prev_modules),
                ..cfg.state
            },
        ),
    )
}

/// A block of statements in braces.
#[verifier::opaque]
pub open spec fn g_block<P: SyntaxParser>(
    engine: &Engine<P>,
    src: Source,
    cfg: Config,
    s: ParseSettings,
) -> Parsed<StmtV>
    decreases src.left(cfg.cursor), 2nat,
{
    let c = cfg.cursor;
    let t = src.at(c);
    let after = moved(cfg, src.step(c));
    match t.0 {
        Token::LeftBrace => {
            let s1 = at_pos(s, t.1);
            if !s1.within(cfg.state.max_expr_depth) {
                fail(too_deep(s1.pos), after)
            } else if c >= src.tokens.len() {
                halt(cfg)
            } else {
                g_block_items(
                    engine,
                    src,
                    in_state(
                        after,
                        ParseStateV {
                            entry_stack_len: cfg.state.stack.len() as usize,
                            ..cfg.state
                        },
                    ),
                    s1,
                    Seq::empty(),
                    cfg.state.entry_stack_len,
                    cfg.state.modules.len() as int,
                )
            }
        },
        Token::LexError(le) => fail(lex_err_at(le@, t.1), after),
        _ => fail(missing_token("{"@, "to start a statement block"@, t.1), after),
    }
}

/// The statements of a block that come after `statements`, and the block.
#[verifier::opaque]
pub open spec fn g_block_items<P: SyntaxParser>(
    engine: &Engine<P>,
    src: Source,
    cfg: Config,
    s: ParseSettings,
    statements: Seq<StmtV>,
    prev_entry: usize,
    prev_modules: int,
) -> Parsed<StmtV>
    decreases src.left(cfg.cursor), 13nat,
{
    let c = cfg.cursor;
    let t = src.at(c);
    if t.0 is RightBrace {
        block_end(moved(cfg, src.step(c)), s.pos, statements, prev_entry, prev_modules)
    } else if t.0 is EOF {
        fail(missing_token("}"@, "to terminate this block"@, t.1), cfg)
    } else {
        let inner = ParseSettings { is_global: false, ..s };
        let o = onward(g_stmt(engine, src, cfg, deeper(inner)), c);
        match o.result {
            Err(err) => fail(err, o.after),
            Ok(stmt) => if !progress(src, c, o.after.cursor) {
                halt(o.after)
            } else if stmt is Noop {
                g_block_items(engine, src, o.after, inner, statements, prev_entry, prev_modules)
            } else {
                let need = !stmt.is_self_terminated();
                let c1 = o.after.cursor;
                let t1 = src.at(c1);
                let all = statements.push(stmt);
                match t1.0 {
                    Token::RightBrace => block_end(
                        moved(o.after, src.step(c1)),
                        s.pos,
                        all,
                        prev_entry,
                        prev_modules,
                    ),
                    Token::SemiColon => g_block_items(
                        engine,
                        src,
                        moved(
                            o.after,
                            if need {
                                src.step(c1)
                            } else {
                                c1
                            },
                        ),
                        inner,
                        all,
                        prev_entry,
                        prev_modules,
                    ),
                    Token::LexError(le) => if need {
                        fail(lex_err_at(le@, t1.1), o.after)
                    } else {
                        g_block_items(engine, src, o.after, inner, all, prev_entry, prev_modules)
                    },
                    _ => if need {
                        fail(
                            missing_token(";"@, "to terminate this statement"@, t1.1),
                            o.after,
                        )
                    } else {
                        g_block_items(engine, src, o.after, inner, all, prev_entry, prev_modules)
                    },
                }
            },
        }
    }
}

/// The `else` branch of an `if`, which is a block or another `if`, if there
/// is one.
#[verifier::opaque]
pub open spec fn g_else<P: SyntaxParser>(
    engine: &Engine<P>,
    src: Source,
    cfg: Config,
    s: ParseSettings,
) -> Parsed<Option<StmtV>>
    decreases src.left(cfg.cursor), 3nat,
{
    let c = cfg.cursor;
    if src.at(c).0 is Else {
        let c2 = src.step(c);
        let e = if src.at(c2).0 is If {
            g_if(engine, src, moved(cfg, c2), deeper(s))
        } else {
            g_block(engine, src, moved(cfg, c2), deeper(s))
        };
        match e.result {
            Err(err) => fail(err, e.after),
            Ok(other) => ok(Some(other), e.after),
        }
    } else {
        ok(None, cfg)
    }
}

/// `if guard { ... }` with any `else` branch.
#[verifier::opaque]
pub open spec fn g_if<P: SyntaxParser>(
    engine: &Engine<P>,
    src: Source,
    cfg: Config,
    s: ParseSettings,
) -> Parsed<StmtV>
    decreases src.left(cfg.cursor), 2nat,
{
    let c = cfg.cursor;
    if !s.within(cfg.state.max_expr_depth) {
        fail(too_deep(s.pos), cfg)
    } else if c >= src.tokens.len() {
        halt(cfg)
    } else {
        let s1 = at_pos(s, src.at(c).1);
        match statement_expr_fault(src.at(c + 1), "a boolean"@) {
            Some(err) => fail(err, moved(cfg, c + 1)),
            None => {
                let g = onward(g_expr(engine, src, moved(cfg, c + 1), deeper(s1)), c + 1);
                match g.result {
                    Err(err) => fail(err, g.after),
                    Ok(guard) => match assignment_fault(src.at(g.after.cursor)) {
                        Some(err) => fail(err, g.after),
                        None => {
                            let b = onward(g_block(engine, src, g.after, deeper(s1)), c + 1);
                            match b.result {
                                Err(err) => fail(err, b.after),
                                Ok(body) => {
                                    let e = g_else(engine, src, b.after, s1);
                                    match e.result {
                                        Err(err) => fail(err, e.after),
                                        Ok(other) => ok(
                                            StmtV::If(
                                                guard,
                                                Box::new(body),
                                                match other {
                                                    Some(o) => Some(Box::new(o)),
                                                    None => None,
                                                },
                                                s1.pos,
                                            ),
                                            e.after,
                                        ),
                                    }
                                },
                            }
                        },
                    },
                }
            },
        }
    }
}

/// `while guard { ... }` or `loop { ... }`.
#[verifier::opaque]
pub open spec fn g_while<P: SyntaxParser>(
    engine: &Engine<P>,
    src: Source,
    cfg: Config,
    s: ParseSettings,
) -> Parsed<StmtV>
    decreases src.left(cfg.cursor), 2nat,
{
    let c = cfg.cursor;
    let t = src.at(c);
    if !s.within(cfg.state.max_expr_depth) {
        fail(too_deep(s.pos), cfg)
    } else if c >= src.tokens.len() {
        halt(cfg)
    } else {
        let g: Parsed<ExprV> = if t.0 is Loop {
            ok(ExprV::BoolConstant(true, t.1), moved(cfg, c + 1))
        } else {
            match statement_expr_fault(src.at(c + 1), "a boolean"@) {
                Some(err) => fail(err, moved(cfg, c + 1)),
                None => onward(g_expr(engine, src, moved(cfg, c + 1), deeper(s)), c + 1),
            }
        };
        match g.result {
            Err(err) => fail(err, g.after),
            Ok(guard) => match assignment_fault(src.at(g.after.cursor)) {
                Some(err) => fail(err, g.after),
                None => {
                    let s1 = ParseSettings { pos: t.1, is_breakable: true, ..s };
                    let b = g_block(engine, src, g.after, deeper(s1));
                    match b.result {
                        Err(err) => fail(err, b.after),
                        Ok(body) => ok(StmtV::While(guard, Box::new(body), t.1), b.after),
                    }
                },
            },
        }
    }
}

/// `do { ... } while guard` or `do { ... } until guard`.
#[verifier::opaque]
pub open spec fn g_do<P: SyntaxParser>(
    engine: &Engine<P>,
    src: Source,
    cfg: Config,
    s: ParseSettings,
) -> Parsed<StmtV>
    decreases src.left(cfg.cursor), 2nat,
{
    let c = cfg.cursor;
    if !s.within(cfg.state.max_expr_depth) {
        fail(too_deep(s.pos), cfg)
    } else if c >= src.tokens.len() {
        halt(cfg)
    } else {
        let pos = src.at(c).1;
        let s1 = ParseSettings { pos, is_breakable: true, ..s };
        let b = onward(g_block(engine, src, moved(cfg, c + 1), deeper(s1)), c + 1);
        match b.result {
            Err(err) => fail(err, b.after),
            Ok(body) => {
                let t = src.at(b.after.cursor);
                let c1 = src.step(b.after.cursor);
                let after = moved(b.after, c1);
                if !(t.0 is While) && !(t.0 is Until) {
                    fail(missing_token("while"@, "for the do statement"@, t.1), after)
                } else {
                    match statement_expr_fault(src.at(c1), "a boolean"@) {
                        Some(err) => fail(err, after),
                        None => {
                            let s2 = ParseSettings { is_breakable: false, ..s1 };
                            let g = g_expr(engine, src, after, deeper(s2));
                            match g.result {
                                Err(err) => fail(err, g.after),
                                Ok(guard) => match assignment_fault(src.at(g.after.cursor)) {
                                    Some(err) => fail(err, g.after),
                                    None => ok(
                                        StmtV::Do(Box::new(body), guard, t.0 is While, pos),
                                        g.after,
                                    ),
                                },
                            }
                        },
                    }
                }
            },
        }
    }
}

/// `for name in iterable { ... }`.
#[verifier::opaque]
pub open spec fn g_for<P: SyntaxParser>(
    engine: &Engine<P>,
    src: Source,
    cfg: Config,
    s: ParseSettings,
) -> Parsed<StmtV>
    decreases src.left(cfg.cursor), 2nat,
{
    let c = cfg.cursor;
    if !s.within(cfg.state.max_expr_depth) {
        fail(too_deep(s.pos), cfg)
    } else if c >= src.tokens.len() {
        halt(cfg)
    } else {
        let pos = src.at(c).1;
        let s1 = at_pos(s, pos);
        let n = src.at(c + 1);
        match variable_name(n.0, n.1, true) {
            Err(err) => fail(err, moved(cfg, src.step(c + 1))),
            Ok(name) => {
                let c2 = src.step(c + 1);
                let t = src.at(c2);
                let c3 = src.step(c2);
                match t.0 {
                    Token::In => match statement_expr_fault(src.at(c3), "a boolean"@) {
                        Some(err) => fail(err, moved(cfg, c3)),
                        None => {
                            let e = onward(
                                g_expr(engine, src, moved(cfg, c3), deeper(s1)),
                                c + 1,
                            );
                            match e.result {
                                Err(err) => fail(err, e.after),
                                Ok(iterable) => {
                                    let st = st_intern(e.after.state, name);
                                    let depth = st.stack.len() as int;
                                    let pushed = ParseStateV {
                                        stack: st.stack.push((name, AccessMode::ReadWrite)),
                                        ..st
                                    };
                                    let s2 = ParseSettings { is_breakable: true, ..s1 };
                                    let b = g_block(
                                        engine,
                                        src,
                                        in_state(e.after, pushed),
                                        deeper(s2),
                                    );
                                    match b.result {
                                        Err(err) => fail(err, b.after),
                                        Ok(body) => ok(
                                            StmtV::For(iterable, name, Box::new(body), pos),
                                            in_state(
                                                b.after,
                                                ParseStateV {
                                                    stack: truncated(b.after.state.stack, depth),
                                                    ..b.after.state
                                                },
                                            ),
                                        ),
                                    }
                                },
                            }
                        },
                    },
                    Token::LexError(le) => fail(lex_err_at(le@, t.1), moved(cfg, c3)),
                    _ => fail(
                        missing_token("in"@, "after the iteration variable"@, t.1),
                        moved(cfg, c3),
                    ),
                }
            },
        }
    }
}

/// The statement that declares a variable or a constant.
pub open spec fn declaration(
    var_type: AccessMode,
    name: IdentV,
    value: Option<ExprV>,
    export: bool,
    pos: Position,
) -> StmtV {
    match var_type {
        AccessMode::ReadWrite => StmtV::Let(name, value, export, pos),
        AccessMode::ReadOnly => StmtV::Const(name, value, export, pos),
    }
}

/// The value that a declaration gives to its variable, behind `=`, if it
/// gives one.
#[verifier::opaque]
pub open spec fn g_initial_value<P: SyntaxParser>(
    engine: &Engine<P>,
    src: Source,
    cfg: Config,
    s: ParseSettings,
) -> Parsed<Option<ExprV>>
    decreases src.left(cfg.cursor), 9nat,
{
    let c = cfg.cursor;
    if src.at(c).0 is Equals {
        let e = g_expr(engine, src, moved(cfg, src.step(c)), deeper(s));
        match e.result {
            Err(err) => fail(err, e.after),
            Ok(value) => ok(Some(value), e.after),
        }
    } else {
        ok(None, cfg)
    }
}

/// `let name = value` or `const name = value`; the value may be left out.
#[verifier::opaque]
pub open spec fn g_let<P: SyntaxParser>(
    engine: &Engine<P>,
    src: Source,
    cfg: Config,
    s: ParseSettings,
    var_type: AccessMode,
    export: bool,
) -> Parsed<StmtV>
    decreases src.left(cfg.cursor), 2nat,
{
    let c = cfg.cursor;
    if !s.within(cfg.state.max_expr_depth) {
        fail(too_deep(s.pos), cfg)
    } else if c >= src.tokens.len() {
        halt(cfg)
    } else {
        let pos = src.at(c).1;
        let s1 = at_pos(s, pos);
        let n = src.at(c + 1);
        let c2 = src.step(c + 1);
        match variable_name(n.0, n.1, true) {
            Err(err) => fail(err, moved(cfg, c2)),
            Ok(name) => {
                let v = g_initial_value(engine, src, moved(cfg, c2), s1);
                match v.result {
                    Err(err) => fail(err, v.after),
                    Ok(value) => {
                        let st = st_intern(v.after.state, name);
                        ok(
                            declaration(var_type, IdentV { name, pos: n.1 }, value, export, pos),
                            in_state(
                                v.after,
                                ParseStateV { stack: st.stack.push((name, var_type)), ..st },
                            ),
                        )
                    },
                }
            },
        }
    }
}

/// `import path` or `import path as name`.
#[verifier::opaque]
pub open spec fn g_import<P: SyntaxParser>(
    engine: &Engine<P>,
    src: Source,
    cfg: Config,
    s: ParseSettings,
) -> Parsed<StmtV>
    decreases src.left(cfg.cursor), 2nat,
{
    let c = cfg.cursor;
    if !s.within(cfg.state.max_expr_depth) {
        fail(too_deep(s.pos), cfg)
    } else if c >= src.tokens.len() {
        halt(cfg)
    } else {
        let pos = src.at(c).1;
        let e = g_expr(engine, src, moved(cfg, c + 1), deeper(at_pos(s, pos)));
        match e.result {
            Err(err) => fail(err, e.after),
            Ok(path) => {
                let c1 = e.after.cursor;
                if !(src.at(c1).0 is As) {
                    ok(StmtV::Import(path, None, pos), e.after)
                } else {
                    let n = src.at(src.step(c1));
                    let after = moved(e.after, src.step(src.step(c1)));
                    match variable_name(n.0, n.1, true) {
                        Err(err) => fail(err, after),
                        Ok(name) => {
                            let st = st_intern(e.after.state, name);
                            ok(
                                StmtV::Import(path, Some(IdentV { name, pos: n.1 }), pos),
                                in_state(
                                    after,
                                    ParseStateV { modules: st.modules.push(name), ..st },
                                ),
                            )
                        },
                    }
                }
            },
        }
    }
}

/// The statement with its position changed, if it declares a variable or
/// a constant.
pub open spec fn declared_at(st: StmtV, pos: Position) -> StmtV {
    match st {
        StmtV::Let(name, value, export, _) => StmtV::Let(name, value, export, pos),
        StmtV::Const(name, value, export, _) => StmtV::Const(name, value, export, pos),
        _ => st,
    }
}

/// `export name as alias, ...`, or `export let ...` and `export const
/// ...`.
#[verifier::opaque]
pub open spec fn g_export<P: SyntaxParser>(
    engine: &Engine<P>,
    src: Source,
    cfg: Config,
    s: ParseSettings,
) -> Parsed<StmtV>
    decreases src.left(cfg.cursor), 3nat,
{
    let c = cfg.cursor;
    if !s.within(cfg.state.max_expr_depth) {
        fail(too_deep(s.pos), cfg)
    } else if c >= src.tokens.len() {
        halt(cfg)
    } else {
        let pos = src.at(c).1;
        let s1 = at_pos(s, pos);
        let t = src.at(c + 1);
        if t.0 is Let || t.0 is Const {
            let d = g_let(
                engine,
                src,
                moved(cfg, c + 1),
                s1,
                if t.0 is Let {
                    AccessMode::ReadWrite
                } else {
                    AccessMode::ReadOnly
                },
                true,
            );
            match d.result {
                Err(err) => fail(err, d.after),
                Ok(stmt) => ok(declared_at(stmt, t.1), d.after),
            }
        } else {
            g_export_items(src, moved(cfg, c + 1), pos, Seq::empty())
        }
    }
}

/// The names of an export list that come after `items`, and the list.
#[verifier::opaque]
pub open spec fn g_export_items(
    src: Source,
    cfg: Config,
    pos: Position,
    items: Seq<(IdentV, Option<IdentV>)>,
) -> Parsed<StmtV>
    decreases src.left(cfg.cursor),
{
    let c = cfg.cursor;
    let n = src.at(c);
    match variable_name(n.0, n.1, true) {
        Err(err) => fail(err, moved(cfg, src.step(c))),
        Ok(id) => if c >= src.tokens.len() {
            halt(cfg)
        } else {
            let renamed: Parsed<Option<IdentV>> = if src.at(c + 1).0 is As {
                let a = src.at(src.step(c + 1));
                let after = moved(cfg, src.step(src.step(c + 1)));
                match variable_name(a.0, a.1, true) {
                    Err(err) => fail(err, after),
                    Ok(alias) => ok(
                        Some(IdentV { name: alias, pos: a.1 }),
                        in_state(after, st_intern(cfg.state, alias)),
                    ),
                }
            } else {
                ok(None, moved(cfg, c + 1))
            };
            match renamed.result {
                Err(err) => fail(err, renamed.after),
                Ok(rename) => {
                    let after = in_state(renamed.after, st_intern(renamed.after.state, id));
                    let all = items.push((IdentV { name: id, pos: n.1 }, rename));
                    let c1 = after.cursor;
                    let t = src.at(c1);
                    match t.0 {
                        Token::Comma => if src.step(c1) > c {
                            g_export_items(src, moved(after, src.step(c1)), pos, all)
                        } else {
                            halt(after)
                        },
                        Token::Identifier(_) => fail(
                            missing_token(","@, "to separate the list of exports"@, t.1),
                            after,
                        ),
                        _ => ok(StmtV::Export(all, pos), after),
                    }
                },
            }
        },
    }
}

/// The variable of a `catch` in parentheses, if there is one.
#[verifier::opaque]
pub open spec fn g_catch_variable(src: Source, cfg: Config) -> Parsed<Option<IdentV>> {
    let c2 = cfg.cursor;
    if src.at(c2).0 is LeftParen {
        let n = src.at(src.step(c2));
        let c4 = src.step(src.step(c2));
        match n.0 {
            Token::Identifier(name) => {
                let close = src.at(c4);
                let after = in_state(moved(cfg, c4), st_intern(cfg.state, name@));
                if close.0 is RightParen {
                    ok(Some(IdentV { name: name@, pos: n.1 }), moved(after, src.step(c4)))
                } else {
                    fail(missing_token(")"@, "to enclose the catch variable"@, close.1), after)
                }
            },
            _ => fail(err_at(ParseErrorTypeV::VariableExpected, n.1), moved(cfg, c4)),
        }
    } else {
        ok(None, cfg)
    }
}

/// `try { ... } catch (name) { ... }`; the name in parentheses may be left
/// out.
#[verifier::opaque]
pub open spec fn g_try<P: SyntaxParser>(
    engine: &Engine<P>,
    src: Source,
    cfg: Config,
    s: ParseSettings,
) -> Parsed<StmtV>
    decreases src.left(cfg.cursor), 2nat,
{
    let c = cfg.cursor;
    if !s.within(cfg.state.max_expr_depth) {
        fail(too_deep(s.pos), cfg)
    } else if c >= src.tokens.len() {
        halt(cfg)
    } else {
        let pos = src.at(c).1;
        let s1 = at_pos(s, pos);
        let b = onward(g_block(engine, src, moved(cfg, c + 1), deeper(s1)), c + 1);
        match b.result {
            Err(err) => fail(err, b.after),
            Ok(body) => {
                let c1 = b.after.cursor;
                let catch = src.at(c1);
                if !(catch.0 is Catch) {
                    fail(missing_token("catch"@, "for the 'try' statement"@, catch.1), b.after)
                } else {
                    let v = g_catch_variable(src, moved(b.after, src.step(c1)));
                    match v.result {
                        Err(err) => fail(err, v.after),
                        Ok(var_def) => {
                            let h = g_block(engine, src, onward(v, c + 1).after, deeper(s1));
                            match h.result {
                                Err(err) => fail(err, h.after),
                                Ok(handler) => ok(
                                    StmtV::TryCatch(
                                        Box::new(body),
                                        var_def,
                                        Box::new(handler),
                                        pos,
                                        catch.1,
                                    ),
                                    h.after,
                                ),
                            }
                        },
                    }
                }
            },
        }
    }
}

/// The error for a token that cannot name a function.
pub open spec fn fn_name_error(token: Token, pos: Position) -> ParseErrorV {
    match token {
        Token::Reserved(s) => err_at(ParseErrorTypeV::Reserved(s@), pos),
        _ => err_at(ParseErrorTypeV::FnMissingName, pos),
    }
}

/// The context of the error for parameters that do not end.
pub open spec fn unclosed_params(name: Seq<char>) -> Seq<char> {
    "to close the parameters list of function '"@ + name + "'"@
}

/// The context of the error for parameters without a comma between them.
pub open spec fn unseparated_params(name: Seq<char>) -> Seq<char> {
    "to separate the parameters of function '"@ + name + "'"@
}

/// Does the token close a list of parameters? Those of an anonymous
/// function stand between bars, the others in parentheses.
pub open spec fn closes_params(token: Token, anonymous: bool) -> bool {
    if anonymous {
        token is Pipe
    } else {
        token is RightParen
    }
}

/// The error for parameters that do not end.
pub open spec fn unclosed_error(name: Seq<char>, anonymous: bool) -> ParseErrorTypeV {
    if anonymous {
        ParseErrorTypeV::MissingToken(
            "|"@,
            "to close the parameters list of anonymous function"@,
        )
    } else {
        ParseErrorTypeV::MissingToken(")"@, unclosed_params(name))
    }
}

/// The error for parameters without a comma between them.
pub open spec fn unseparated_error(name: Seq<char>, anonymous: bool) -> ParseErrorTypeV {
    if anonymous {
        ParseErrorTypeV::MissingToken(","@, "to separate the parameters of anonymous function"@)
    } else {
        ParseErrorTypeV::MissingToken(","@, unseparated_params(name))
    }
}

/// The parameters of the function `name` from the first on: the names
/// between commas up to the closing token. Each parameter is a variable in
/// scope. An anonymous function has the empty name.
#[verifier::opaque]
pub open spec fn g_params(
    src: Source,
    cfg: Config,
    params: Seq<Seq<char>>,
    name: Seq<char>,
    anonymous: bool,
) -> Parsed<Seq<Seq<char>>>
    decreases src.left(cfg.cursor),
{
    let c = cfg.cursor;
    let t = src.at(c);
    let after = moved(cfg, src.step(c));
    if closes_params(t.0, anonymous) {
        ok(params, after)
    } else {
        match t.0 {
            Token::Identifier(param) => if has_param(params, param@) {
                fail(err_at(ParseErrorTypeV::FnDuplicatedParam(name, param@), t.1), after)
            } else if c >= src.tokens.len() {
                halt(cfg)
            } else {
                let st = st_intern(cfg.state, param@);
                let pushed = in_state(
                    after,
                    ParseStateV { stack: st.stack.push((param@, AccessMode::ReadWrite)), ..st },
                );
                let all = params.push(param@);
                let sep = src.at(c + 1);
                let next = moved(pushed, src.step(c + 1));
                if closes_params(sep.0, anonymous) {
                    ok(all, next)
                } else {
                    match sep.0 {
                        Token::Comma => g_params(src, next, all, name, anonymous),
                        Token::LexError(le) => fail(lex_err_at(le@, sep.1), next),
                        _ => fail(err_at(unseparated_error(name, anonymous), sep.1), next),
                    }
                }
            },
            Token::LexError(le) => fail(lex_err_at(le@, t.1), after),
            _ => fail(err_at(unclosed_error(name, anonymous), t.1), after),
        }
    }
}

/// The names of the captured variables that are no parameters.
pub open spec fn free_names(externals: Seq<(Seq<char>, Position)>, params: Seq<Seq<char>>) -> Seq<
    Seq<char>,
>
    decreases externals.len(),
{
    if externals.len() == 0 {
        Seq::empty()
    } else {
        let rest = free_names(externals.drop_last(), params);
        if has_param(params, externals.last().0) {
            rest
        } else {
            rest.push(externals.last().0)
        }
    }
}

/// The body of the function `name` with the given parameters, which is a
/// block, and the function that it makes.
#[verifier::opaque]
pub open spec fn g_fn_body<P: SyntaxParser>(
    engine: &Engine<P>,
    src: Source,
    cfg: Config,
    s: ParseSettings,
    access: FnAccess,
    comments: Seq<Seq<char>>,
    name: Seq<char>,
    params: Seq<Seq<char>>,
) -> Parsed<ScriptFnDefV>
    decreases src.left(cfg.cursor), 14nat,
{
    let b = src.at(cfg.cursor);
    if !(b.0 is LeftBrace) {
        fail(err_at(ParseErrorTypeV::FnMissingBody(name), b.1), cfg)
    } else {
        let s1 = ParseSettings { is_breakable: false, ..s };
        let body = g_block(engine, src, cfg, deeper(s1));
        match body.result {
            Err(err) => fail(err, body.after),
            Ok(block) => ok(
                ScriptFnDefV {
                    name,
                    access,
                    params,
                    externals: if engine.closures {
                        free_names(body.after.state.externals, params)
                    } else {
                        Seq::empty()
                    },
                    body: block,
                    comments,
                },
                body.after,
            ),
        }
    }
}

/// The definition of a function from its name on: the name, the parameters
/// in parentheses, and the body, which is a block.
#[verifier::opaque]
pub open spec fn g_fn<P: SyntaxParser>(
    engine: &Engine<P>,
    src: Source,
    cfg: Config,
    s: ParseSettings,
    access: FnAccess,
    comments: Seq<Seq<char>>,
) -> Parsed<ScriptFnDefV>
    decreases src.left(cfg.cursor), 2nat,
{
    let c = cfg.cursor;
    let t = src.at(c);
    if !s.within(cfg.state.max_expr_depth) {
        fail(too_deep(s.pos), cfg)
    } else {
        match t.0.function_name_spec() {
            None => fail(fn_name_error(t.0, t.1), moved(cfg, src.step(c))),
            Some(name) => if c >= src.tokens.len() {
                halt(cfg)
            } else {
                let open = src.at(c + 1);
                if !(open.0 is LeftParen) {
                    fail(err_at(ParseErrorTypeV::FnMissingParams(name), open.1), moved(cfg, c + 1))
                } else {
                    let p = onward(
                        g_params(src, moved(cfg, src.step(c + 1)), Seq::empty(), name, false),
                        c + 1,
                    );
                    match p.result {
                        Err(err) => fail(err, p.after),
                        Ok(params) => g_fn_body(
                            engine,
                            src,
                            p.after,
                            s,
                            access,
                            comments,
                            name,
                            params,
                        ),
                    }
                }
            },
        }
    }
}

/// The variables that a closure captures, as names with the positions of
/// their first use. Where closures are switched off there are none.
pub open spec fn captured_idents(externals: Seq<(Seq<char>, Position)>, closures: bool) -> Seq<
    IdentV,
> {
    if closures {
        Seq::new(externals.len(), |i: int| IdentV { name: externals[i].0, pos: externals[i].1 })
    } else {
        Seq::empty()
    }
}

/// An anonymous function: the parameters between bars, then the body,
/// which is one statement. The result is the expression that stands where
/// the function is written, and the function.
#[verifier::opaque]
pub open spec fn g_anon_fn<P: SyntaxParser>(
    engine: &Engine<P>,
    src: Source,
    cfg: Config,
    s: ParseSettings,
) -> Parsed<(ExprV, ScriptFnDefV)>
    decreases src.left(cfg.cursor), 2nat,
{
    let c = cfg.cursor;
    let t = src.at(c);
    if !s.within(cfg.state.max_expr_depth) {
        fail(too_deep(s.pos), cfg)
    } else if c >= src.tokens.len() {
        halt(cfg)
    } else {
        let p: Parsed<Seq<Seq<char>>> = if t.0 is Or {
            ok(Seq::empty(), moved(cfg, c + 1))
        } else {
            onward(
                g_params(src, moved(cfg, c + 1), Seq::empty(), Seq::empty(), true),
                c + 1,
            )
        };
        match p.result {
            Err(err) => fail(err, p.after),
            Ok(params) => {
                let s1 = ParseSettings { is_breakable: false, ..s };
                let b = g_stmt(engine, src, p.after, deeper(s1));
                match b.result {
                    Err(err) => fail(err, b.after),
                    Ok(body) => {
                        let name = anon_fn_name(b.after.state.script_hash, s.pos);
                        let captures = captured_idents(b.after.state.externals, engine.closures);
                        ok(
                            (
                                curry_expr(
                                    ExprV::FnPointer(name, s.pos),
                                    captures,
                                    s.pos,
                                    engine.closures,
                                ),
                                ScriptFnDefV {
                                    name,
                                    access: FnAccess::Public,
                                    params: ident_names(captures) + params,
                                    externals: Seq::empty(),
                                    body,
                                    comments: Seq::empty(),
                                },
                            ),
                            b.after,
                        )
                    },
                }
            },
        }
    }
}

/// The doc-comments from place `c` on, and the place behind them. They may
/// stand at global level only, and only in front of a function definition.
#[verifier::opaque]
pub open spec fn g_doc_comments(
    src: Source,
    c: int,
    is_global: bool,
    first: Position,
    comments: Seq<Seq<char>>,
) -> (Result<Seq<Seq<char>>, ParseErrorV>, int)
    decreases src.left(c),
{
    let t = src.at(c);
    match t.0 {
        Token::Comment(text) => {
            let pos = if comments.len() == 0 || first == Position::none() {
                t.1
            } else {
                first
            };
            if !is_global {
                (Err(err_at(ParseErrorTypeV::WrongDocComment, pos)), c)
            } else if c >= src.tokens.len() {
                (Err(err_at(ParseErrorTypeV::WrongDocComment, pos)), c)
            } else {
                let n = src.at(c + 1);
                match n.0 {
                    Token::Fn | Token::Private => (Ok(comments.push(text@)), c + 1),
                    Token::Comment(_) => g_doc_comments(
                        src,
                        c + 1,
                        is_global,
                        pos,
                        comments.push(text@),
                    ),
                    _ => (Err(err_at(ParseErrorTypeV::WrongDocComment, pos)), c + 1),
                }
            }
        },
        _ => (Ok(comments), c),
    }
}

/// `fn ...` or `private fn ...`. The function is parsed in a scope of its
/// own and kept in the library.
#[verifier::opaque]
pub open spec fn g_fn_definition<P: SyntaxParser>(
    engine: &Engine<P>,
    src: Source,
    cfg: Config,
    comments: Seq<Seq<char>>,
) -> Parsed<StmtV>
    decreases src.left(cfg.cursor), 3nat,
{
    let c = cfg.cursor;
    let private = src.at(c).0 is Private;
    let c1 = if private {
        src.step(c)
    } else {
        c
    };
    let t = src.at(c1);
    if c >= src.tokens.len() {
        halt(cfg)
    } else if !(t.0 is Fn) {
        fail(missing_token("fn"@, "following 'private'"@, t.1), moved(cfg, src.step(c1)))
    } else {
        let f = g_fn(
            engine,
            src,
            Config { cursor: src.step(c1), state: function_state(cfg.state), lib: cfg.lib },
            function_settings(t.1),
            if private {
                FnAccess::Private
            } else {
                FnAccess::Public
            },
            comments,
        );
        match f.result {
            Err(err) => fail(
                err,
                Config { cursor: f.after.cursor, state: cfg.state, lib: f.after.lib },
            ),
            Ok(def) => ok(
                StmtV::Noop(t.1),
                Config {
                    cursor: f.after.cursor,
                    state: cfg.state,
                    lib: lib_keep(f.after.lib, def),
                },
            ),
        }
    }
}

/// `return` or `throw` with the value that may follow it.
#[verifier::opaque]
pub open spec fn g_return<P: SyntaxParser>(
    engine: &Engine<P>,
    src: Source,
    cfg: Config,
    s: ParseSettings,
) -> Parsed<StmtV>
    decreases src.left(cfg.cursor), 2nat,
{
    let c = cfg.cursor;
    let t = src.at(c);
    let kind = if t.0 is Return {
        ReturnType::Return
    } else {
        ReturnType::Exception
    };
    if c >= src.tokens.len() {
        halt(cfg)
    } else {
        let n = src.at(c + 1);
        let after = moved(cfg, c + 1);
        match n.0 {
            Token::EOF => ok(StmtV::Return(kind, t.1, None, n.1), after),
            Token::SemiColon => ok(StmtV::Return(kind, t.1, None, s.pos), after),
            _ => {
                let e = g_expr(engine, src, after, deeper(s));
                match e.result {
                    Err(err) => fail(err, e.after),
                    Ok(value) => ok(
                        StmtV::Return(kind, t.1, Some(value), value.position()),
                        e.after,
                    ),
                }
            },
        }
    }
}

/// The statement that the token under the cursor leads to. The settings
/// stand at that token.
#[verifier::opaque]
pub open spec fn g_lead<P: SyntaxParser>(
    engine: &Engine<P>,
    src: Source,
    cfg: Config,
    s: ParseSettings,
    comments: Seq<Seq<char>>,
) -> Parsed<StmtV>
    decreases src.left(cfg.cursor), 11nat,
{
    let t = src.at(cfg.cursor);
    match lead_of(t.0, engine.modules) {
        Lead::Empty => ok(StmtV::Noop(t.1), moved(cfg, src.step(cfg.cursor))),
        Lead::Block => g_block(engine, src, cfg, deeper(s)),
        Lead::Function => if t.0 is Fn && !s.is_global {
            fail(err_at(ParseErrorTypeV::WrongFnDefinition, t.1), cfg)
        } else {
            g_fn_definition(engine, src, cfg, comments)
        },
        Lead::If => g_if(engine, src, cfg, deeper(s)),
        Lead::Switch => g_switch(engine, src, cfg, deeper(s)),
        Lead::While => g_while(engine, src, cfg, deeper(s)),
        Lead::Do => g_do(engine, src, cfg, deeper(s)),
        Lead::For => g_for(engine, src, cfg, deeper(s)),
        Lead::Continue => if s.is_breakable {
            ok(StmtV::Continue(t.1), moved(cfg, src.step(cfg.cursor)))
        } else {
            fail(err_at(ParseErrorTypeV::LoopBreak, t.1), cfg)
        },
        Lead::Break => if s.is_breakable {
            ok(StmtV::Break(t.1), moved(cfg, src.step(cfg.cursor)))
        } else {
            fail(err_at(ParseErrorTypeV::LoopBreak, t.1), cfg)
        },
        Lead::Return => g_return(engine, src, cfg, s),
        Lead::Try => g_try(engine, src, cfg, deeper(s)),
        Lead::Let => g_let(
            engine,
            src,
            cfg,
            deeper(s),
            AccessMode::ReadWrite,
            false,
        ),
        Lead::Const => g_let(
            engine,
            src,
            cfg,
            deeper(s),
            AccessMode::ReadOnly,
            false,
        ),
        Lead::Import => g_import(engine, src, cfg, deeper(s)),
        Lead::Export => if !s.is_global {
            fail(err_at(ParseErrorTypeV::WrongExport, t.1), cfg)
        } else {
            g_export(engine, src, cfg, deeper(s))
        },
        Lead::Expression => g_expr_stmt(engine, src, cfg, deeper(s)),
    }
}

/// One statement. At the end of the input the statement is empty.
#[verifier::opaque]
pub open spec fn g_stmt<P: SyntaxParser>(
    engine: &Engine<P>,
    src: Source,
    cfg: Config,
    s: ParseSettings,
) -> Parsed<StmtV>
    decreases src.left(cfg.cursor), 12nat,
{
    let d = g_doc_comments(src, cfg.cursor, s.is_global, Position::none(), Seq::empty());
    match d.0 {
        Err(err) => fail(err, moved(cfg, d.1)),
        Ok(comments) => {
            let c = if d.1 >= cfg.cursor {
                d.1
            } else {
                cfg.cursor
            };
            let here = moved(cfg, c);
            let t = src.at(c);
            let s1 = at_pos(s, t.1);
            if t.0 is EOF {
                ok(StmtV::Noop(t.1), here)
            } else if !s1.within(cfg.state.max_expr_depth) {
                fail(too_deep(s1.pos), here)
            } else {
                g_lead(engine, src, here, s1, comments)
            }
        },
    }
}

/// The settings under which parsing starts at global level.
pub open spec fn global_settings(statements: bool) -> ParseSettings {
    ParseSettings {
        pos: Position::none(),
        is_global: true,
        is_function_scope: false,
        is_breakable: false,
        allow_anonymous_fn: statements,
        allow_if_expr: statements,
        allow_switch_expr: statements,
        allow_stmt_expr: statements,
        level: 0,
    }
}

/// The state in which the parse of a script starts.
pub open spec fn initial_state<P: SyntaxParser>(
    engine: &Engine<P>,
    script_hash: u64,
) -> ParseStateV {
    ParseStateV {
        script_hash,
        strings: Seq::empty(),
        stack: Seq::empty(),
        entry_stack_len: 0,
        externals: Seq::empty(),
        allow_capture: true,
        modules: Seq::empty(),
        max_expr_depth: engine.max_expr_depth,
        max_function_expr_depth: engine.max_function_expr_depth,
    }
}

/// The statements of a script at global level that come after
/// `statements`.
#[verifier::opaque]
pub open spec fn g_global<P: SyntaxParser>(
    engine: &Engine<P>,
    src: Source,
    cfg: Config,
    statements: Seq<StmtV>,
) -> Parsed<Seq<StmtV>>
    decreases src.left(cfg.cursor), 13nat,
{
    let c = cfg.cursor;
    if src.at(c).0 is EOF {
        ok(statements, cfg)
    } else {
        let o = onward(g_stmt(engine, src, cfg, global_settings(true)), c);
        match o.result {
            Err(err) => fail(err, o.after),
            Ok(stmt) => if !progress(src, c, o.after.cursor) {
                halt(o.after)
            } else if stmt is Noop {
                g_global(engine, src, o.after, statements)
            } else {
                let need = !stmt.is_self_terminated();
                let c1 = o.after.cursor;
                let t1 = src.at(c1);
                let all = statements.push(stmt);
                match t1.0 {
                    Token::EOF => ok(all, o.after),
                    Token::SemiColon => g_global(
                        engine,
                        src,
                        moved(
                            o.after,
                            if need {
                                src.step(c1)
                            } else {
                                c1
                            },
                        ),
                        all,
                    ),
                    Token::LexError(le) => if need {
                        fail(lex_err_at(le@, t1.1), o.after)
                    } else {
                        g_global(engine, src, o.after, all)
                    },
                    _ => if need {
                        fail(
                            missing_token(";"@, "to terminate this statement"@, t1.1),
                            o.after,
                        )
                    } else {
                        g_global(engine, src, o.after, all)
                    },
                }
            },
        }
    }
}

/// The functions of a library, in the order in which they were first
/// defined.
pub open spec fn lib_defs(lib: Seq<(u64, ScriptFnDefV)>) -> Seq<ScriptFnDefV> {
    Seq::new(lib.len(), |i: int| lib[i].1)
}

/// The script that consists of one expression.
pub open spec fn script_of(r: Result<ExprV, ParseErrorV>) -> Result<
    (Seq<StmtV>, Seq<ScriptFnDefV>),
    ParseErrorV,
> {
    match r {
        Ok(e) => Ok((seq![StmtV::Expr(e)], Seq::empty())),
        Err(err) => Err(err),
    }
}

/// A script, which starts at place `from`: its statements at global level
/// and the functions that it defines.
#[verifier::opaque]
pub open spec fn g_script<P: SyntaxParser>(
    engine: &Engine<P>,
    src: Source,
    from: int,
    script_hash: u64,
) -> Result<
    (Seq<StmtV>, Seq<ScriptFnDefV>),
    ParseErrorV,
> {
    let p = g_global(
        engine,
        src,
        Config { cursor: from, state: initial_state(engine, script_hash), lib: Seq::empty() },
        Seq::empty(),
    );
    match p.result {
        Err(err) => Err(err),
        Ok(statements) => Ok((statements, lib_defs(p.after.lib))),
    }
}

/// A script that consists of one expression and starts at place `from`.
#[verifier::opaque]
pub open spec fn g_script_expr<P: SyntaxParser>(
    engine: &Engine<P>,
    src: Source,
    from: int,
    script_hash: u64,
) -> Result<
    ExprV,
    ParseErrorV,
> {
    let p = g_expr(
        engine,
        src,
        Config { cursor: from, state: initial_state(engine, script_hash), lib: Seq::empty() },
        global_settings(false),
    );
    match p.result {
        Err(err) => Err(err),
        Ok(e) => {
            let t = src.at(p.after.cursor);
            if t.0 is EOF {
                Ok(e)
            } else {
                Err(lex_err_at(LexErrorV::UnexpectedInput(t.0.syntax_spec()), t.1))
            }
        },
    }
}

} // verus!

