//! Laws of the grammar: what it makes of the smallest scripts, and where
//! it stops at the limits of the engine.

use vstd::prelude::*;
use crate::ast::{ExprV, ScriptFnDefV, StmtV};
use crate::builder::operator_precedence;
use crate::engine::{Engine, SyntaxParser};
use crate::error::ParseErrorV;
use crate::grammar::{
    Config, Lead, Source, g_array_items, g_atom, g_binary, g_doc_comments, g_expr, g_expr_stmt,
    g_global, g_lead, g_literal, g_map_items, g_op_assignment, g_operators, g_postfix, g_primary,
    g_script, g_script_expr, g_stmt, g_unary, lead_of, literal_of, moved, ok, postfix_applies,
    property_name, script_of, st_intern, too_deep, too_large,
};
use crate::position::Position;
use crate::state::ParseSettings;
use crate::token::Token;

verus! {

/// Does the token end an expression that stands before it: is it neither
/// a postfix operator for `e` nor a binary operator?
pub open spec fn ends_expression<P: SyntaxParser>(
    engine: &Engine<P>,
    e: ExprV,
    token: Token,
) -> bool {
    &&& !postfix_applies(engine, e, token)
    &&& forall|pos| #[trigger] operator_precedence(engine, token, pos) == Ok::<u8, ParseErrorV>(0)
}

/// Is the nesting level, `extra` levels further down, within the limit?
pub open spec fn within_by(settings: ParseSettings, limit: usize, extra: nat) -> bool {
    limit == 0 || settings.level + extra <= limit
}

/// Does a literal stand at the cursor, with a token behind it that ends
/// the expression?
pub open spec fn literal_alone<P: SyntaxParser>(
    engine: &Engine<P>,
    src: Source,
    c: int,
    lit: ExprV,
) -> bool {
    &&& 0 <= c < src.tokens.len()
    &&& literal_of(src.at(c).0, src.at(c).1, engine.floats) == Some(lit)
    &&& ends_expression(engine, lit, src.at(c + 1).0)
}

/// The configuration behind a literal: the cursor has moved on by one, and
/// the text of a string is interned.
pub open spec fn after_literal(src: Source, cfg: Config) -> Config {
    Config {
        cursor: cfg.cursor + 1,
        state: match src.at(cfg.cursor).0 {
            Token::StringConstant(text) => st_intern(cfg.state, text@),
            _ => cfg.state,
        },
        lib: cfg.lib,
    }
}

/// A literal that nothing follows on is a primary expression by itself.
pub proof fn lemma_literal_primary<P: SyntaxParser>(
    engine: &Engine<P>,
    src: Source,
    cfg: Config,
    s: ParseSettings,
    lit: ExprV,
)
    requires
        literal_alone(engine, src, cfg.cursor, lit),
        s.within(cfg.state.max_expr_depth),
    ensures
        g_primary(engine, src, cfg, s) == ok(lit, after_literal(src, cfg)),
{
    reveal(g_primary);
    reveal(g_atom);
    reveal(g_literal);
    reveal(g_postfix);
}

/// A literal that nothing follows on is an operand by itself.
pub proof fn lemma_literal_unary<P: SyntaxParser>(
    engine: &Engine<P>,
    src: Source,
    cfg: Config,
    s: ParseSettings,
    lit: ExprV,
)
    requires
        literal_alone(engine, src, cfg.cursor, lit),
        within_by(s, cfg.state.max_expr_depth, 1),
        s.level < usize::MAX,
    ensures
        g_unary(engine, src, cfg, s) == ok(lit, after_literal(src, cfg)),
{
    reveal(g_unary);
    reveal(g_primary);
    lemma_literal_primary(
        engine,
        src,
        cfg,
        ParseSettings { level: (s.level + 1) as usize, pos: src.at(cfg.cursor).1, ..s },
        lit,
    );
}

/// Where no binary operator stands, the operand is the whole expression.
pub proof fn lemma_no_operator<P: SyntaxParser>(
    engine: &Engine<P>,
    src: Source,
    cfg: Config,
    s: ParseSettings,
    lhs: ExprV,
)
    requires
        forall|pos| #[trigger]
            operator_precedence(engine, src.at(cfg.cursor).0, pos) == Ok::<u8, ParseErrorV>(0),
        s.within(cfg.state.max_expr_depth),
    ensures
        g_binary(engine, src, cfg, s, 1, lhs) == ok(lhs, cfg),
{
    reveal(g_binary);
    reveal(g_operators);
    let next = src.at(cfg.cursor);
    assert(operator_precedence(engine, next.0, next.1) == Ok::<u8, ParseErrorV>(0));
}

/// A literal that nothing follows on is an expression by itself, where
/// expressions may nest two levels further down.
pub proof fn lemma_literal_expr<P: SyntaxParser>(
    engine: &Engine<P>,
    src: Source,
    cfg: Config,
    s: ParseSettings,
    lit: ExprV,
)
    requires
        literal_alone(engine, src, cfg.cursor, lit),
        within_by(s, cfg.state.max_expr_depth, 2),
        s.level + 1 < usize::MAX,
    ensures
        g_expr(engine, src, cfg, s) == ok(lit, after_literal(src, cfg)),
{
    reveal(g_expr);
    reveal(g_unary);
    reveal(g_binary);
    let inner = ParseSettings { level: (s.level + 1) as usize, pos: src.at(cfg.cursor).1, ..s };
    lemma_literal_unary(engine, src, cfg, inner, lit);
    lemma_no_operator(engine, src, after_literal(src, cfg), inner, lit);
}

/// A literal that nothing follows on is an expression statement by
/// itself, where expressions may nest three levels further down.
pub proof fn lemma_literal_expr_stmt<P: SyntaxParser>(
    engine: &Engine<P>,
    src: Source,
    cfg: Config,
    s: ParseSettings,
    lit: ExprV,
)
    requires
        literal_alone(engine, src, cfg.cursor, lit),
        !src.at(cfg.cursor + 1).0.is_assignment_spec(),
        within_by(s, cfg.state.max_expr_depth, 3),
        s.level + 2 < usize::MAX,
    ensures
        g_expr_stmt(engine, src, cfg, s) == ok(StmtV::Expr(lit), after_literal(src, cfg)),
{
    reveal(g_expr_stmt);
    reveal(g_expr);
    reveal(g_op_assignment);
    let pos = src.at(cfg.cursor).1;
    let inner = ParseSettings { level: (s.level + 1) as usize, pos, ..s };
    lemma_literal_expr(engine, src, cfg, inner, lit);
}

/// A literal starts an expression.
pub proof fn lemma_literal_leads(token: Token, pos: Position, floats: bool, modules: bool)
    requires
        literal_of(token, pos, floats) is Some,
    ensures
        lead_of(token, modules) == Lead::Expression,
{
}

/// A literal leads to an expression statement.
pub proof fn lemma_literal_lead<P: SyntaxParser>(
    engine: &Engine<P>,
    src: Source,
    cfg: Config,
    s: ParseSettings,
    lit: ExprV,
    comments: Seq<Seq<char>>,
)
    requires
        literal_alone(engine, src, cfg.cursor, lit),
        !src.at(cfg.cursor + 1).0.is_assignment_spec(),
        within_by(s, cfg.state.max_expr_depth, 4),
        s.level + 3 < usize::MAX,
    ensures
        g_lead(engine, src, cfg, s, comments) == ok(StmtV::Expr(lit), after_literal(src, cfg)),
{
    reveal(g_lead);
    reveal(g_expr_stmt);
    let outer = ParseSettings { level: (s.level + 1) as usize, ..s };
    lemma_literal_expr_stmt(engine, src, cfg, outer, lit);
    lemma_literal_leads(src.at(cfg.cursor).0, src.at(cfg.cursor).1, engine.floats, engine.modules);
}

/// A literal that nothing follows on is a statement by itself, where
/// expressions may nest four levels further down.
pub proof fn lemma_literal_stmt<P: SyntaxParser>(
    engine: &Engine<P>,
    src: Source,
    cfg: Config,
    s: ParseSettings,
    lit: ExprV,
)
    requires
        literal_alone(engine, src, cfg.cursor, lit),
        !src.at(cfg.cursor + 1).0.is_assignment_spec(),
        within_by(s, cfg.state.max_expr_depth, 4),
        s.level + 3 < usize::MAX,
    ensures
        g_stmt(engine, src, cfg, s) == ok(StmtV::Expr(lit), after_literal(src, cfg)),
{
    reveal(g_stmt);
    reveal(g_doc_comments);
    reveal(g_lead);
    let pos = src.at(cfg.cursor).1;
    lemma_literal_lead(engine, src, cfg, ParseSettings { pos, ..s }, lit, Seq::empty());
    assert(moved(cfg, cfg.cursor) == cfg);
}

/// A script that consists of one literal is that literal, as a statement,
/// where expressions may nest four levels deep.
pub proof fn lemma_literal_script<P: SyntaxParser>(
    engine: &Engine<P>,
    src: Source,
    from: int,
    script_hash: u64,
    lit: ExprV,
)
    requires
        0 <= from < src.tokens.len(),
        literal_of(src.at(from).0, src.at(from).1, engine.floats) == Some(lit),
        src.at(from + 1).0 is EOF,
        engine.max_expr_depth == 0 || engine.max_expr_depth >= 4,
    ensures
        g_script(engine, src, from, script_hash) == Ok::<
            (Seq<StmtV>, Seq<ScriptFnDefV>),
            ParseErrorV,
        >((seq![StmtV::Expr(lit)], Seq::empty())),
{
    reveal(g_script);
    reveal(g_global);
    reveal(g_stmt);
    let cfg = Config {
        cursor: from,
        state: crate::grammar::initial_state(engine, script_hash),
        lib: Seq::empty(),
    };
    lemma_literal_stmt(engine, src, cfg, crate::grammar::global_settings(true), lit);
    assert(Seq::<StmtV>::empty().push(StmtV::Expr(lit)) =~= seq![StmtV::Expr(lit)]);
    assert(crate::grammar::lib_defs(Seq::empty()) =~= Seq::<ScriptFnDefV>::empty());
}

/// A script of one expression that consists of one literal is that
/// literal, where expressions may nest two levels deep.
pub proof fn lemma_literal_script_expr<P: SyntaxParser>(
    engine: &Engine<P>,
    src: Source,
    from: int,
    script_hash: u64,
    lit: ExprV,
)
    requires
        0 <= from < src.tokens.len(),
        literal_of(src.at(from).0, src.at(from).1, engine.floats) == Some(lit),
        src.at(from + 1).0 is EOF,
        engine.max_expr_depth == 0 || engine.max_expr_depth >= 2,
    ensures
        script_of(g_script_expr(engine, src, from, script_hash)) == Ok::<
            (Seq<StmtV>, Seq<ScriptFnDefV>),
            ParseErrorV,
        >((seq![StmtV::Expr(lit)], Seq::empty())),
{
    reveal(g_script_expr);
    reveal(g_expr);
    let cfg = Config {
        cursor: from,
        state: crate::grammar::initial_state(engine, script_hash),
        lib: Seq::empty(),
    };
    lemma_literal_expr(engine, src, cfg, crate::grammar::global_settings(false), lit);
}

/// A script without tokens has no statements and no functions.
pub proof fn lemma_empty_script<P: SyntaxParser>(
    engine: &Engine<P>,
    src: Source,
    from: int,
    script_hash: u64,
)
    requires
        src.at(from).0 is EOF,
    ensures
        g_script(engine, src, from, script_hash) == Ok::<
            (Seq<StmtV>, Seq<ScriptFnDefV>),
            ParseErrorV,
        >((Seq::empty(), Seq::empty())),
{
    reveal(g_script);
    reveal(g_global);
    assert(crate::grammar::lib_defs(Seq::empty()) =~= Seq::<ScriptFnDefV>::empty());
}

/// An expression that would nest deeper than the limit is refused,
/// whatever it is.
pub proof fn lemma_expr_too_deep<P: SyntaxParser>(
    engine: &Engine<P>,
    src: Source,
    cfg: Config,
    s: ParseSettings,
)
    requires
        !s.within(cfg.state.max_expr_depth),
    ensures
        g_expr(engine, src, cfg, s).result == Err::<ExprV, ParseErrorV>(too_deep(s.pos)),
{
    reveal(g_expr);
}

/// An array literal may have as many items as the engine allows: behind
/// any number of items the closing bracket ends it.
pub proof fn lemma_array_closes<P: SyntaxParser>(
    engine: &Engine<P>,
    src: Source,
    cfg: Config,
    s: ParseSettings,
    items: Seq<ExprV>,
)
    requires
        src.at(cfg.cursor).0 is RightBracket,
    ensures
        g_array_items(engine, src, cfg, s, items) == ok(
            ExprV::Array(items, s.pos),
            moved(cfg, src.step(cfg.cursor)),
        ),
{
    reveal(g_array_items);
}

/// An array literal may have no more items than the engine allows: where
/// it has that many, another item is refused.
pub proof fn lemma_array_full<P: SyntaxParser>(
    engine: &Engine<P>,
    src: Source,
    cfg: Config,
    s: ParseSettings,
    items: Seq<ExprV>,
)
    requires
        engine.max_array_size > 0,
        items.len() >= engine.max_array_size,
        !(src.at(cfg.cursor).0 is RightBracket),
        !(src.at(cfg.cursor).0 is EOF),
    ensures
        g_array_items(engine, src, cfg, s, items).result == Err::<ExprV, ParseErrorV>(
            too_large("Size of array literal"@, engine.max_array_size, src.at(cfg.cursor).1),
        ),
{
    reveal(g_array_items);
}

/// An object map literal may have as many properties as the engine
/// allows: behind any number of properties the closing brace ends it.
pub proof fn lemma_map_closes<P: SyntaxParser>(
    engine: &Engine<P>,
    src: Source,
    cfg: Config,
    s: ParseSettings,
    items: Seq<(crate::ast::IdentV, ExprV)>,
)
    requires
        src.at(cfg.cursor).0 is RightBrace,
    ensures
        g_map_items(engine, src, cfg, s, items) == ok(
            ExprV::ObjectMap(items, s.pos),
            moved(cfg, src.step(cfg.cursor)),
        ),
{
    reveal(g_map_items);
}

/// An object map literal may have no more properties than the engine
/// allows: where it has that many, another property is refused at its
/// value.
pub proof fn lemma_map_full<P: SyntaxParser>(
    engine: &Engine<P>,
    src: Source,
    cfg: Config,
    s: ParseSettings,
    items: Seq<(crate::ast::IdentV, ExprV)>,
)
    requires
        engine.max_map_size > 0,
        items.len() >= engine.max_map_size,
        property_name(src.at(cfg.cursor), items) is Ok,
        src.at(cfg.cursor + 1).0 is Colon,
        !(src.at(cfg.cursor).0 is RightBrace),
        !(src.at(cfg.cursor).0 is EOF),
    ensures
        g_map_items(engine, src, cfg, s, items).result == Err::<ExprV, ParseErrorV>(
            too_large(
                "Number of properties in object map literal"@,
                engine.max_map_size,
                src.at(src.step(cfg.cursor + 1)).1,
            ),
        ),
{
    reveal(g_map_items);
}

} // verus!
