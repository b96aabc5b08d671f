//! Expressions of custom syntax.

use vstd::prelude::*;
use crate::ast::{
    CustomExpr, CustomExprV, Expr, ExprV, Ident, Stmt, StmtV, expr_views, lemma_expr_views_push,
    string_views,
};
use crate::block::parse_block;
use crate::builder::expr_result;
use crate::engine::SyntaxParser;
use crate::error::{ParseError, ParseErrorType, ParseErrorV};
use crate::grammar::{
    Config, Parsed, Source, g_block, g_custom, g_expr, lib_view, ok, source_of, with_scope_delta,
};
use crate::operator::parse_expr;
use crate::parser::{
    FunctionsLib, apply_scope_delta, config_of, kept, next_variable_name, ready, yields,
};
use crate::position::Position;
use crate::state::{ParseSettings, ParseState, ParseStateV};
use crate::strings::{concat3, str_eq};
use crate::token::{Token, TokenStream};

verus! {

/// What has been matched of an expression of a custom syntax.
pub struct Matched {
    /// The segments as the hook sees them: the first keyword, the names of
    /// variables, the reserved names of expressions and blocks, and the
    /// texts of tokens.
    pub segments: Vec<String>,
    /// The segments as they are kept: like `segments`, with `$ident$` for
    /// the name of a variable.
    pub tokens: Vec<String>,
    /// The variables, expressions and blocks that were matched.
    pub keywords: Vec<Expr>,
}

/// The mathematical value of a [`Matched`].
pub ghost struct MatchedV {
    pub segments: Seq<Seq<char>>,
    pub tokens: Seq<Seq<char>>,
    pub keywords: Seq<ExprV>,
}

impl View for Matched {
    type V = MatchedV;

    open spec fn view(&self) -> MatchedV {
        MatchedV {
            segments: string_views(self.segments@),
            tokens: string_views(self.tokens@),
            keywords: expr_views(self.keywords@),
        }
    }
}

/// What the grammar makes of the rest of an expression of a custom syntax,
/// behind what has been matched.
pub open spec fn rest_of<'e, P: SyntaxParser>(
    input: TokenStream,
    state: ParseState<'e, P>,
    lib: FunctionsLib,
    src: Source,
    s: ParseSettings,
    index: usize,
    m: Matched,
    pos: Position,
) -> Parsed<ExprV> {
    g_custom(
        state.engine,
        src,
        config_of(input, state, lib),
        s,
        index as int,
        m@.segments,
        m@.tokens,
        m@.keywords,
        pos,
    )
}

/// The hook of the syntax at place `index` has asked for the segment
/// `required`, and the segments can still be counted.
pub open spec fn asked<'e, P: SyntaxParser>(
    input: TokenStream,
    state: ParseState<'e, P>,
    index: usize,
    m: Matched,
    required: Seq<char>,
) -> bool {
    &&& index < state.engine.custom_syntax@.len()
    &&& 0 < m.segments@.len() < usize::MAX
    &&& m.tokens@.len() > 0
    &&& state.engine.custom_syntax@[index as int].1.parse.answer(
        m@.segments,
        input.peek_spec().0.syntax_spec(),
    ) == Ok::<Option<Seq<char>>, ParseErrorV>(Some(required))
}

/// A segment has been matched as the grammar says: what the grammar makes
/// of the expression behind the segments before it is what it makes of the
/// expression behind the segments with it. A segment that cannot be
/// matched is the error that the grammar gives.
pub open spec fn segment_matched<'e, P: SyntaxParser>(
    r: Result<Matched, ParseError>,
    before: Parsed<ExprV>,
    m0: Matched,
    input: TokenStream,
    state0: ParseState<'e, P>,
    state: ParseState<'e, P>,
    lib: FunctionsLib,
    src: Source,
    s: ParseSettings,
    index: usize,
    pos: Position,
) -> bool {
    match r {
        Ok(m) => {
            &&& state.entry_stack_len == state0.entry_stack_len
            &&& m.segments@.len() == m0.segments@.len() + 1
            &&& m.tokens@.len() > 0
            &&& m.tokens@[0] == m0.tokens@[0]
            &&& m.segments@[0] == m0.segments@[0]
            &&& before == rest_of(input, state, lib, src, s, index, m, pos)
        },
        Err(err) => before.result == Err::<ExprV, ParseErrorV>(err@),
    }
}

/// Matches the segment `$ident$`: the name of a variable.
pub(crate) fn custom_ident<P: SyntaxParser>(
    input: &mut TokenStream,
    state: &mut ParseState<'_, P>,
    lib: &mut FunctionsLib,
    settings: ParseSettings,
    index: usize,
    required: String,
    matched: Matched,
    Ghost(pos): Ghost<Position>,
) -> (r: Result<Matched, ParseError>)
    requires
        ready(*old(input), *old(state), *old(lib), settings, 9),
        asked(*old(input), *old(state), index, matched, required@),
        required@ == "$ident$"@,
    ensures
        kept(*old(input), *final(input), *old(state), *final(state), *final(lib)),
        segment_matched(
            r,
            rest_of(
                *old(input),
                *old(state),
                *old(lib),
                source_of(*old(input)),
                settings,
                index,
                matched,
                pos,
            ),
            matched,
            *final(input),
            *old(state),
            *final(state),
            *final(lib),
            source_of(*old(input)),
            settings,
            index,
            pos,
        ),
    decreases old(input).remaining(), 9nat,
{
    proof {
        reveal(g_custom);
        reveal_strlit("$ident$");
        reveal_strlit("$expr$");
        reveal_strlit("$block$");
        assert("$ident$"@.len() == 7 && "$expr$"@.len() == 6);
        assert("$ident$"@[1] == 'i' && "$block$"@[1] == 'b');
        assert(source_of(*input).at(input.cursor as int) == input.peek_spec());
    }
    let mut matched = matched;
    let (name, name_pos) = next_variable_name(input, false)?;
    let name = state.get_interned_string(name.as_str());
    let keyword = state.get_interned_string("$ident$");
    let variable = Expr::Variable(
        Box::new((None, None, Ident { name: name.clone(), pos: name_pos })),
    );
    proof {
        lemma_expr_views_push(matched.keywords@, variable);
        assert(string_views(matched.segments@.push(name)) =~= string_views(
            matched.segments@,
        ).push(name@));
        assert(string_views(matched.tokens@.push(keyword)) =~= string_views(matched.tokens@).push(
            keyword@,
        ));
    }
    matched.segments.push(name);
    matched.tokens.push(keyword);
    matched.keywords.push(variable);
    Ok(matched)
}

/// Matches the segment `$expr$`: an expression.
#[verifier::rlimit(30)]
pub(crate) fn custom_expr<P: SyntaxParser>(
    input: &mut TokenStream,
    state: &mut ParseState<'_, P>,
    lib: &mut FunctionsLib,
    settings: ParseSettings,
    index: usize,
    required: String,
    matched: Matched,
    Ghost(pos): Ghost<Position>,
) -> (r: Result<Matched, ParseError>)
    requires
        ready(*old(input), *old(state), *old(lib), settings, 9),
        asked(*old(input), *old(state), index, matched, required@),
        required@ == "$expr$"@,
    ensures
        kept(*old(input), *final(input), *old(state), *final(state), *final(lib)),
        segment_matched(
            r,
            rest_of(
                *old(input),
                *old(state),
                *old(lib),
                source_of(*old(input)),
                settings,
                index,
                matched,
                pos,
            ),
            matched,
            *final(input),
            *old(state),
            *final(state),
            *final(lib),
            source_of(*old(input)),
            settings,
            index,
            pos,
        ),
    decreases old(input).remaining(), 9nat,
{
    proof {
        reveal(g_custom);
        reveal(g_expr);
        reveal_strlit("$ident$");
        reveal_strlit("$expr$");
        reveal_strlit("$block$");
        assert("$ident$"@.len() == 7 && "$expr$"@.len() == 6);
        assert("$ident$"@[1] == 'i' && "$block$"@[1] == 'b');
        assert(source_of(*input).at(input.cursor as int) == input.peek_spec());
    }
    let mut matched = matched;
    let mut s = settings;
    s.pos = input.peek().1;
    let e = parse_expr(input, state, lib, s.level_up())?;
    let keyword = state.get_interned_string("$expr$");
    proof {
        lemma_expr_views_push(matched.keywords@, e);
        assert(string_views(matched.segments@.push(keyword)) =~= string_views(
            matched.segments@,
        ).push(keyword@));
        assert(string_views(matched.tokens@.push(keyword)) =~= string_views(matched.tokens@).push(
            keyword@,
        ));
    }
    matched.keywords.push(e);
    matched.segments.push(keyword.clone());
    matched.tokens.push(keyword);
    Ok(matched)
}

/// The block as an expression.
fn block_expr(stmt: Stmt) -> (e: Expr)
    requires
        stmt is Block,
    ensures
        stmt@ matches StmtV::Block(statements, p) && e@ == ExprV::Stmt(statements, p),
{
    match stmt {
        Stmt::Block(statements, pos) => Expr::Stmt(statements, pos),
        _ => vstd::pervasive::unreached(),
    }
}

/// Matches the segment `$block$`: a block of statements.
pub(crate) fn custom_block<P: SyntaxParser>(
    input: &mut TokenStream,
    state: &mut ParseState<'_, P>,
    lib: &mut FunctionsLib,
    settings: ParseSettings,
    index: usize,
    required: String,
    matched: Matched,
    Ghost(pos): Ghost<Position>,
) -> (r: Result<Matched, ParseError>)
    requires
        ready(*old(input), *old(state), *old(lib), settings, 9),
        asked(*old(input), *old(state), index, matched, required@),
        required@ == "$block$"@,
    ensures
        kept(*old(input), *final(input), *old(state), *final(state), *final(lib)),
        segment_matched(
            r,
            rest_of(
                *old(input),
                *old(state),
                *old(lib),
                source_of(*old(input)),
                settings,
                index,
                matched,
                pos,
            ),
            matched,
            *final(input),
            *old(state),
            *final(state),
            *final(lib),
            source_of(*old(input)),
            settings,
            index,
            pos,
        ),
    decreases old(input).remaining(), 9nat,
{
    proof {
        reveal(g_custom);
        reveal(g_block);
        reveal_strlit("$ident$");
        reveal_strlit("$expr$");
        reveal_strlit("$block$");
        assert("$ident$"@.len() == 7 && "$expr$"@.len() == 6);
        assert("$ident$"@[1] == 'i' && "$block$"@[1] == 'b');
        assert(source_of(*input).at(input.cursor as int) == input.peek_spec());
    }
    let mut matched = matched;
    let mut s = settings;
    s.pos = input.peek().1;
    let stmt = parse_block(input, state, lib, s.level_up())?;
    let block = block_expr(stmt);
    let keyword = state.get_interned_string("$block$");
    proof {
        lemma_expr_views_push(matched.keywords@, block);
        assert(string_views(matched.segments@.push(keyword)) =~= string_views(
            matched.segments@,
        ).push(keyword@));
        assert(string_views(matched.tokens@.push(keyword)) =~= string_views(matched.tokens@).push(
            keyword@,
        ));
    }
    matched.keywords.push(block);
    matched.segments.push(keyword.clone());
    matched.tokens.push(keyword);
    Ok(matched)
}

/// Matches a segment that is the text of a token.
pub(crate) fn custom_token<P: SyntaxParser>(
    input: &mut TokenStream,
    state: &mut ParseState<'_, P>,
    lib: &mut FunctionsLib,
    settings: ParseSettings,
    index: usize,
    required: String,
    matched: Matched,
    Ghost(pos): Ghost<Position>,
) -> (r: Result<Matched, ParseError>)
    requires
        ready(*old(input), *old(state), *old(lib), settings, 9),
        asked(*old(input), *old(state), index, matched, required@),
        required@ != "$ident$"@,
        required@ != "$expr$"@,
        required@ != "$block$"@,
    ensures
        kept(*old(input), *final(input), *old(state), *final(state), *final(lib)),
        segment_matched(
            r,
            rest_of(
                *old(input),
                *old(state),
                *old(lib),
                source_of(*old(input)),
                settings,
                index,
                matched,
                pos,
            ),
            matched,
            *final(input),
            *old(state),
            *final(state),
            *final(lib),
            source_of(*old(input)),
            settings,
            index,
            pos,
        ),
    decreases old(input).remaining(), 9nat,
{
    proof {
        reveal(g_custom);
        reveal_strlit("$ident$");
        reveal_strlit("$expr$");
        reveal_strlit("$block$");
        assert("$ident$"@.len() == 7 && "$expr$"@.len() == 6);
        assert("$ident$"@[1] == 'i' && "$block$"@[1] == 'b');
        assert(source_of(*input).at(input.cursor as int) == input.peek_spec());
    }
    let mut matched = matched;
    match input.next() {
        (Token::LexError(err), err_pos) => {
            return Err(err.into_err(err_pos));
        },
        (t, t_pos) => {
            if str_eq(t.syntax().as_str(), required.as_str()) {
                proof {
                    assert(string_views(matched.segments@.push(required)) =~= string_views(
                        matched.segments@,
                    ).push(required@));
                    assert(string_views(matched.tokens@.push(required)) =~= string_views(
                        matched.tokens@,
                    ).push(required@));
                }
                matched.segments.push(required.clone());
                matched.tokens.push(required);
            } else {
                let context = concat3("for '", matched.segments[0].as_str(), "' expression");
                return Err(ParseErrorType::MissingToken(required, context).into_err(t_pos));
            }
        },
    }
    Ok(matched)
}

/// Parses the segment that the hook of a custom syntax has asked for, and
/// adds it to what has been matched.
pub(crate) fn parse_custom_segment<P: SyntaxParser>(
    input: &mut TokenStream,
    state: &mut ParseState<'_, P>,
    lib: &mut FunctionsLib,
    settings: ParseSettings,
    index: usize,
    required: String,
    matched: Matched,
    Ghost(pos): Ghost<Position>,
) -> (r: Result<Matched, ParseError>)
    requires
        ready(*old(input), *old(state), *old(lib), settings, 10),
        asked(*old(input), *old(state), index, matched, required@),
    ensures
        kept(*old(input), *final(input), *old(state), *final(state), *final(lib)),
        segment_matched(
            r,
            rest_of(
                *old(input),
                *old(state),
                *old(lib),
                source_of(*old(input)),
                settings,
                index,
                matched,
                pos,
            ),
            matched,
            *final(input),
            *old(state),
            *final(state),
            *final(lib),
            source_of(*old(input)),
            settings,
            index,
            pos,
        ),
    decreases old(input).remaining(), 10nat,
{
    proof {
        reveal_strlit("$ident$");
        reveal_strlit("$expr$");
        reveal_strlit("$block$");
    }
    if str_eq(required.as_str(), "$ident$") {
        custom_ident(input, state, lib, settings, index, required, matched, Ghost(pos))
    } else if str_eq(required.as_str(), "$expr$") {
        custom_expr(input, state, lib, settings, index, required, matched, Ghost(pos))
    } else if str_eq(required.as_str(), "$block$") {
        custom_block(input, state, lib, settings, index, required, matched, Ghost(pos))
    } else {
        custom_token(input, state, lib, settings, index, required, matched, Ghost(pos))
    }
}

/// Parses an expression of the custom syntax at place `index` of the
/// engine, whose first keyword has just been consumed. The hook of the
/// syntax is asked again and again for the segment that must come next,
/// until it asks for none: `$ident$` for a name, `$expr$` for an
/// expression, `$block$` for a block, anything else for the token of that
/// text. A hook that asks on until the segments can no longer be counted is
/// cut off.
pub fn parse_custom_syntax<P: SyntaxParser>(
    input: &mut TokenStream,
    state: &mut ParseState<'_, P>,
    lib: &mut FunctionsLib,
    settings: ParseSettings,
    index: usize,
    pos: Position,
) -> (r: Result<Expr, ParseError>)
    requires
        ready(*old(input), *old(state), *old(lib), settings, 11),
        index < old(state).engine.custom_syntax@.len(),
    ensures
        kept(*old(input), *final(input), *old(state), *final(state), *final(lib)),
        r is Ok ==> final(state).entry_stack_len == old(state).entry_stack_len,
        r matches Ok(e) ==> (e@ matches ExprV::Custom(x, p) && p == pos
            && x.func == old(state).engine.custom_syntax@[index as int].1.func
            && x.tokens.len() > 0
            && x.tokens[0] == old(state).engine.custom_syntax@[index as int].0@),
        yields(
            expr_result(r),
            *final(input),
            *final(state),
            *final(lib),
            g_custom(
                old(state).engine,
                source_of(*old(input)),
                Config {
                    cursor: old(input).cursor as int,
                    state: ParseStateV {
                        stack: with_scope_delta(
                            old(state)@.stack,
                            old(state).engine.custom_syntax@[index as int].1.scope_delta as int,
                        ),
                        ..old(state)@
                    },
                    lib: lib_view(old(lib)@),
                },
                settings,
                index as int,
                seq![old(state).engine.custom_syntax@[index as int].0@],
                seq![old(state).engine.custom_syntax@[index as int].0@],
                Seq::empty(),
                pos,
            ),
        ),
    decreases old(input).remaining(), 11nat,
{
    let engine = state.engine;
    let syntax = &engine.custom_syntax[index];
    apply_scope_delta(state, syntax.1.scope_delta);
    let mut matched = Matched { segments: Vec::new(), tokens: Vec::new(), keywords: Vec::new() };
    matched.segments.push(syntax.0.clone());
    matched.tokens.push(syntax.0.clone());
    let ghost src = source_of(*old(input));
    let ghost key = syntax.0@;
    let ghost start = config_of(*input, *state, *lib);
    let ghost goal = rest_of(*input, *state, *lib, src, settings, index, matched, pos);
    proof {
        assert(matched@.segments =~= seq![key]);
        assert(matched@.tokens =~= seq![key]);
        assert(matched@.keywords =~= Seq::<ExprV>::empty());
    }
    loop
        invariant_except_break
            rest_of(*input, *state, *lib, src, settings, index, matched, pos) == goal,
        invariant
            goal == g_custom(
                engine,
                src,
                start,
                settings,
                index as int,
                seq![key],
                seq![key],
                Seq::empty(),
                pos,
            ),
            start == (Config {
                cursor: old(input).cursor as int,
                state: ParseStateV {
                    stack: with_scope_delta(
                        old(state)@.stack,
                        old(state).engine.custom_syntax@[index as int].1.scope_delta as int,
                    ),
                    ..old(state)@
                },
                lib: lib_view(old(lib)@),
            }),
            engine == old(state).engine,
            state.engine == engine,
            src == source_of(*old(input)),
            index < engine.custom_syntax@.len(),
            *syntax == engine.custom_syntax@[index as int],
            key == syntax.0@,
            kept(*old(input), *input, *old(state), *state, *lib),
            input.wf(),
            state.wf(),
            state.entry_stack_len == old(state).entry_stack_len,
            settings.fits(old(input), 11),
            matched.tokens@.len() > 0,
            matched.tokens@[0]@ == key,
            matched.segments@.len() > 0,
        ensures
            kept(*old(input), *input, *old(state), *state, *lib),
            state.entry_stack_len == old(state).entry_stack_len,
            matched.tokens@.len() > 0,
            matched.tokens@[0]@ == key,
            goal == ok(
                ExprV::Custom(
                    CustomExprV {
                        keywords: matched@.keywords,
                        func: syntax.1.func,
                        tokens: matched@.tokens,
                    },
                    pos,
                ),
                config_of(*input, *state, *lib),
            ),
        decreases input.remaining(), usize::MAX - matched.segments@.len(),
    {
        proof {
            reveal(g_custom);
            assert(src.at(input.cursor as int) == input.peek_spec());
        }
        if matched.segments.len() == usize::MAX {
            return Err(ParseErrorType::UnexpectedEOF.into_err(Position::no_position()));
        }
        let look_ahead = input.peek().0.syntax();
        let required = match syntax.1.parse.parse(&matched.segments, look_ahead.as_str()) {
            Ok(Some(segment)) => segment,
            Ok(None) => {
                break ;
            },
            Err(err) => {
                let ParseError(kind, _) = err;
                return Err((*kind).into_err(input.peek().1));
            },
        };
        matched = parse_custom_segment(
            input,
            state,
            lib,
            settings,
            index,
            required,
            matched,
            Ghost(pos),
        )?;
    }
    proof {
        assert(matched@.tokens[0] == key);
    }
    Ok(
        Expr::Custom(
            Box::new(
                CustomExpr {
                    keywords: matched.keywords,
                    func: syntax.1.func,
                    tokens: matched.tokens,
                },
            ),
            pos,
        ),
    )
}

} // verus!
