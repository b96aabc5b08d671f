//! Whole scripts.

use vstd::prelude::*;
use crate::ast::{
    AST, Expr, ScriptFnDef, ScriptFnDefV, Stmt, StmtV, fn_def_views, lemma_stmt_views,
    lemma_stmt_views_push, stmt_views,
};
use crate::engine::{Engine, SyntaxParser};
use crate::error::{ParseError, ParseErrorV, missing};
use crate::grammar::{
    g_global, g_script, g_script_expr, g_stmt, lib_defs, lib_view, ok, script_of, source_of,
};
use crate::operator::parse_expr;
use crate::parser::{
    FunctionsLib, config_of, countable, eat_token, into_functions, lib_wf, make_global_settings,
    no_noop, one_stmt,
};
use crate::state::ParseState;
use crate::statement::parse_stmt;
use crate::token::{LexError, Token, TokenStream};

verus! {

/// What a parse has made, as values, whichever way it ended.
pub open spec fn script_result(r: Result<(Vec<Stmt>, Vec<ScriptFnDef>), ParseError>) -> Result<
    (Seq<StmtV>, Seq<ScriptFnDefV>),
    ParseErrorV,
> {
    match r {
        Ok(pair) => Ok((stmt_views(pair.0@), fn_def_views(pair.1@))),
        Err(e) => Err(e@),
    }
}

/// What a parse has made, as values, whichever way it ended.
pub open spec fn ast_result(r: Result<AST, ParseError>) -> Result<
    (Seq<StmtV>, Seq<ScriptFnDefV>),
    ParseErrorV,
> {
    match r {
        Ok(ast) => Ok((stmt_views(ast.statements@), fn_def_views(ast.functions@))),
        Err(e) => Err(e@),
    }
}


impl<P: SyntaxParser> Engine<P> {
    /// Parses a script that consists of one expression. Statements, blocks
    /// and anonymous functions have no place in it.
    pub fn parse_global_expr(&self, script_hash: u64, input: &mut TokenStream) -> (r: Result<
        AST,
        ParseError,
    >)
        requires
            self.wf(),
            old(input).wf(),
            countable(*old(input)),
        ensures
            final(input).follows(old(input)),
            r matches Ok(ast) ==> ast.statements@.len() == 1 && ast.statements@[0] is Expr
                && ast.functions@.len() == 0 && final(input).peek_spec().0 is EOF
                    && final(input).cursor > old(input).cursor,
            ast_result(r) == script_of(
                g_script_expr(self, source_of(*old(input)), old(input).cursor as int, script_hash),
            ),
    {
        proof {
            reveal(g_script_expr);
        }
        let mut functions: FunctionsLib = Vec::new();
        let mut state = ParseState::new(
            self,
            script_hash,
            self.max_expr_depth,
            self.max_function_expr_depth,
        );
        proof {
            assert(lib_view(functions@) =~= Seq::<(u64, ScriptFnDefV)>::empty());
        }
        let settings = make_global_settings(false);
        let expr = parse_expr(input, &mut state, &mut functions, settings)?;
        proof {
            assert(source_of(*input).at(input.cursor as int) == input.peek_spec());
        }
        let pos = input.peek().1;
        if !input.peek().0.is_eof() {
            let text = input.peek().0.syntax();
            return Err(LexError::UnexpectedInput(text).into_err(pos));
        }
        let ghost value = expr@;
        let statements = one_stmt(Stmt::Expr(expr));
        let none: Vec<ScriptFnDef> = Vec::new();
        proof {
            lemma_stmt_views(statements@);
            assert(stmt_views(statements@) =~= seq![StmtV::Expr(value)]);
            assert(fn_def_views(none@) =~= Seq::<ScriptFnDefV>::empty());
        }
        Ok(AST { statements, functions: none })
    }

    /// Parses the statements of a script at global level. Returns the
    /// statements that are not empty, and the functions that the script
    /// defines, in the order in which they were first defined.
    pub fn parse_global_level(&self, script_hash: u64, input: &mut TokenStream) -> (r: Result<
        (Vec<Stmt>, Vec<ScriptFnDef>),
        ParseError,
    >)
        requires
            self.wf(),
            old(input).wf(),
            countable(*old(input)),
        ensures
            final(input).follows(old(input)),
            r matches Ok(pair) ==> no_noop(pair.0@) && final(input).peek_spec().0 is EOF,
            old(input).peek_spec().0 is EOF ==> (r matches Ok(pair) && pair.0@.len() == 0
                && pair.1@.len() == 0 && *final(input) == *old(input)),
            script_result(r) == g_script(
                self,
                source_of(*old(input)),
                old(input).cursor as int,
                script_hash,
            ),
    {
        let mut statements: Vec<Stmt> = Vec::new();
        let mut functions: FunctionsLib = Vec::new();
        let mut state = ParseState::new(
            self,
            script_hash,
            self.max_expr_depth,
            self.max_function_expr_depth,
        );
        let ghost src = source_of(*old(input));
        let ghost goal = g_global(
            self,
            src,
            config_of(*old(input), state, functions),
            Seq::empty(),
        );
        proof {
            reveal(g_script);
            assert(lib_view(functions@) =~= Seq::<(u64, ScriptFnDefV)>::empty());
            assert(stmt_views(statements@) =~= Seq::<StmtV>::empty());
        }
        let ghost mut first = true;
        loop
            invariant_except_break
                first ==> statements@.len() == 0 && functions@.len() == 0 && *input == *old(input),
                g_global(
                    self,
                    src,
                    config_of(*input, state, functions),
                    stmt_views(statements@),
                ) == goal,
            invariant
                src == source_of(*old(input)),
                input.follows(old(input)),
                input.wf(),
                state.wf(),
                state.engine == self,
                state.max_expr_depth == self.max_expr_depth,
                lib_wf(functions@),
                no_noop(statements@),
                countable(*old(input)),
                !first ==> !(old(input).peek_spec().0 is EOF),
                match goal.result {
                    Ok(all) => g_script(self, src, old(input).cursor as int, script_hash) == Ok::<
                        (Seq<StmtV>, Seq<ScriptFnDefV>),
                        ParseErrorV,
                    >((all, lib_defs(goal.after.lib))),
                    Err(e) => g_script(self, src, old(input).cursor as int, script_hash) == Err::<
                        (Seq<StmtV>, Seq<ScriptFnDefV>),
                        ParseErrorV,
                    >(e),
                },
            ensures
                input.follows(old(input)),
                no_noop(statements@),
                input.peek_spec().0 is EOF,
                old(input).peek_spec().0 is EOF ==> statements@.len() == 0 && functions@.len() == 0
                    && *input == *old(input),
                goal == ok(
                    stmt_views(statements@),
                    config_of(*input, state, functions),
                ),
                g_script(self, src, old(input).cursor as int, script_hash) == Ok::<
                    (Seq<StmtV>, Seq<ScriptFnDefV>),
                    ParseErrorV,
                >((stmt_views(statements@), lib_defs(lib_view(functions@)))),
            decreases input.remaining(),
        {
            proof {
                reveal(g_global);
                reveal(g_stmt);
                assert(src.at(input.cursor as int) == input.peek_spec());
            }
            if input.peek().0.is_eof() {
                break ;
            }
            proof {
                first = false;
            }
            let settings = make_global_settings(true);
            let stmt = parse_stmt(input, &mut state, &mut functions, settings)?;
            proof {
                assert(src.at(input.cursor as int) == input.peek_spec());
            }
            if stmt.is_noop() {
                continue ;
            }
            let need_semicolon = !stmt.is_self_terminated();
            proof {
                lemma_stmt_views_push(statements@, stmt);
            }
            statements.push(stmt);
            let pos = input.peek().1;
            let next: u8 = match &input.peek().0 {
                Token::EOF => 0,
                Token::SemiColon => 1,
                Token::LexError(_) => 2,
                _ => 3,
            };
            if next == 0 {
                break ;
            } else if next == 1 {
                if need_semicolon {
                    eat_token(input, Token::SemiColon);
                }
            } else if need_semicolon {
                if next == 2 {
                    match &input.peek().0 {
                        Token::LexError(err) => {
                            return Err(err.clone_error().into_err(pos));
                        },
                        _ => {},
                    }
                }
                return Err(missing(";", "to terminate this statement", pos));
            }
        }
        let ghost lib = functions@;
        let functions = into_functions(functions);
        proof {
            assert(fn_def_views(functions@) =~= lib_defs(lib_view(lib)));
        }
        Ok((statements, functions))
    }

    /// Parses a script: its statements at global level and the functions
    /// that it defines.
    pub fn parse(&self, script_hash: u64, input: &mut TokenStream) -> (r: Result<AST, ParseError>)
        requires
            self.wf(),
            old(input).wf(),
            countable(*old(input)),
        ensures
            final(input).follows(old(input)),
            r matches Ok(ast) ==> no_noop(ast.statements@) && final(input).peek_spec().0 is EOF,
            old(input).peek_spec().0 is EOF ==> (r matches Ok(ast) && ast.statements@.len() == 0
                && ast.functions@.len() == 0),
            ast_result(r) == g_script(
                self,
                source_of(*old(input)),
                old(input).cursor as int,
                script_hash,
            ),
    {
        let (statements, functions) = self.parse_global_level(script_hash, input)?;
        Ok(AST { statements, functions })
    }
}

} // verus!
