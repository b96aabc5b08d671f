use rhai::dynamic::AccessMode;
use rhai::engine::{Engine, NoSyntax};
use rhai::parser::{apply_scope_delta, lib_insert, next_variable_name, FunctionsLib};
use rhai::position::Position;
use rhai::resolver::{FileModuleResolver, Loaded, Module, ResolveError};
use rhai::state::{ParseSettings, ParseState};
use rhai::strings::{
    concat2, concat3, decimal_string, push_decimal, push_hex16, push_signed_decimal,
    signed_decimal_string,
};
use rhai::token::{
    can_override_keyword, is_doc_comment, is_keyword_function, is_valid_identifier, LexError,
    Token, TokenStream,
};

fn spot(col: u16) -> Position {
    Position::new(1, col)
}

fn scope(names: &[&str]) -> Vec<(String, AccessMode)> {
    names.iter().map(|n| (n.to_string(), AccessMode::ReadWrite)).collect()
}

#[test]
fn numbers_as_decimal_text() {
    assert_eq!(decimal_string(0), "0");
    assert_eq!(decimal_string(7), "7");
    assert_eq!(decimal_string(10), "10");
    assert_eq!(decimal_string(u64::MAX), "18446744073709551615");
    assert_eq!(signed_decimal_string(0), "0");
    assert_eq!(signed_decimal_string(-1), "-1");
    assert_eq!(signed_decimal_string(i64::MAX), "9223372036854775807");
    assert_eq!(signed_decimal_string(i64::MIN), "-9223372036854775808");
    let mut s = String::from("n=");
    push_decimal(&mut s, 305);
    push_signed_decimal(&mut s, -40);
    assert_eq!(s, "n=305-40");
}

#[test]
fn numbers_as_hexadecimal_text() {
    let mut s = String::from("x");
    push_hex16(&mut s, 0);
    assert_eq!(s, "x0000000000000000");
    let mut s = String::new();
    push_hex16(&mut s, 0x0123_4567_89ab_cdef);
    assert_eq!(s, "0123456789abcdef");
    let mut s = String::new();
    push_hex16(&mut s, u64::MAX);
    assert_eq!(s, "ffffffffffffffff");
}

#[test]
fn texts_in_a_row() {
    assert_eq!(concat2("ab", "cd"), "abcd");
    assert_eq!(concat3("a", "", "c"), "ac");
}

#[test]
fn identifiers() {
    assert!(is_valid_identifier("a"));
    assert!(is_valid_identifier("_a1"));
    assert!(is_valid_identifier("__x_y_9"));
    assert!(is_valid_identifier("Abc"));
    assert!(!is_valid_identifier(""));
    assert!(!is_valid_identifier("_"));
    assert!(!is_valid_identifier("__"));
    assert!(!is_valid_identifier("1a"));
    assert!(!is_valid_identifier("_1"));
    assert!(!is_valid_identifier("a-b"));
    assert!(!is_valid_identifier("a b"));
    assert!(!is_valid_identifier("é"));
    assert!(!is_valid_identifier("+"));
}

#[test]
fn keywords() {
    for k in [
        "print", "debug", "type_of", "eval", "Fn", "call", "curry", "is_def_var", "is_def_fn",
        "is_shared",
    ] {
        assert!(is_keyword_function(k));
    }
    assert!(!is_keyword_function("prin"));
    assert!(!is_keyword_function("printf"));
    assert!(!is_keyword_function("this"));
    assert!(can_override_keyword("print"));
    assert!(can_override_keyword("Fn"));
    assert!(!can_override_keyword("call"));
    assert!(!can_override_keyword("this"));
}

#[test]
fn doc_comments() {
    assert!(is_doc_comment("///"));
    assert!(is_doc_comment("/// text"));
    assert!(is_doc_comment("/** text */"));
    assert!(!is_doc_comment("//"));
    assert!(!is_doc_comment("// text"));
    assert!(!is_doc_comment("//// text"));
    assert!(!is_doc_comment("/* text */"));
    assert!(!is_doc_comment("/*** text */"));
    assert!(!is_doc_comment(""));
}

#[test]
fn token_texts() {
    assert_eq!(Token::IntegerConstant(-12).syntax(), "-12");
    assert_eq!(Token::FloatConstant(1.5f64.to_bits(), "1.5".to_string()).syntax(), "1.5");
    assert_eq!(Token::CharConstant('x').syntax(), "x");
    assert_eq!(Token::StringConstant("abc".to_string()).syntax(), "string");
    assert_eq!(Token::Identifier("abc".to_string()).syntax(), "abc");
    assert_eq!(Token::Reserved("var".to_string()).syntax(), "var");
    assert_eq!(Token::Custom("foo".to_string()).syntax(), "foo");
    assert_eq!(Token::Comment("/// c".to_string()).syntax(), "/// c");
    assert_eq!(Token::EOF.syntax(), "{EOF}");
    assert_eq!(Token::MapStart.syntax(), "#{");
    assert_eq!(Token::UnaryMinus.syntax(), "-");
    assert_eq!(Token::Minus.syntax(), "-");
    assert_eq!(Token::PowerOfAssign.syntax(), "**=");
    assert_eq!(Token::DoubleArrow.syntax(), "=>");
    assert_eq!(Token::LeftShiftAssign.syntax(), "<<=");
    assert_eq!(Token::Private.syntax(), "private");
    assert_eq!(
        Token::LexError(LexError::UnterminatedString).syntax(),
        "Open string is not terminated"
    );
}

#[test]
fn lexer_error_texts() {
    assert_eq!(LexError::UnexpectedInput("@".to_string()).to_text(), "Unexpected '@'");
    assert_eq!(
        LexError::StringTooLong(10).to_text(),
        "Length of string literal exceeds the maximum limit (10)"
    );
    assert_eq!(
        LexError::MalformedEscapeSequence("\\q".to_string()).to_text(),
        "Invalid escape sequence: '\\q'"
    );
    assert_eq!(LexError::MalformedNumber("1x".to_string()).to_text(), "Invalid number: '1x'");
    assert_eq!(LexError::MalformedChar("ab".to_string()).to_text(), "Invalid character: 'ab'");
    assert_eq!(
        LexError::MalformedIdentifier("_".to_string()).to_text(),
        "Variable name is not proper: '_'"
    );
    assert_eq!(
        LexError::ImproperSymbol("=".to_string(), "hint".to_string()).to_text(),
        "hint"
    );
    assert_eq!(
        LexError::ImproperSymbol("=".to_string(), String::new()).to_text(),
        "Invalid symbol encountered: '='"
    );
}

#[test]
fn token_precedence_and_grouping() {
    assert_eq!(Token::Or.precedence(), 30);
    assert_eq!(Token::Pipe.precedence(), 30);
    assert_eq!(Token::And.precedence(), 60);
    assert_eq!(Token::EqualsTo.precedence(), 90);
    assert_eq!(Token::In.precedence(), 110);
    assert_eq!(Token::LessThan.precedence(), 130);
    assert_eq!(Token::Plus.precedence(), 150);
    assert_eq!(Token::Multiply.precedence(), 180);
    assert_eq!(Token::PowerOf.precedence(), 190);
    assert_eq!(Token::LeftShift.precedence(), 210);
    assert_eq!(Token::Equals.precedence(), 0);
    assert_eq!(Token::Period.precedence(), 0);
    assert_eq!(Token::EOF.precedence(), 0);
    assert!(Token::Equals.is_bind_right());
    assert!(Token::PlusAssign.is_bind_right());
    assert!(!Token::Plus.is_bind_right());
    assert!(Token::EOF.is_eof());
    assert!(!Token::SemiColon.is_eof());
}

#[test]
fn token_sameness_and_copies() {
    let a = Token::Identifier("a".to_string());
    assert!(a.same(&a.clone_token()));
    assert!(!a.same(&Token::Identifier("b".to_string())));
    assert!(!a.same(&Token::Reserved("a".to_string())));
    assert!(Token::Plus.same(&Token::Plus));
    assert!(!Token::Plus.same(&Token::UnaryPlus));
    assert!(!Token::IntegerConstant(1).same(&Token::IntegerConstant(2)));
    let e = Token::LexError(LexError::ImproperSymbol("a".to_string(), "b".to_string()));
    assert!(e.same(&e.clone_token()));
    assert!(!e.same(&Token::LexError(LexError::ImproperSymbol("a".to_string(), "c".to_string()))));
    assert_ne!(Token::Plus.tag(), Token::UnaryPlus.tag());
    assert_eq!(e.clone_token(), e);
}

#[test]
fn function_names_from_tokens() {
    assert_eq!(
        Token::Identifier("f".to_string()).into_function_name_for_override(),
        Ok("f".to_string())
    );
    assert_eq!(
        Token::Reserved("print".to_string()).into_function_name_for_override(),
        Ok("print".to_string())
    );
    assert_eq!(
        Token::Reserved("this".to_string()).into_function_name_for_override(),
        Err(Token::Reserved("this".to_string()))
    );
    assert_eq!(
        Token::Custom("1x".to_string()).into_function_name_for_override(),
        Err(Token::Custom("1x".to_string()))
    );
    assert_eq!(Token::Plus.into_function_name_for_override(), Err(Token::Plus));
}

#[test]
fn variable_lookup_counts_from_the_top() {
    let engine = Engine::<NoSyntax>::new();
    let mut state = ParseState::new(&engine, 0, 0, 0);
    state.stack = scope(&["a", "b", "a", "c"]);
    assert_eq!(state.access_var("c", spot(1)), Some(1));
    assert_eq!(state.access_var("a", spot(1)), Some(2));
    assert_eq!(state.access_var("b", spot(1)), Some(3));
    assert_eq!(state.access_var("d", spot(1)), None);
    for (name, k) in [("c", 1usize), ("a", 2), ("b", 3)] {
        assert_eq!(state.stack[state.stack.len() - k].0, name);
    }
}

#[test]
fn variable_lookup_stops_at_a_barrier() {
    let engine = Engine::<NoSyntax>::new();
    let mut state = ParseState::new(&engine, 0, 0, 0);
    state.stack = scope(&["a", "", "b"]);
    assert_eq!(state.access_var("b", spot(1)), Some(1));
    assert_eq!(state.access_var("a", spot(2)), None);
    assert_eq!(state.access_var("x", spot(3)), None);
    assert!(state.externals.is_empty());
}

#[test]
fn unresolved_variables_are_captured_once() {
    let engine = Engine::<NoSyntax>::new();
    let mut state = ParseState::new(&engine, 0, 0, 0);
    state.stack = scope(&["a"]);
    assert_eq!(state.access_var("x", spot(1)), None);
    assert_eq!(state.access_var("a", spot(2)), Some(1));
    assert_eq!(state.access_var("y", spot(3)), None);
    assert_eq!(state.access_var("x", spot(4)), None);
    assert_eq!(
        state.externals,
        vec![("x".to_string(), spot(1)), ("y".to_string(), spot(3))]
    );
}

#[test]
fn capture_can_be_suspended_for_one_lookup() {
    let engine = Engine::<NoSyntax>::new();
    let mut state = ParseState::new(&engine, 0, 0, 0);
    state.allow_capture = false;
    assert_eq!(state.access_var("x", spot(1)), None);
    assert!(state.externals.is_empty());
    assert!(state.allow_capture);
    assert_eq!(state.access_var("x", spot(2)), None);
    assert_eq!(state.externals, vec![("x".to_string(), spot(2))]);
}

#[test]
fn capture_can_be_switched_off() {
    let mut engine = Engine::<NoSyntax>::new();
    engine.closures = false;
    let mut state = ParseState::new(&engine, 0, 0, 0);
    assert_eq!(state.access_var("x", spot(1)), None);
    assert!(state.externals.is_empty());
}

#[test]
fn modules_are_found_from_the_top() {
    let engine = Engine::<NoSyntax>::new();
    let mut state = ParseState::new(&engine, 0, 0, 0);
    state.modules = vec!["m".to_string(), "n".to_string(), "m".to_string()];
    assert_eq!(state.find_module("m"), Some(1));
    assert_eq!(state.find_module("n"), Some(2));
    assert_eq!(state.find_module("o"), None);
}

#[test]
fn strings_are_interned_once() {
    let engine = Engine::<NoSyntax>::new();
    let mut state = ParseState::new(&engine, 0, 0, 0);
    assert_eq!(state.get_interned_string("a"), "a");
    assert_eq!(state.get_interned_string("b"), "b");
    assert_eq!(state.get_interned_string("a"), "a");
    assert_eq!(state.strings, vec!["a".to_string(), "b".to_string()]);
}

#[test]
fn fresh_state() {
    let engine = Engine::<NoSyntax>::new();
    let state = ParseState::new(&engine, 9, 64, 16);
    assert_eq!(state.script_hash, 9);
    assert_eq!(state.max_expr_depth, 64);
    assert_eq!(state.max_function_expr_depth, 16);
    assert!(state.allow_capture);
    assert_eq!(state.entry_stack_len, 0);
    assert!(state.stack.is_empty() && state.modules.is_empty());
    assert!(state.strings.is_empty() && state.externals.is_empty());
}

#[test]
fn settings_levels() {
    let s = ParseSettings {
        pos: spot(3),
        is_global: true,
        is_function_scope: false,
        is_breakable: true,
        allow_anonymous_fn: false,
        allow_if_expr: true,
        allow_switch_expr: false,
        allow_stmt_expr: true,
        level: 4,
    };
    let up = s.level_up();
    assert_eq!(up, ParseSettings { level: 5, ..s });
    assert!(s.ensure_level_within_max_limit(0).is_ok());
    assert!(s.ensure_level_within_max_limit(4).is_ok());
    assert!(s.ensure_level_within_max_limit(5).is_ok());
    let e = s.ensure_level_within_max_limit(3).unwrap_err();
    assert_eq!(*e.0, rhai::error::ParseErrorType::ExprTooDeep);
    assert_eq!(e.1, spot(3));
}

#[test]
fn scope_delta_pushes_barriers_or_drops_entries() {
    let engine = Engine::<NoSyntax>::new();
    let mut state = ParseState::new(&engine, 0, 0, 0);
    state.stack = scope(&["a", "b"]);
    apply_scope_delta(&mut state, 2);
    assert_eq!(state.stack, scope(&["a", "b", "", ""]));
    apply_scope_delta(&mut state, -3);
    assert_eq!(state.stack, scope(&["a"]));
    apply_scope_delta(&mut state, 0);
    assert_eq!(state.stack, scope(&["a"]));
    apply_scope_delta(&mut state, -5);
    assert!(state.stack.is_empty());
    state.stack = scope(&["a"]);
    apply_scope_delta(&mut state, isize::MIN);
    assert!(state.stack.is_empty());
}

#[test]
fn library_replaces_in_place() {
    let def = |name: &str| rhai::ast::ScriptFnDef {
        name: name.to_string(),
        access: rhai::ast::FnAccess::Public,
        params: vec![],
        externals: vec![],
        body: rhai::ast::Stmt::Noop(spot(1)),
        comments: vec![],
    };
    let mut lib: FunctionsLib = Vec::new();
    lib_insert(&mut lib, 1, def("a"));
    lib_insert(&mut lib, 2, def("b"));
    lib_insert(&mut lib, 1, def("c"));
    assert_eq!(lib.len(), 2);
    assert_eq!(lib[0], (1, def("c")));
    assert_eq!(lib[1], (2, def("b")));
}

#[test]
fn variable_names_from_tokens() {
    let make = |t: Token| TokenStream::new(vec![(t, spot(1))], spot(2)).unwrap();
    let mut input = make(Token::Identifier("a".to_string()));
    assert_eq!(next_variable_name(&mut input, true), Ok(("a".to_string(), spot(1))));
    let mut input = make(Token::Reserved("var".to_string()));
    assert_eq!(
        *next_variable_name(&mut input, true).unwrap_err().0,
        rhai::error::ParseErrorType::Reserved("var".to_string())
    );
    let mut input = make(Token::Reserved("@".to_string()));
    assert_eq!(
        *next_variable_name(&mut input, true).unwrap_err().0,
        rhai::error::ParseErrorType::VariableExpected
    );
    let mut input = make(Token::LexError(LexError::UnterminatedString));
    assert_eq!(
        *next_variable_name(&mut input, true).unwrap_err().0,
        rhai::error::ParseErrorType::BadInput(LexError::UnterminatedString)
    );
    let mut input = make(Token::LexError(LexError::UnterminatedString));
    assert_eq!(
        *next_variable_name(&mut input, false).unwrap_err().0,
        rhai::error::ParseErrorType::VariableExpected
    );
}

#[test]
fn engine_registrations() {
    let mut engine = Engine::<NoSyntax>::new();
    assert_eq!(engine.max_expr_depth, 128);
    assert_eq!(engine.max_function_expr_depth, 32);
    assert_eq!(engine.custom_precedence("foo"), None);
    assert!(engine.register_custom_operator("foo", 3));
    assert!(engine.register_custom_operator("foo", 9));
    assert_eq!(engine.custom_precedence("foo"), Some(3));
    assert_eq!(engine.syntax_index("exec"), None);
    engine.register_custom_syntax(
        "exec",
        rhai::engine::CustomSyntax { scope_delta: 0, parse: NoSyntax, func: 1 },
    );
    assert_eq!(engine.syntax_index("exec"), Some(0));
}

#[test]
fn resolver_settings() {
    let mut r = FileModuleResolver::new();
    assert_eq!(r.base_path(), "");
    assert_eq!(r.extension(), "rhai");
    let r2 = FileModuleResolver::new_with_path("./scripts");
    assert_eq!(r2.base_path(), "./scripts");
    assert_eq!(r2.extension(), "rhai");
    let r3 = FileModuleResolver::new_with_path_and_extension("./scripts", "x");
    assert_eq!(r3.extension(), "x");
    r.set_base_path("/lib");
    r.set_extension("txt");
    assert_eq!(r.base_path(), "/lib");
    assert_eq!(r.extension(), "txt");
}

#[test]
fn resolver_cache() {
    let module = |id: &str| Module {
        id: Some(id.to_string()),
        ast: rhai::ast::AST { statements: vec![], functions: vec![] },
    };
    let mut r = FileModuleResolver::new();
    assert_eq!(r.cached("a.rhai"), None);
    r.keep("a.rhai", module("a"));
    r.keep("b.rhai", module("b"));
    assert_eq!(r.cached("a.rhai"), Some(&module("a")));
    r.keep("a.rhai", module("a2"));
    assert_eq!(r.cached("a.rhai"), Some(&module("a2")));
    assert_eq!(r.clear_cache_for_path("a.rhai"), Some(module("a2")));
    assert_eq!(r.clear_cache_for_path("a.rhai"), None);
    assert_eq!(r.cached("b.rhai"), Some(&module("b")));
    r.clear_cache();
    assert_eq!(r.cached("b.rhai"), None);
}

#[test]
fn resolver_settles_what_was_loaded() {
    let ast = || rhai::ast::AST { statements: vec![], functions: vec![] };
    let mut r = FileModuleResolver::new_with_path("lib");
    assert!(r.needs_loading("lib/a.rhai"));
    assert_eq!(
        r.resolve_loaded("lib/a.rhai", "a", spot(3), Loaded::Unreadable),
        Err(ResolveError::ModuleNotFound("a".to_string(), spot(3)))
    );
    assert!(r.needs_loading("lib/a.rhai"));
    let refused = rhai::error::ParseErrorType::UnexpectedEOF.into_err(spot(9));
    assert_eq!(
        r.resolve_loaded("lib/a.rhai", "a", spot(3), Loaded::Refused(refused.clone())),
        Err(ResolveError::InModule("a".to_string(), refused, spot(3)))
    );
    assert_eq!(r.cached("lib/a.rhai"), None);
    assert_eq!(r.resolve_loaded("lib/a.rhai", "a", spot(3), Loaded::Compiled(ast())), Ok(()));
    assert!(!r.needs_loading("lib/a.rhai"));
    assert_eq!(r.cached("lib/a.rhai"), Some(&Module { id: Some("a".to_string()), ast: ast() }));
    // what has been loaded stands, whatever comes later
    assert_eq!(r.resolve_loaded("lib/a.rhai", "other", spot(4), Loaded::Unreadable), Ok(()));
    assert_eq!(r.cached("lib/a.rhai"), Some(&Module { id: Some("a".to_string()), ast: ast() }));
}
