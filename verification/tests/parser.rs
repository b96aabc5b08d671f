use rhai::ast::{BinaryExpr, Expr, FnAccess, FnCallExpr, Ident, ReturnType, Stmt, AST};
use rhai::dynamic::{AccessMode, Dynamic};
use rhai::engine::{CustomSyntax, Engine, NoSyntax, SyntaxParser};
use rhai::error::{ParseError, ParseErrorType};
use rhai::hashing::{calc_script_fn_hash, calc_value_hash, make_anon_fn_name};
use rhai::operator::parse_expr;
use rhai::parser::{
    eat_token, ensure_not_assignment, ensure_not_statement_expr, match_token, FunctionsLib,
};
use rhai::position::Position;
use rhai::state::{ParseSettings, ParseState};
use rhai::token::{LexError, Token, TokenStream};

fn at(col: usize) -> Position {
    Position::new(1, col as u16)
}

fn word(text: &str) -> Token {
    match text {
        "true" => Token::True,
        "false" => Token::False,
        "let" => Token::Let,
        "const" => Token::Const,
        "if" => Token::If,
        "else" => Token::Else,
        "switch" => Token::Switch,
        "do" => Token::Do,
        "while" => Token::While,
        "until" => Token::Until,
        "loop" => Token::Loop,
        "for" => Token::For,
        "in" => Token::In,
        "fn" => Token::Fn,
        "private" => Token::Private,
        "continue" => Token::Continue,
        "break" => Token::Break,
        "return" => Token::Return,
        "throw" => Token::Throw,
        "try" => Token::Try,
        "catch" => Token::Catch,
        "import" => Token::Import,
        "export" => Token::Export,
        "as" => Token::As,
        "_" => Token::Underscore,
        "this" | "print" | "debug" | "type_of" | "eval" | "Fn" | "call" | "curry" | "is_def_var"
        | "is_def_fn" | "is_shared" | "var" | "static" | "match" | "case" | "new" => {
            Token::Reserved(text.to_string())
        }
        _ => Token::Identifier(text.to_string()),
    }
}

fn symbol(text: &str, unary: bool) -> Option<Token> {
    Some(match text {
        "{" => Token::LeftBrace,
        "}" => Token::RightBrace,
        "(" => Token::LeftParen,
        ")" => Token::RightParen,
        "[" => Token::LeftBracket,
        "]" => Token::RightBracket,
        "+" if unary => Token::UnaryPlus,
        "+" => Token::Plus,
        "-" if unary => Token::UnaryMinus,
        "-" => Token::Minus,
        "*" => Token::Multiply,
        "/" => Token::Divide,
        "%" => Token::Modulo,
        "**" => Token::PowerOf,
        "<<" => Token::LeftShift,
        ">>" => Token::RightShift,
        ";" => Token::SemiColon,
        ":" => Token::Colon,
        "::" => Token::DoubleColon,
        "=>" => Token::DoubleArrow,
        "," => Token::Comma,
        "." => Token::Period,
        "#{" => Token::MapStart,
        "=" => Token::Equals,
        "<" => Token::LessThan,
        ">" => Token::GreaterThan,
        "<=" => Token::LessThanEqualsTo,
        ">=" => Token::GreaterThanEqualsTo,
        "==" => Token::EqualsTo,
        "!=" => Token::NotEqualsTo,
        "!" => Token::Bang,
        "|" => Token::Pipe,
        "||" => Token::Or,
        "^" => Token::XOr,
        "&" => Token::Ampersand,
        "&&" => Token::And,
        "+=" => Token::PlusAssign,
        "-=" => Token::MinusAssign,
        "*=" => Token::MultiplyAssign,
        "/=" => Token::DivideAssign,
        "<<=" => Token::LeftShiftAssign,
        ">>=" => Token::RightShiftAssign,
        "&=" => Token::AndAssign,
        "|=" => Token::OrAssign,
        "^=" => Token::XOrAssign,
        "%=" => Token::ModuloAssign,
        "**=" => Token::PowerOfAssign,
        "@" | "$" | "~" | "?" => Token::Reserved(text.to_string()),
        _ => return None,
    })
}

fn ends_operand(token: Option<&Token>) -> bool {
    matches!(
        token,
        Some(Token::IntegerConstant(_))
            | Some(Token::FloatConstant(_, _))
            | Some(Token::Identifier(_))
            | Some(Token::Reserved(_))
            | Some(Token::CharConstant(_))
            | Some(Token::StringConstant(_))
            | Some(Token::True)
            | Some(Token::False)
            | Some(Token::RightParen)
            | Some(Token::RightBracket)
            | Some(Token::RightBrace)
    )
}

fn tokens_of(script: &str) -> Vec<(Token, Position)> {
    let chars: Vec<char> = script.chars().collect();
    let mut out: Vec<(Token, Position)> = Vec::new();
    let mut i = 0;
    while i < chars.len() {
        let c = chars[i];
        let pos = at(i + 1);
        if c.is_whitespace() {
            i += 1;
        } else if c == '/' && chars[i..].starts_with(&['/', '/', '/']) {
            let mut j = i;
            while j < chars.len() && chars[j] != '\n' {
                j += 1;
            }
            out.push((Token::Comment(chars[i..j].iter().collect()), pos));
            i = j;
        } else if c.is_ascii_digit() {
            let mut j = i;
            while j < chars.len() && chars[j].is_ascii_digit() {
                j += 1;
            }
            let text: String = chars[i..j].iter().collect();
            if j + 1 < chars.len() && chars[j] == '.' && chars[j + 1].is_ascii_digit() {
                let mut k = j + 1;
                while k < chars.len() && chars[k].is_ascii_digit() {
                    k += 1;
                }
                let text: String = chars[i..k].iter().collect();
                let value: f64 = text.parse().unwrap();
                out.push((Token::FloatConstant(value.to_bits(), value.to_string()), pos));
                i = k;
            } else {
                match text.parse::<i64>() {
                    Ok(n) => out.push((Token::IntegerConstant(n), pos)),
                    Err(_) => out.push((Token::LexError(LexError::MalformedNumber(text)), pos)),
                }
                i = j;
            }
        } else if c.is_ascii_alphabetic() || c == '_' {
            let mut j = i;
            while j < chars.len() && (chars[j].is_ascii_alphanumeric() || chars[j] == '_') {
                j += 1;
            }
            let text: String = chars[i..j].iter().collect();
            out.push((word(&text), pos));
            i = j;
        } else if c == '"' {
            let mut j = i + 1;
            while j < chars.len() && chars[j] != '"' {
                j += 1;
            }
            if j >= chars.len() {
                out.push((Token::LexError(LexError::UnterminatedString), pos));
                i = j;
            } else {
                out.push((Token::StringConstant(chars[i + 1..j].iter().collect()), pos));
                i = j + 1;
            }
        } else if c == '\'' && i + 2 < chars.len() && chars[i + 2] == '\'' {
            out.push((Token::CharConstant(chars[i + 1]), pos));
            i += 3;
        } else {
            let unary = !ends_operand(out.last().map(|t| &t.0));
            let mut matched = None;
            for len in [3usize, 2, 1] {
                if i + len <= chars.len() {
                    let text: String = chars[i..i + len].iter().collect();
                    if let Some(t) = symbol(&text, unary) {
                        matched = Some((t, len));
                        break;
                    }
                }
            }
            match matched {
                Some((t, len)) => {
                    out.push((t, pos));
                    i += len;
                }
                None => {
                    out.push((Token::LexError(LexError::UnexpectedInput(c.to_string())), pos));
                    i += 1;
                }
            }
        }
    }
    out
}

fn stream(script: &str) -> TokenStream {
    let end = at(script.chars().count() + 1);
    TokenStream::new(tokens_of(script), end).unwrap()
}

fn parse_with<P: SyntaxParser>(engine: &Engine<P>, script: &str) -> Result<AST, ParseError> {
    let mut input = stream(script);
    engine.parse(42, &mut input)
}

fn parse(script: &str) -> Result<AST, ParseError> {
    parse_with(&Engine::<NoSyntax>::new(), script)
}

fn kind_of(script: &str) -> ParseErrorType {
    match parse(script) {
        Ok(ast) => panic!("parsed: {:?}", ast),
        Err(ParseError(kind, _)) => *kind,
    }
}

fn error_of(script: &str) -> (ParseErrorType, Position) {
    match parse(script) {
        Ok(ast) => panic!("parsed: {:?}", ast),
        Err(ParseError(kind, pos)) => (*kind, pos),
    }
}

fn ident(name: &str, col: usize) -> Ident {
    Ident { name: name.to_string(), pos: at(col) }
}

fn var(name: &str, col: usize) -> Expr {
    Expr::Variable(Box::new((None, None, ident(name, col))))
}

fn found(name: &str, index: usize, col: usize) -> Expr {
    Expr::Variable(Box::new((Some(index), None, ident(name, col))))
}

fn num(n: i64, col: usize) -> Expr {
    Expr::IntegerConstant(n, at(col))
}

fn text(s: &str, col: usize) -> Expr {
    Expr::StringConstant(s.to_string(), at(col))
}

fn prop(name: &str, col: usize) -> Expr {
    Expr::Property(Box::new((format!("get${}", name), format!("set${}", name), ident(name, col))))
}

fn call(name: &str, args: Vec<Expr>, def: Option<bool>, hash: Option<u64>, col: usize) -> Expr {
    Expr::FnCall(
        Box::new(FnCallExpr {
            name: name.to_string(),
            namespace: None,
            capture: false,
            hash_script: hash,
            def_value: def.map(Dynamic::Bool),
            args,
        }),
        at(col),
    )
}

fn binary(lhs: Expr, rhs: Expr) -> Box<BinaryExpr> {
    Box::new(BinaryExpr { lhs, rhs })
}

fn global() -> ParseSettings {
    ParseSettings {
        pos: Position::no_position(),
        is_global: true,
        is_function_scope: false,
        is_breakable: false,
        allow_anonymous_fn: true,
        allow_if_expr: true,
        allow_switch_expr: true,
        allow_stmt_expr: true,
        level: 0,
    }
}

fn expr_in_scope(script: &str, scope: &[(&str, AccessMode)]) -> Result<Expr, ParseError> {
    let engine = Engine::<NoSyntax>::new();
    let mut state = ParseState::new(&engine, 42, 128, 32);
    for (name, mode) in scope {
        state.stack.push((name.to_string(), *mode));
    }
    let mut lib: FunctionsLib = Vec::new();
    let mut input = stream(script);
    parse_expr(&mut input, &mut state, &mut lib, global())
}

#[test]
fn empty_input_yields_nothing() {
    let ast = parse("").unwrap();
    assert!(ast.statements.is_empty());
    assert!(ast.functions.is_empty());
}

#[test]
fn semicolons_alone_yield_nothing() {
    let ast = parse(";;").unwrap();
    assert!(ast.statements.is_empty());
    assert!(ast.functions.is_empty());
}

#[test]
fn single_literal_is_one_statement() {
    let ast = parse("42").unwrap();
    assert_eq!(ast.statements, vec![Stmt::Expr(num(42, 1))]);
    assert!(ast.functions.is_empty());
}

#[test]
fn single_string_literal_is_one_statement() {
    let ast = parse("\"hi\"").unwrap();
    assert_eq!(ast.statements, vec![Stmt::Expr(text("hi", 1))]);
}

#[test]
fn let_with_arithmetic_follows_precedence() {
    let ast = parse("let x = 1 + 2 * 3;").unwrap();
    let product = call("*", vec![num(2, 13), num(3, 17)], None, None, 15);
    let sum = call("+", vec![num(1, 9), product], None, None, 11);
    assert_eq!(ast.statements, vec![Stmt::Let(Box::new(ident("x", 5)), Some(sum), false, at(1))]);
}

#[test]
fn subtraction_groups_to_the_left() {
    let ast = parse("1 - 2 - 3").unwrap();
    let first = call("-", vec![num(1, 1), num(2, 5)], None, None, 3);
    let second = call("-", vec![first, num(3, 9)], None, None, 7);
    assert_eq!(ast.statements, vec![Stmt::Expr(second)]);
}

#[test]
fn comparison_defaults() {
    let ast = parse("1 != 2; 1 == 2; 1 < 2").unwrap();
    assert_eq!(
        ast.statements,
        vec![
            Stmt::Expr(call("!=", vec![num(1, 1), num(2, 6)], Some(true), None, 3)),
            Stmt::Expr(call("==", vec![num(1, 9), num(2, 14)], Some(false), None, 11)),
            Stmt::Expr(call("<", vec![num(1, 17), num(2, 21)], Some(false), None, 19)),
        ]
    );
}

#[test]
fn logical_operators_have_their_own_nodes() {
    let ast = parse("true && false || true").unwrap();
    let and = Expr::And(
        binary(Expr::BoolConstant(true, at(1)), Expr::BoolConstant(false, at(9))),
        at(6),
    );
    let or = Expr::Or(binary(and, Expr::BoolConstant(true, at(18))), at(15));
    assert_eq!(ast.statements, vec![Stmt::Expr(or)]);
}

#[test]
fn dot_chain_keeps_the_receiver_at_the_left() {
    let ast = parse("a.b.c").unwrap();
    let inner = Expr::Dot(binary(prop("b", 3), prop("c", 5)), at(4));
    let outer = Expr::Dot(binary(var("a", 1), inner), at(2));
    assert_eq!(ast.statements, vec![Stmt::Expr(outer)]);
}

#[test]
fn index_chain_groups_to_the_right() {
    let ast = parse("a[0][1] = 42").unwrap();
    let inner = Expr::Index(binary(num(0, 3), num(1, 6)), at(5));
    let lhs = Expr::Index(binary(var("a", 1), inner), at(2));
    assert_eq!(
        ast.statements,
        vec![Stmt::Assignment(Box::new((lhs, "=".to_string(), num(42, 11))), at(9))]
    );
}

#[test]
fn compound_assignment_keeps_its_operator() {
    let ast = parse("let a = 1; a += 2").unwrap();
    assert_eq!(
        ast.statements[1],
        Stmt::Assignment(Box::new((found("a", 1, 12), "+=".to_string(), num(2, 17))), at(14))
    );
}

#[test]
fn switch_keys_cases_by_the_hash_of_their_value() {
    let ast = parse("switch x { 1 => \"a\", 2 => \"b\", _ => \"c\" }").unwrap();
    let table = vec![
        (calc_value_hash(&Dynamic::Int(1)), Stmt::Expr(text("a", 17))),
        (calc_value_hash(&Dynamic::Int(2)), Stmt::Expr(text("b", 27))),
    ];
    assert_ne!(table[0].0, table[1].0);
    assert_eq!(
        ast.statements,
        vec![Stmt::Switch(var("x", 8), Box::new((table, Some(Stmt::Expr(text("c", 37))))), at(1))]
    );
}

#[test]
fn closure_captures_the_variables_it_does_not_declare() {
    let ast = parse("let y = 1; let f = |x| x + y; f(10)").unwrap();
    let name = make_anon_fn_name(42, at(20));
    assert_eq!(ast.functions.len(), 1);
    let f = &ast.functions[0];
    assert_eq!(f.name, name);
    assert_eq!(f.access, FnAccess::Public);
    assert_eq!(f.params, vec!["y".to_string(), "x".to_string()]);
    assert_eq!(
        f.body,
        Stmt::Expr(call("+", vec![found("x", 1, 24), var("y", 28)], None, None, 26))
    );
    let curry = call(
        "curry",
        vec![Expr::FnPointer(name, at(20)), var("y", 28)],
        None,
        Some(calc_script_fn_hash(&Vec::new(), "curry", 2)),
        20,
    );
    let site = Expr::Stmt(vec![Stmt::Share(ident("y", 28)), Stmt::Expr(curry)], at(20));
    assert_eq!(ast.statements[1], Stmt::Let(Box::new(ident("f", 16)), Some(site), false, at(12)));
    let hash = calc_script_fn_hash(&Vec::new(), "f", 1);
    assert_eq!(ast.statements[2], Stmt::Expr(call("f", vec![num(10, 33)], None, Some(hash), 31)));
}

#[test]
fn closure_without_captures_is_a_plain_pointer() {
    let ast = parse("let f = |x| x;").unwrap();
    let name = make_anon_fn_name(42, at(9));
    assert_eq!(
        ast.statements,
        vec![Stmt::Let(Box::new(ident("f", 5)), Some(Expr::FnPointer(name, at(9))), false, at(1))]
    );
    assert_eq!(ast.functions[0].params, vec!["x".to_string()]);
}

#[test]
fn closures_switched_off_capture_nothing() {
    let mut engine = Engine::<NoSyntax>::new();
    engine.closures = false;
    let ast = parse_with(&engine, "let f = || y;").unwrap();
    let name = make_anon_fn_name(42, at(9));
    assert_eq!(
        ast.statements,
        vec![Stmt::Let(Box::new(ident("f", 5)), Some(Expr::FnPointer(name, at(9))), false, at(1))]
    );
    assert!(ast.functions[0].params.is_empty());
}

#[test]
fn anonymous_function_names_depend_on_script_and_position_only() {
    let first = parse("let f = |x| x; let g = |x| x;").unwrap();
    let second = parse("let f = |x| x; let g = |x| x;").unwrap();
    assert_eq!(first.functions[0].name, second.functions[0].name);
    assert_eq!(first.functions[1].name, second.functions[1].name);
    assert_ne!(first.functions[0].name, first.functions[1].name);
    let name = &first.functions[0].name;
    assert!(name.starts_with("anon$"));
    assert_eq!(name.len(), 5 + 16);
    assert!(name[5..].chars().all(|c| c.is_ascii_digit() || ('a'..='f').contains(&c)));
    let mut input = stream("let f = |x| x;");
    let other = Engine::<NoSyntax>::new().parse(43, &mut input).unwrap();
    assert_ne!(other.functions[0].name, first.functions[0].name);
}

#[test]
fn function_definition_goes_to_the_library() {
    let ast = parse("fn add(a, b) { a + b } add(1,2)").unwrap();
    assert_eq!(ast.functions.len(), 1);
    let f = &ast.functions[0];
    assert_eq!(f.name, "add");
    assert_eq!(f.access, FnAccess::Public);
    assert_eq!(f.params, vec!["a".to_string(), "b".to_string()]);
    assert!(f.externals.is_empty());
    assert_eq!(
        f.body,
        Stmt::Block(
            vec![Stmt::Expr(call("+", vec![found("a", 2, 16), found("b", 1, 20)], None, None, 18))],
            at(14)
        )
    );
    let hash = calc_script_fn_hash(&Vec::new(), "add", 2);
    assert_eq!(
        ast.statements,
        vec![Stmt::Expr(call("add", vec![num(1, 28), num(2, 30)], None, Some(hash), 24))]
    );
}

#[test]
fn private_function_with_doc_comment() {
    let ast = parse("/// adds one\nprivate fn inc(x) { x + 1 }").unwrap();
    assert!(ast.statements.is_empty());
    assert_eq!(ast.functions[0].access, FnAccess::Private);
    assert_eq!(ast.functions[0].comments, vec!["/// adds one".to_string()]);
}

#[test]
fn later_definition_replaces_earlier_one() {
    let ast = parse("fn f(a) { 1 } fn g() { 2 } fn f(b) { 3 }").unwrap();
    assert_eq!(ast.functions.len(), 2);
    assert_eq!(ast.functions[0].name, "f");
    assert_eq!(ast.functions[0].params, vec!["b".to_string()]);
    assert_eq!(ast.functions[1].name, "g");
}

#[test]
fn nesting_at_the_limit_is_accepted_and_beyond_it_rejected() {
    let mut engine = Engine::<NoSyntax>::new();
    engine.max_expr_depth = 4;
    assert_eq!(parse_with(&engine, "1").unwrap().statements, vec![Stmt::Expr(num(1, 1))]);
    engine.max_expr_depth = 3;
    let ParseError(kind, pos) = parse_with(&engine, "1").unwrap_err();
    assert_eq!(*kind, ParseErrorType::ExprTooDeep);
    assert_eq!(pos, at(1));
    engine.max_expr_depth = 0;
    let deep = format!("{}1{}", "(".repeat(200), ")".repeat(200));
    assert!(parse_with(&engine, &deep).is_ok());
    engine.max_expr_depth = 128;
    assert_eq!(*parse_with(&engine, &deep).unwrap_err().0, ParseErrorType::ExprTooDeep);
}

#[test]
fn function_bodies_have_their_own_limit() {
    let mut engine = Engine::<NoSyntax>::new();
    engine.max_expr_depth = 64;
    engine.max_function_expr_depth = 4;
    assert_eq!(
        *parse_with(&engine, "fn f() { ((1)) }").unwrap_err().0,
        ParseErrorType::ExprTooDeep
    );
    engine.max_function_expr_depth = 32;
    assert!(parse_with(&engine, "fn f() { ((1)) }").is_ok());
}

#[test]
fn array_literal_at_the_limit_is_accepted_and_beyond_it_rejected() {
    let mut engine = Engine::<NoSyntax>::new();
    engine.max_array_size = 3;
    let ast = parse_with(&engine, "[1, 2, 3]").unwrap();
    assert_eq!(
        ast.statements,
        vec![Stmt::Expr(Expr::Array(vec![num(1, 2), num(2, 5), num(3, 8)], at(1)))]
    );
    assert!(parse_with(&engine, "[1, 2, 3,]").is_ok());
    let ParseError(kind, pos) = parse_with(&engine, "[1, 2, 3, 4]").unwrap_err();
    assert_eq!(*kind, ParseErrorType::LiteralTooLarge("Size of array literal".to_string(), 3));
    assert_eq!(pos, at(11));
}

#[test]
fn map_literal_at_the_limit_is_accepted_and_beyond_it_rejected() {
    let mut engine = Engine::<NoSyntax>::new();
    engine.max_map_size = 2;
    let ast = parse_with(&engine, "#{a: 1, b: 2}").unwrap();
    assert_eq!(
        ast.statements,
        vec![Stmt::Expr(Expr::ObjectMap(
            vec![(ident("a", 3), num(1, 6)), (ident("b", 9), num(2, 12))],
            at(1)
        ))]
    );
    let ParseError(kind, _) = parse_with(&engine, "#{a: 1, b: 2, c: 3}").unwrap_err();
    assert_eq!(
        *kind,
        ParseErrorType::LiteralTooLarge(
            "Number of properties in object map literal".to_string(),
            2
        )
    );
}

#[test]
fn empty_literals() {
    let ast = parse("[]; #{}; ()").unwrap();
    assert_eq!(
        ast.statements,
        vec![
            Stmt::Expr(Expr::Array(vec![], at(1))),
            Stmt::Expr(Expr::ObjectMap(vec![], at(5))),
            Stmt::Expr(Expr::Unit(at(10))),
        ]
    );
}

#[test]
fn variables_are_found_from_the_top_of_the_scope() {
    let ast = parse("let a = 1; let b = 2; a; b; c").unwrap();
    assert_eq!(ast.statements[2], Stmt::Expr(found("a", 2, 23)));
    assert_eq!(ast.statements[3], Stmt::Expr(found("b", 1, 26)));
    assert_eq!(ast.statements[4], Stmt::Expr(var("c", 29)));
}

#[test]
fn block_ends_the_scope_of_its_variables() {
    let ast = parse("let a = 1; { let b = 2; b } b; a").unwrap();
    assert_eq!(ast.statements[2], Stmt::Expr(var("b", 29)));
    assert_eq!(ast.statements[3], Stmt::Expr(found("a", 1, 32)));
}

#[test]
fn block_leaves_scope_and_modules_as_it_found_them() {
    let engine = Engine::<NoSyntax>::new();
    let mut state = ParseState::new(&engine, 42, 128, 32);
    state.stack.push(("a".to_string(), AccessMode::ReadWrite));
    state.modules.push("m".to_string());
    let mut lib: FunctionsLib = Vec::new();
    let mut input = stream("{ let b = 1; import \"x\" as y; let c = b; }");
    let mut settings = global();
    settings.is_global = false;
    let block = rhai::block::parse_block(&mut input, &mut state, &mut lib, settings).unwrap();
    assert!(matches!(block, Stmt::Block(ref s, _) if s.len() == 3));
    assert_eq!(state.stack, vec![("a".to_string(), AccessMode::ReadWrite)]);
    assert_eq!(state.modules, vec!["m".to_string()]);
    assert_eq!(state.entry_stack_len, 0);
}

#[test]
fn for_loop_variable_is_in_scope_in_the_body_only() {
    let ast = parse("for i in [1] { i } i").unwrap();
    match &ast.statements[0] {
        Stmt::For(_, x, pos) => {
            assert_eq!(x.0, "i");
            assert_eq!(x.1, Stmt::Block(vec![Stmt::Expr(found("i", 1, 16))], at(14)));
            assert_eq!(*pos, at(1));
        }
        other => panic!("{:?}", other),
    }
    assert_eq!(ast.statements[1], Stmt::Expr(var("i", 20)));
}

#[test]
fn if_else_chain() {
    let ast = parse("if a { 1 } else if b { 2 } else { 3 }").unwrap();
    let last = Stmt::Block(vec![Stmt::Expr(num(3, 35))], at(33));
    let second = Stmt::If(
        var("b", 20),
        Box::new((Stmt::Block(vec![Stmt::Expr(num(2, 24))], at(22)), Some(last))),
        at(17),
    );
    let first = Stmt::If(
        var("a", 4),
        Box::new((Stmt::Block(vec![Stmt::Expr(num(1, 8))], at(6)), Some(second))),
        at(1),
    );
    assert_eq!(ast.statements, vec![first]);
}

#[test]
fn loops_allow_break_and_continue() {
    let ast = parse("while a { break; } loop { continue } do { } until b").unwrap();
    assert_eq!(
        ast.statements,
        vec![
            Stmt::While(
                var("a", 7),
                Box::new(Stmt::Block(vec![Stmt::Break(at(11))], at(9))),
                at(1)
            ),
            Stmt::While(
                Expr::BoolConstant(true, at(20)),
                Box::new(Stmt::Block(vec![Stmt::Continue(at(27))], at(25))),
                at(20)
            ),
            Stmt::Do(Box::new(Stmt::Block(vec![], at(41))), var("b", 51), false, at(38)),
        ]
    );
}

#[test]
fn return_and_throw() {
    let ast = parse("return; throw 1; return").unwrap();
    assert_eq!(
        ast.statements,
        vec![
            Stmt::Return((ReturnType::Return, at(1)), None, at(1)),
            Stmt::Return((ReturnType::Exception, at(9)), Some(num(1, 15)), at(15)),
            Stmt::Return((ReturnType::Return, at(18)), None, at(24)),
        ]
    );
}

#[test]
fn try_catch_with_variable() {
    let ast = parse("try { 1 } catch (e) { 2 }").unwrap();
    assert_eq!(
        ast.statements,
        vec![Stmt::TryCatch(
            Box::new((
                Stmt::Block(vec![Stmt::Expr(num(1, 7))], at(5)),
                Some(ident("e", 18)),
                Stmt::Block(vec![Stmt::Expr(num(2, 23))], at(21)),
            )),
            at(1),
            at(11)
        )]
    );
}

#[test]
fn import_and_export() {
    let ast = parse("import \"m\" as m; export a, b as c; export let d = 1;").unwrap();
    assert_eq!(
        ast.statements,
        vec![
            Stmt::Import(text("m", 8), Some(Box::new(ident("m", 15))), at(1)),
            Stmt::Export(
                vec![(ident("a", 25), None), (ident("b", 28), Some(ident("c", 33)))],
                at(18)
            ),
            Stmt::Let(Box::new(ident("d", 47)), Some(num(1, 51)), true, at(43)),
        ]
    );
}

#[test]
fn module_qualified_names_get_their_hash_and_index() {
    let ast = parse("import \"m\" as m; m::x; m::f(1)").unwrap();
    let path = vec![ident("m", 18)];
    let hash = calc_script_fn_hash(&path, "x", 0);
    assert_eq!(
        ast.statements[1],
        Stmt::Expr(Expr::Variable(Box::new((
            None,
            Some((hash, rhai::ast::NamespaceRef { index: Some(1), path })),
            ident("x", 21)
        ))))
    );
    let path = vec![ident("m", 24)];
    let hash = calc_script_fn_hash(&path, "f", 1);
    assert_eq!(
        ast.statements[2],
        Stmt::Expr(Expr::FnCall(
            Box::new(FnCallExpr {
                name: "f".to_string(),
                namespace: Some(rhai::ast::NamespaceRef { index: Some(1), path }),
                capture: false,
                hash_script: Some(hash),
                def_value: None,
                args: vec![num(1, 29)],
            }),
            at(27)
        ))
    );
}

#[test]
fn unary_operators() {
    let ast = parse("-1; -a; +2; +a; !a").unwrap();
    assert_eq!(
        ast.statements,
        vec![
            Stmt::Expr(num(-1, 2)),
            Stmt::Expr(call("-", vec![var("a", 6)], None, None, 5)),
            Stmt::Expr(num(2, 10)),
            Stmt::Expr(call("+", vec![var("a", 14)], None, None, 13)),
            Stmt::Expr(call("!", vec![var("a", 18)], Some(false), None, 17)),
        ]
    );
}

#[test]
fn negating_the_least_integer_yields_a_float() {
    let tokens =
        vec![(Token::UnaryMinus, at(1)), (Token::IntegerConstant(i64::MIN), at(2))];
    let mut input = TokenStream::new(tokens, at(3)).unwrap();
    let ast = Engine::<NoSyntax>::new().parse(0, &mut input).unwrap();
    assert_eq!(
        ast.statements,
        vec![Stmt::Expr(Expr::FloatConstant(9223372036854775808.0f64.to_bits(), at(2)))]
    );
    let tokens =
        vec![(Token::UnaryMinus, at(1)), (Token::IntegerConstant(i64::MIN), at(2))];
    let mut input = TokenStream::new(tokens, at(3)).unwrap();
    let mut engine = Engine::<NoSyntax>::new();
    engine.floats = false;
    let ParseError(kind, _) = engine.parse(0, &mut input).unwrap_err();
    assert_eq!(
        *kind,
        ParseErrorType::BadInput(LexError::MalformedNumber("--9223372036854775808".to_string()))
    );
}

#[test]
fn float_literals_and_their_negation() {
    let ast = parse("1.5; -2.25").unwrap();
    assert_eq!(
        ast.statements,
        vec![
            Stmt::Expr(Expr::FloatConstant(1.5f64.to_bits(), at(1))),
            Stmt::Expr(Expr::FloatConstant((-2.25f64).to_bits(), at(7))),
        ]
    );
    let mut engine = Engine::<NoSyntax>::new();
    engine.floats = false;
    assert_eq!(
        *parse_with(&engine, "1.5").unwrap_err().0,
        ParseErrorType::BadInput(LexError::UnexpectedInput("1.5".to_string()))
    );
}

#[test]
fn keyword_functions_can_be_called() {
    let hash = calc_script_fn_hash(&Vec::new(), "print", 1);
    assert_eq!(
        parse("print(1)").unwrap().statements,
        vec![Stmt::Expr(call("print", vec![num(1, 7)], None, Some(hash), 1))]
    );
}

#[test]
fn capturing_call() {
    let ast = parse("f!(1)").unwrap();
    match &ast.statements[0] {
        Stmt::Expr(Expr::FnCall(x, _)) => {
            assert!(x.capture);
            assert_eq!(x.name, "f");
        }
        other => panic!("{:?}", other),
    }
}

#[test]
fn method_call_and_index_after_dot() {
    let ast = parse("a.f(1)[0]").unwrap();
    let hash = calc_script_fn_hash(&Vec::new(), "f", 1);
    let f = call("f", vec![num(1, 5)], None, Some(hash), 3);
    let indexed = Expr::Index(binary(f, num(0, 8)), at(7));
    assert_eq!(
        ast.statements,
        vec![Stmt::Expr(Expr::Dot(binary(var("a", 1), indexed), at(2)))]
    );
}

#[test]
fn dot_after_index_goes_inside_the_index() {
    let ast = parse("a[0].b").unwrap();
    let inner = Expr::Dot(binary(num(0, 3), prop("b", 6)), at(5));
    assert_eq!(
        ast.statements,
        vec![Stmt::Expr(Expr::Index(binary(var("a", 1), inner), at(2)))]
    );
}

#[test]
fn membership_test() {
    let ast = parse("\"a\" in \"abc\"").unwrap();
    assert_eq!(
        ast.statements,
        vec![Stmt::Expr(Expr::In(binary(text("a", 1), text("abc", 8)), at(5)))]
    );
}

#[test]
fn custom_operator_is_a_call_with_a_hash() {
    let mut engine = Engine::<NoSyntax>::new();
    assert!(engine.register_custom_operator("foo", 160));
    assert!(!engine.register_custom_operator("bar", 0));
    let tokens = vec![
        (Token::IntegerConstant(1), at(1)),
        (Token::Custom("foo".to_string()), at(3)),
        (Token::IntegerConstant(2), at(7)),
        (Token::Multiply, at(9)),
        (Token::IntegerConstant(3), at(11)),
    ];
    let mut input = TokenStream::new(tokens, at(12)).unwrap();
    let ast = engine.parse(0, &mut input).unwrap();
    let product = call("*", vec![num(2, 7), num(3, 11)], None, None, 9);
    let hash = calc_script_fn_hash(&Vec::new(), "foo", 2);
    assert_eq!(
        ast.statements,
        vec![Stmt::Expr(call("foo", vec![num(1, 1), product], None, Some(hash), 3))]
    );
    let tokens = vec![
        (Token::IntegerConstant(1), at(1)),
        (Token::Custom("bar".to_string()), at(3)),
        (Token::IntegerConstant(2), at(7)),
    ];
    let mut input = TokenStream::new(tokens, at(8)).unwrap();
    assert_eq!(
        *engine.parse(0, &mut input).unwrap_err().0,
        ParseErrorType::Reserved("bar".to_string())
    );
}

struct Repeat;

impl SyntaxParser for Repeat {
    fn parse(
        &self,
        segments: &Vec<String>,
        _look_ahead: &str,
    ) -> Result<Option<String>, ParseError> {
        Ok(match segments.len() {
            1 => Some("$ident$".to_string()),
            2 => Some("=>".to_string()),
            3 => Some("$expr$".to_string()),
            4 => Some("$block$".to_string()),
            _ => None,
        })
    }
}

#[test]
fn custom_syntax_collects_its_segments() {
    let mut engine = Engine::<Repeat>::new();
    engine.register_custom_syntax(
        "repeat",
        CustomSyntax { scope_delta: 1, parse: Repeat, func: 7 },
    );
    let mut state = ParseState::new(&engine, 42, 128, 32);
    state.stack.push(("a".to_string(), AccessMode::ReadWrite));
    let mut lib: FunctionsLib = Vec::new();
    let mut input = stream("repeat i => a + 1 { a }");
    let e = parse_expr(&mut input, &mut state, &mut lib, global()).unwrap();
    match e {
        Expr::Custom(x, pos) => {
            assert_eq!(pos, at(1));
            assert_eq!(x.func, 7);
            assert_eq!(x.tokens, vec!["repeat", "$ident$", "=>", "$expr$", "$block$"]);
            assert_eq!(x.keywords.len(), 3);
            assert_eq!(x.keywords[0], var("i", 8));
            assert_eq!(x.keywords[1], call("+", vec![var("a", 13), num(1, 17)], None, None, 15));
        }
        other => panic!("{:?}", other),
    }
    assert_eq!(
        state.stack,
        vec![("a".to_string(), AccessMode::ReadWrite), (String::new(), AccessMode::ReadWrite)]
    );
}

#[test]
fn custom_syntax_reports_a_missing_segment() {
    let mut engine = Engine::<Repeat>::new();
    engine.register_custom_syntax(
        "repeat",
        CustomSyntax { scope_delta: 0, parse: Repeat, func: 7 },
    );
    let ParseError(kind, pos) = parse_with(&engine, "repeat i 1").unwrap_err();
    assert_eq!(
        *kind,
        ParseErrorType::MissingToken("=>".to_string(), "for 'repeat' expression".to_string())
    );
    assert_eq!(pos, at(10));
}

struct Take;

impl SyntaxParser for Take {
    fn parse(
        &self,
        segments: &Vec<String>,
        look_ahead: &str,
    ) -> Result<Option<String>, ParseError> {
        if look_ahead == "stop" {
            let kind = ParseErrorType::BadInput(LexError::UnexpectedInput("stop".to_string()));
            Err(ParseError(Box::new(kind), Position::no_position()))
        } else if segments.len() < 3 {
            Ok(Some("$ident$".to_string()))
        } else {
            Ok(None)
        }
    }
}

fn taking(scope_delta: isize) -> Engine<Take> {
    let mut engine = Engine::<Take>::new();
    engine.register_custom_syntax("take", CustomSyntax { scope_delta, parse: Take, func: 3 });
    engine
}

#[test]
fn custom_syntax_places_the_error_of_its_hook() {
    let ParseError(kind, pos) = parse_with(&taking(0), "take a stop").unwrap_err();
    assert_eq!(*kind, ParseErrorType::BadInput(LexError::UnexpectedInput("stop".to_string())));
    assert_eq!(pos, at(8));
}

#[test]
fn custom_syntax_wants_a_name_where_it_asks_for_one() {
    let ParseError(kind, pos) = parse_with(&taking(0), "take a 1").unwrap_err();
    assert_eq!(*kind, ParseErrorType::VariableExpected);
    assert_eq!(pos, at(8));
}

#[test]
fn custom_syntax_ends_where_its_hook_says() {
    let ast = parse_with(&taking(0), "take a b; 1").unwrap();
    assert_eq!(ast.statements.len(), 2);
    match &ast.statements[0] {
        Stmt::Expr(Expr::Custom(x, pos)) => {
            assert_eq!(*pos, at(1));
            assert_eq!(x.func, 3);
            assert_eq!(x.tokens, vec!["take", "$ident$", "$ident$"]);
            assert_eq!(x.keywords, vec![var("a", 6), var("b", 8)]);
        }
        other => panic!("{:?}", other),
    }
    assert_eq!(ast.statements[1], Stmt::Expr(num(1, 11)));
}

#[test]
fn custom_syntax_with_negative_delta_drops_variables() {
    let engine = taking(-1);
    let mut state = ParseState::new(&engine, 42, 128, 32);
    state.stack.push(("a".to_string(), AccessMode::ReadWrite));
    state.stack.push(("b".to_string(), AccessMode::ReadWrite));
    let mut lib: FunctionsLib = Vec::new();
    let mut input = stream("take x y");
    parse_expr(&mut input, &mut state, &mut lib, global()).unwrap();
    assert_eq!(state.stack, vec![("a".to_string(), AccessMode::ReadWrite)]);
}

#[test]
fn global_expression() {
    let engine = Engine::<NoSyntax>::new();
    let mut input = stream("1 + a");
    let ast = engine.parse_global_expr(0, &mut input).unwrap();
    assert_eq!(
        ast.statements,
        vec![Stmt::Expr(call("+", vec![num(1, 1), var("a", 5)], None, None, 3))]
    );
    assert!(ast.functions.is_empty());
    let mut input = stream("1 2");
    assert_eq!(
        *engine.parse_global_expr(0, &mut input).unwrap_err().0,
        ParseErrorType::BadInput(LexError::UnexpectedInput("2".to_string()))
    );
    let mut input = stream("{ 1 }");
    assert_eq!(
        *engine.parse_global_expr(0, &mut input).unwrap_err().0,
        ParseErrorType::BadInput(LexError::UnexpectedInput("{".to_string()))
    );
}

#[test]
fn global_level_returns_statements_and_functions() {
    let engine = Engine::<NoSyntax>::new();
    let mut input = stream("fn f() { } 1;");
    let (statements, functions) = engine.parse_global_level(0, &mut input).unwrap();
    assert_eq!(statements, vec![Stmt::Expr(num(1, 12))]);
    assert_eq!(functions.len(), 1);
}

#[test]
fn eat_and_match_token() {
    let mut input = stream("( )");
    assert_eq!(match_token(&mut input, Token::RightParen), (false, at(1)));
    assert_eq!(input.cursor, 0);
    assert_eq!(match_token(&mut input, Token::LeftParen), (true, at(1)));
    assert_eq!(input.cursor, 1);
    assert_eq!(eat_token(&mut input, Token::RightParen), at(3));
    assert_eq!(input.cursor, 2);
    assert_eq!(match_token(&mut input, Token::EOF), (true, at(4)));
    assert_eq!(input.cursor, 2);
}

#[test]
fn guards_against_blocks_and_assignments() {
    let input = stream("{");
    assert_eq!(
        ensure_not_statement_expr(&input, "a boolean").unwrap_err(),
        ParseError(Box::new(ParseErrorType::ExprExpected("a boolean".to_string())), at(1))
    );
    assert!(ensure_not_statement_expr(&stream("1"), "a boolean").is_ok());
    assert_eq!(
        ensure_not_assignment(&stream("=")).unwrap_err(),
        ParseError(
            Box::new(ParseErrorType::BadInput(LexError::ImproperSymbol(
                "=".to_string(),
                "Possibly a typo of '=='?".to_string()
            ))),
            at(1)
        )
    );
    assert_eq!(
        ensure_not_assignment(&stream("+=")).unwrap_err(),
        ParseError(
            Box::new(ParseErrorType::BadInput(LexError::ImproperSymbol(
                "+=".to_string(),
                "Expecting a boolean expression, not an assignment".to_string()
            ))),
            at(1)
        )
    );
    assert!(ensure_not_assignment(&stream("==")).is_ok());
}

#[test]
fn variable_in_given_scope_resolves_to_its_slot() {
    let scope = [("a", AccessMode::ReadWrite), ("b", AccessMode::ReadOnly)];
    assert_eq!(expr_in_scope("a", &scope).unwrap(), found("a", 2, 1));
    assert_eq!(expr_in_scope("b", &scope).unwrap(), found("b", 1, 1));
    let scope = [("a", AccessMode::ReadWrite), ("", AccessMode::ReadWrite)];
    assert_eq!(expr_in_scope("a", &scope).unwrap(), var("a", 1));
}

#[test]
fn error_unexpected_eof() {
    assert_eq!(error_of("1 +"), (ParseErrorType::UnexpectedEOF, at(4)));
}

#[test]
fn error_missing_token() {
    assert_eq!(
        error_of("(1"),
        (
            ParseErrorType::MissingToken(
                ")".to_string(),
                "for a matching ( in this expression".to_string()
            ),
            at(3)
        )
    );
    assert_eq!(
        error_of("f(1"),
        (
            ParseErrorType::MissingToken(
                ")".to_string(),
                "to close the arguments list of this function call 'f'".to_string()
            ),
            at(4)
        )
    );
    assert_eq!(
        kind_of("1 2"),
        ParseErrorType::MissingToken(";".to_string(), "to terminate this statement".to_string())
    );
    assert_eq!(
        kind_of("{ 1;"),
        ParseErrorType::MissingToken("}".to_string(), "to terminate this block".to_string())
    );
    assert_eq!(
        kind_of("{ 1"),
        ParseErrorType::MissingToken(";".to_string(), "to terminate this statement".to_string())
    );
}

#[test]
fn error_bad_input() {
    assert_eq!(
        error_of("\"abc"),
        (ParseErrorType::BadInput(LexError::UnterminatedString), at(1))
    );
    assert_eq!(
        kind_of("if a = 1 { }"),
        ParseErrorType::BadInput(LexError::ImproperSymbol(
            "=".to_string(),
            "Possibly a typo of '=='?".to_string()
        ))
    );
    assert_eq!(
        kind_of("a && b = 1"),
        ParseErrorType::BadInput(LexError::ImproperSymbol(
            "=".to_string(),
            "Possibly a typo of '=='?".to_string()
        ))
    );
    assert_eq!(
        kind_of("this"),
        ParseErrorType::BadInput(LexError::ImproperSymbol(
            "this".to_string(),
            "'this' can only be used in functions".to_string()
        ))
    );
    assert_eq!(
        kind_of("a.eval()"),
        ParseErrorType::BadInput(LexError::ImproperSymbol(
            "eval".to_string(),
            "'eval' should not be called in method style. Try eval(...);".to_string()
        ))
    );
    assert_eq!(kind_of(")"), ParseErrorType::BadInput(LexError::UnexpectedInput(")".to_string())));
}

#[test]
fn this_is_a_variable_inside_functions() {
    let ast = parse("fn f() { this }").unwrap();
    assert_eq!(
        ast.functions[0].body,
        Stmt::Block(vec![Stmt::Expr(var("this", 10))], at(8))
    );
}

#[test]
fn error_unknown_operator() {
    assert_eq!(error_of("1 @ 2"), (ParseErrorType::UnknownOperator("@".to_string()), at(3)));
}

#[test]
fn error_malformed_index() {
    assert_eq!(
        kind_of("a[-1]"),
        ParseErrorType::MalformedIndexExpr(
            "Array access expects non-negative index: -1 < 0".to_string()
        )
    );
    assert_eq!(
        kind_of("#{a: 1}[0]"),
        ParseErrorType::MalformedIndexExpr(
            "Object map access expects string index, not a number".to_string()
        )
    );
    assert_eq!(
        kind_of("[1][\"a\"]"),
        ParseErrorType::MalformedIndexExpr(
            "Array or string expects numeric index, not a string".to_string()
        )
    );
    assert_eq!(
        error_of("a[true]"),
        (
            ParseErrorType::MalformedIndexExpr(
                "Array access expects integer index, not a boolean".to_string()
            ),
            at(3)
        )
    );
    assert_eq!(
        kind_of("a['x']"),
        ParseErrorType::MalformedIndexExpr(
            "Array access expects integer index, not a character".to_string()
        )
    );
    assert_eq!(
        kind_of("a[()]"),
        ParseErrorType::MalformedIndexExpr("Array access expects integer index, not ()".to_string())
    );
    assert_eq!(
        kind_of("a[1.5]"),
        ParseErrorType::MalformedIndexExpr(
            "Array access expects integer index, not a float".to_string()
        )
    );
}

#[test]
fn error_malformed_in() {
    assert_eq!(
        error_of("\"a\" in 1"),
        (
            ParseErrorType::MalformedInExpr(
                "'in' expression expects a string, array or object map".to_string()
            ),
            at(8)
        )
    );
    assert_eq!(
        error_of("1 in \"abc\""),
        (
            ParseErrorType::MalformedInExpr(
                "'in' expression for a string expects a string, not a number".to_string()
            ),
            at(1)
        )
    );
    assert_eq!(
        kind_of("[1] in #{a: 1}"),
        ParseErrorType::MalformedInExpr(
            "'in' expression for an object map expects a string, not an array".to_string()
        )
    );
}

#[test]
fn error_malformed_capture() {
    assert_eq!(
        kind_of("a.f!(1)"),
        ParseErrorType::MalformedCapture("method-call style does not support capturing".to_string())
    );
}

#[test]
fn error_duplicated_property() {
    assert_eq!(
        error_of("#{a: 1, a: 2}"),
        (ParseErrorType::DuplicatedProperty("a".to_string()), at(9))
    );
}

#[test]
fn error_duplicated_switch_case() {
    assert_eq!(
        error_of("switch x { 1 => 2, 1 => 3 }"),
        (ParseErrorType::DuplicatedSwitchCase, at(20))
    );
    assert_eq!(
        error_of("switch x { _ => 2, _ => 3 }"),
        (ParseErrorType::DuplicatedSwitchCase, at(20))
    );
    assert_eq!(
        error_of("switch x { _ => 2, 1 => 3, _ => 4 }"),
        (ParseErrorType::DuplicatedSwitchCase, at(28))
    );
}

#[test]
fn switch_keeps_its_default_whatever_follows() {
    let ast = parse("switch x { _ => 2, 1 => 3 }").unwrap();
    match &ast.statements[0] {
        Stmt::Switch(_, x, _) => {
            assert_eq!(x.0.len(), 1);
            assert_eq!(x.1, Some(Stmt::Expr(num(2, 17))));
        }
        other => panic!("{:?}", other),
    }
}

#[test]
fn error_reserved() {
    assert_eq!(error_of("let var = 1"), (ParseErrorType::Reserved("var".to_string()), at(5)));
    assert_eq!(kind_of("static"), ParseErrorType::Reserved("static".to_string()));
    assert_eq!(kind_of("this()"), ParseErrorType::Reserved("this".to_string()));
}

#[test]
fn error_expr_expected() {
    assert_eq!(
        error_of("if { }"),
        (ParseErrorType::ExprExpected("a boolean".to_string()), at(4))
    );
    assert_eq!(
        error_of("switch x { y => 1 }"),
        (ParseErrorType::ExprExpected("a literal".to_string()), at(12))
    );
}

#[test]
fn error_property_expected() {
    assert_eq!(error_of("a.1"), (ParseErrorType::PropertyExpected, at(3)));
    assert_eq!(error_of("#{a: 1, 2: 3}"), (ParseErrorType::PropertyExpected, at(9)));
}

#[test]
fn error_variable_expected() {
    assert_eq!(error_of("let 1 = 2"), (ParseErrorType::VariableExpected, at(5)));
    assert_eq!(error_of("for 1 in a { }"), (ParseErrorType::VariableExpected, at(5)));
    assert_eq!(error_of("try { } catch (1) { }"), (ParseErrorType::VariableExpected, at(16)));
}

#[test]
fn error_wrong_doc_comment() {
    assert_eq!(error_of("/// x\nlet a = 1;"), (ParseErrorType::WrongDocComment, at(1)));
    assert_eq!(kind_of("{ /// x\nfn f() { } }"), ParseErrorType::WrongDocComment);
}

#[test]
fn error_wrong_fn_definition() {
    assert_eq!(error_of("{ fn f() { } }"), (ParseErrorType::WrongFnDefinition, at(3)));
}

#[test]
fn error_fn_missing_parts() {
    assert_eq!(error_of("fn 1() { }"), (ParseErrorType::FnMissingName, at(4)));
    assert_eq!(error_of("fn f { }"), (ParseErrorType::FnMissingParams("f".to_string()), at(6)));
    assert_eq!(error_of("fn f() 1"), (ParseErrorType::FnMissingBody("f".to_string()), at(8)));
    assert_eq!(
        error_of("fn f(a, a) { }"),
        (ParseErrorType::FnDuplicatedParam("f".to_string(), "a".to_string()), at(9))
    );
    assert_eq!(
        kind_of("|a, a| 1"),
        ParseErrorType::FnDuplicatedParam(String::new(), "a".to_string())
    );
}

#[test]
fn error_wrong_export() {
    assert_eq!(error_of("{ export a; }"), (ParseErrorType::WrongExport, at(3)));
}

#[test]
fn error_assignment_to_constant() {
    assert_eq!(
        error_of("const a = 1; a = 2"),
        (ParseErrorType::AssignmentToConstant("a".to_string()), at(14))
    );
    assert_eq!(
        error_of("const a = 1; a.b = 2"),
        (ParseErrorType::AssignmentToConstant("a".to_string()), at(14))
    );
    assert_eq!(error_of("1 = 2"), (ParseErrorType::AssignmentToConstant(String::new()), at(1)));
}

#[test]
fn error_assignment_to_invalid_lhs() {
    assert_eq!(
        error_of("f() = 2"),
        (ParseErrorType::AssignmentToInvalidLHS(String::new()), at(1))
    );
    assert_eq!(
        error_of("a.f() = 2"),
        (ParseErrorType::AssignmentToInvalidLHS(String::new()), at(3))
    );
}

#[test]
fn error_loop_break() {
    assert_eq!(error_of("break"), (ParseErrorType::LoopBreak, at(1)));
    assert_eq!(error_of("while a { || continue }"), (ParseErrorType::LoopBreak, at(14)));
}

#[test]
fn switched_off_features_are_no_part_of_the_grammar() {
    let mut engine = Engine::<NoSyntax>::new();
    engine.indexing = false;
    assert_eq!(
        *parse_with(&engine, "[1]").unwrap_err().0,
        ParseErrorType::BadInput(LexError::UnexpectedInput("[".to_string()))
    );
    assert!(parse_with(&engine, "a[1]").is_err());
    let mut engine = Engine::<NoSyntax>::new();
    engine.object_maps = false;
    assert_eq!(
        *parse_with(&engine, "#{}").unwrap_err().0,
        ParseErrorType::BadInput(LexError::UnexpectedInput("#{".to_string()))
    );
    assert!(parse_with(&engine, "a.b").is_err());
    let mut engine = Engine::<NoSyntax>::new();
    engine.modules = false;
    assert_eq!(
        *parse_with(&engine, "import \"a\"").unwrap_err().0,
        ParseErrorType::BadInput(LexError::UnexpectedInput("import".to_string()))
    );
    assert!(parse_with(&engine, "a::b").is_err());
    let mut engine = Engine::<NoSyntax>::new();
    engine.anonymous_functions = false;
    assert_eq!(
        *parse_with(&engine, "|x| x").unwrap_err().0,
        ParseErrorType::BadInput(LexError::UnexpectedInput("|".to_string()))
    );
}

#[test]
fn stream_refuses_ordinary_comments() {
    assert!(TokenStream::new(vec![(Token::Comment("// x".to_string()), at(1))], at(5)).is_none());
    assert!(TokenStream::new(vec![(Token::Comment("//// x".to_string()), at(1))], at(5)).is_none());
    assert!(TokenStream::new(vec![(Token::Comment("/// x".to_string()), at(1))], at(5)).is_some());
    let doc = vec![(Token::Comment("/** x */".to_string()), at(1))];
    assert!(TokenStream::new(doc, at(5)).is_some());
}

#[test]
fn stream_repeats_the_end_of_input() {
    let mut input = stream("1");
    assert_eq!(input.peek().0, Token::IntegerConstant(1));
    assert_eq!(input.peek_second().0, Token::EOF);
    assert_eq!(input.next(), (Token::IntegerConstant(1), at(1)));
    assert_eq!(input.next(), (Token::EOF, at(2)));
    assert_eq!(input.next(), (Token::EOF, at(2)));
    assert_eq!(input.cursor, 1);
}
