use rhai::ast::{BinaryExpr, Expr, FnCallExpr, Ident, Stmt};
use rhai::builder::{
    check_index_type, into_property, make_assignment_stmt, make_binary_expr,
    make_curry_from_externals, make_dot_expr, make_getter, make_in_expr, make_negated,
    make_notted, make_plussed, make_setter, map_dynamic_to_expr,
};
use rhai::dynamic::{AccessMode, Dynamic, ObjectMap};
use rhai::engine::{Engine, NoSyntax};
use rhai::error::{ParseError, ParseErrorType};
use rhai::hashing::{calc_script_fn_hash, calc_value_hash, make_anon_fn_name};
use rhai::map_basic::{clear, fill_with, has, keys, len, merge, mixin, remove, values};
use rhai::position::Position;
use rhai::state::ParseState;
use rhai::token::{LexError, Token};

fn p(col: u16) -> Position {
    Position::new(1, col)
}

fn name(text: &str, col: u16) -> Ident {
    Ident { name: text.to_string(), pos: p(col) }
}

fn variable(text: &str, col: u16) -> Expr {
    Expr::Variable(Box::new((None, None, name(text, col))))
}

fn property(text: &str, col: u16) -> Expr {
    Expr::Property(Box::new((format!("get${}", text), format!("set${}", text), name(text, col))))
}

fn pair(lhs: Expr, rhs: Expr) -> Box<BinaryExpr> {
    Box::new(BinaryExpr { lhs, rhs })
}

fn object(entries: &[(&str, i64)]) -> ObjectMap {
    let mut m = ObjectMap::new();
    for (k, v) in entries {
        m.insert(k.to_string(), Dynamic::Int(*v));
    }
    m
}

fn leftmost(e: &Expr) -> &Expr {
    match e {
        Expr::Dot(x, _) | Expr::Index(x, _) => leftmost(&x.lhs),
        other => other,
    }
}

#[test]
fn getter_and_setter_names() {
    assert_eq!(make_getter("size"), "get$size");
    assert_eq!(make_setter("size"), "set$size");
}

#[test]
fn variable_becomes_property() {
    let engine = Engine::<NoSyntax>::new();
    let mut state = ParseState::new(&engine, 0, 0, 0);
    assert_eq!(into_property(variable("b", 3), &mut state), property("b", 3));
    assert_eq!(state.strings, vec!["get$b".to_string(), "set$b".to_string()]);
    let constant = Expr::IntegerConstant(1, p(1));
    assert_eq!(into_property(Expr::IntegerConstant(1, p(1)), &mut state), constant);
}

#[test]
fn dot_goes_to_the_bottom_of_an_index_chain() {
    let engine = Engine::<NoSyntax>::new();
    let mut state = ParseState::new(&engine, 0, 0, 0);
    let lhs = Expr::Index(pair(variable("a", 1), Expr::IntegerConstant(0, p(3))), p(2));
    let r = make_dot_expr(&mut state, lhs, variable("b", 6), p(5)).unwrap();
    let inner = Expr::Dot(pair(Expr::IntegerConstant(0, p(3)), property("b", 6)), p(5));
    assert_eq!(r, Expr::Index(pair(variable("a", 1), inner), p(2)));
}

#[test]
fn dot_expression_never_starts_with_a_property() {
    let engine = Engine::<NoSyntax>::new();
    let mut state = ParseState::new(&engine, 0, 0, 0);
    let chain = Expr::Dot(pair(variable("b", 3), property("c", 5)), p(4));
    let r = make_dot_expr(&mut state, variable("a", 1), chain, p(2)).unwrap();
    assert_eq!(leftmost(&r), &variable("a", 1));
    let indexed = Expr::Index(pair(variable("b", 3), Expr::IntegerConstant(0, p(5))), p(4));
    let r = make_dot_expr(&mut state, variable("a", 1), indexed, p(2)).unwrap();
    assert_eq!(leftmost(&r), &variable("a", 1));
    assert_eq!(
        r,
        Expr::Dot(
            pair(
                variable("a", 1),
                Expr::Index(pair(property("b", 3), Expr::IntegerConstant(0, p(5))), p(4))
            ),
            p(2)
        )
    );
}

#[test]
fn dot_refuses_what_is_no_property() {
    let engine = Engine::<NoSyntax>::new();
    let mut state = ParseState::new(&engine, 0, 0, 0);
    let r = make_dot_expr(&mut state, variable("a", 1), Expr::IntegerConstant(1, p(3)), p(2));
    assert_eq!(r, Err(ParseError(Box::new(ParseErrorType::PropertyExpected), p(3))));
    let qualified = Expr::Variable(Box::new((
        None,
        Some((42, rhai::ast::NamespaceRef { index: None, path: vec![name("m", 3)] })),
        name("x", 6),
    )));
    let r = make_dot_expr(&mut state, variable("a", 1), qualified, p(2));
    assert_eq!(r, Err(ParseError(Box::new(ParseErrorType::PropertyExpected), p(3))));
}

#[test]
fn in_expression_checks_its_literals() {
    let s = |t: &str, c| Expr::StringConstant(t.to_string(), p(c));
    assert_eq!(
        make_in_expr(Expr::CharConstant('a', p(1)), s("abc", 8), p(5)),
        Ok(Expr::In(pair(Expr::CharConstant('a', p(1)), s("abc", 8)), p(5)))
    );
    assert_eq!(
        make_in_expr(variable("x", 1), variable("y", 6), p(3)),
        Ok(Expr::In(pair(variable("x", 1), variable("y", 6)), p(3)))
    );
    let cases: Vec<(Expr, &str)> = vec![
        (Expr::FloatConstant(0, p(1)), "a float"),
        (Expr::IntegerConstant(0, p(1)), "a number"),
        (Expr::BoolConstant(true, p(1)), "a boolean"),
        (Expr::Array(vec![], p(1)), "an array"),
        (Expr::ObjectMap(vec![], p(1)), "an object map"),
        (Expr::Unit(p(1)), "()"),
    ];
    for (lhs, kind) in cases {
        assert_eq!(
            make_in_expr(lhs, s("abc", 8), p(5)),
            Err(ParseError(
                Box::new(ParseErrorType::MalformedInExpr(format!(
                    "'in' expression for a string expects a string, not {}",
                    kind
                ))),
                p(1)
            ))
        );
    }
    assert_eq!(
        make_in_expr(Expr::Unit(p(1)), Expr::ObjectMap(vec![], p(8)), p(5)),
        Err(ParseError(
            Box::new(ParseErrorType::MalformedInExpr(
                "'in' expression for an object map expects a string, not ()".to_string()
            )),
            p(1)
        ))
    );
    assert_eq!(
        make_in_expr(s("a", 1), Expr::Unit(p(8)), p(5)),
        Err(ParseError(
            Box::new(ParseErrorType::MalformedInExpr(
                "'in' expression expects a string, array or object map".to_string()
            )),
            p(8)
        ))
    );
}

#[test]
fn assignment_respects_constants() {
    let engine = Engine::<NoSyntax>::new();
    let mut state = ParseState::new(&engine, 0, 0, 0);
    state.stack.push(("a".to_string(), AccessMode::ReadOnly));
    state.stack.push(("b".to_string(), AccessMode::ReadWrite));
    let a = || Expr::Variable(Box::new((Some(2), None, name("a", 1))));
    let b = || Expr::Variable(Box::new((Some(1), None, name("b", 1))));
    let one = || Expr::IntegerConstant(1, p(5));
    assert_eq!(
        make_assignment_stmt("=".to_string(), &state, b(), one(), p(3)),
        Ok(Stmt::Assignment(Box::new((b(), "=".to_string(), one())), p(3)))
    );
    assert_eq!(
        make_assignment_stmt("=".to_string(), &state, a(), one(), p(3)),
        Err(ParseError(Box::new(ParseErrorType::AssignmentToConstant("a".to_string())), p(1)))
    );
    let stale = Expr::Variable(Box::new((Some(3), None, name("c", 1))));
    assert_eq!(
        make_assignment_stmt("=".to_string(), &state, stale, one(), p(3)),
        Err(ParseError(Box::new(ParseErrorType::AssignmentToInvalidLHS(String::new())), p(1)))
    );
    let chain = Expr::Dot(pair(a(), property("x", 3)), p(2));
    assert_eq!(
        make_assignment_stmt("+=".to_string(), &state, chain, one(), p(3)),
        Err(ParseError(Box::new(ParseErrorType::AssignmentToConstant("a".to_string())), p(1)))
    );
    let chain = Expr::Dot(pair(b(), variable("x", 3)), p(2));
    assert_eq!(
        make_assignment_stmt("=".to_string(), &state, chain, one(), p(3)),
        Err(ParseError(Box::new(ParseErrorType::AssignmentToInvalidLHS(String::new())), p(3)))
    );
    let stray = property("x", 4);
    assert_eq!(
        make_assignment_stmt("=".to_string(), &state, stray, one(), p(3)),
        Err(ParseError(Box::new(ParseErrorType::AssignmentToInvalidLHS(String::new())), p(4)))
    );
}

#[test]
fn curry_wraps_captured_variables() {
    let pointer = || Expr::FnPointer("anon$0".to_string(), p(1));
    assert_eq!(make_curry_from_externals(pointer(), vec![], p(1), true), pointer());
    let call = Expr::FnCall(
        Box::new(FnCallExpr {
            name: "curry".to_string(),
            namespace: None,
            capture: false,
            hash_script: Some(calc_script_fn_hash(&Vec::new(), "curry", 3)),
            def_value: None,
            args: vec![pointer(), variable("a", 4), variable("b", 7)],
        }),
        p(1),
    );
    let shared = make_curry_from_externals(pointer(), vec![name("a", 4), name("b", 7)], p(1), true);
    match shared {
        Expr::Stmt(stmts, pos) => {
            assert_eq!(pos, p(1));
            assert_eq!(stmts.len(), 3);
            assert_eq!(stmts[0], Stmt::Share(name("a", 4)));
            assert_eq!(stmts[1], Stmt::Share(name("b", 7)));
            assert_eq!(stmts[2], Stmt::Expr(call));
        }
        other => panic!("{:?}", other),
    }
    let plain =
        make_curry_from_externals(pointer(), vec![name("a", 4), name("b", 7)], p(1), false);
    assert!(matches!(plain, Expr::FnCall(ref x, _) if x.args.len() == 3));
}

#[test]
fn index_check_by_literal_kinds() {
    let ok = |lhs: &Expr, idx: &Expr| check_index_type(lhs, idx).is_ok();
    let int = Expr::IntegerConstant(0, p(3));
    let s = Expr::StringConstant("k".to_string(), p(3));
    assert!(ok(&Expr::Array(vec![], p(1)), &int));
    assert!(ok(&Expr::ObjectMap(vec![], p(1)), &s));
    assert!(ok(&variable("a", 1), &int));
    assert!(ok(&variable("a", 1), &variable("i", 3)));
    assert_eq!(
        check_index_type(&Expr::BoolConstant(true, p(1)), &int),
        Err(ParseError(
            Box::new(ParseErrorType::MalformedIndexExpr(
                "Only arrays, object maps and strings can be indexed".to_string()
            )),
            p(1)
        ))
    );
    assert_eq!(
        check_index_type(&variable("a", 1), &Expr::IntegerConstant(i64::MIN, p(3))),
        Err(ParseError(
            Box::new(ParseErrorType::MalformedIndexExpr(
                "Array access expects non-negative index: -9223372036854775808 < 0".to_string()
            )),
            p(3)
        ))
    );
}

#[test]
fn unary_builders() {
    assert_eq!(
        make_negated(Expr::IntegerConstant(5, p(2)), p(1), true),
        Ok(Expr::IntegerConstant(-5, p(2)))
    );
    assert_eq!(
        make_negated(Expr::IntegerConstant(i64::MIN, p(2)), p(1), true),
        Ok(Expr::FloatConstant(0x43E0_0000_0000_0000, p(2)))
    );
    assert_eq!(
        make_negated(Expr::FloatConstant(1.5f64.to_bits(), p(2)), p(1), true),
        Ok(Expr::FloatConstant((-1.5f64).to_bits(), p(2)))
    );
    assert_eq!(make_plussed(Expr::IntegerConstant(5, p(2)), p(1)), Expr::IntegerConstant(5, p(2)));
    match make_notted(variable("a", 2), p(1)) {
        Expr::FnCall(x, pos) => {
            assert_eq!(pos, p(1));
            assert_eq!(x.name, "!");
            assert_eq!(x.def_value, Some(Dynamic::Bool(false)));
            assert_eq!(x.args, vec![variable("a", 2)]);
        }
        other => panic!("{:?}", other),
    }
}

#[test]
fn binary_builder_rejects_what_is_no_operator() {
    let engine = Engine::<NoSyntax>::new();
    let one = || Expr::IntegerConstant(1, p(1));
    assert_eq!(
        make_binary_expr(&engine, Token::Equals, one(), one(), p(2)),
        Err(ParseError(Box::new(ParseErrorType::UnknownOperator("=".to_string())), p(2)))
    );
    assert_eq!(
        make_binary_expr(&engine, Token::Custom("foo".to_string()), one(), one(), p(2)),
        Err(ParseError(Box::new(ParseErrorType::UnknownOperator("foo".to_string())), p(2)))
    );
    match make_binary_expr(&engine, Token::PowerOf, one(), one(), p(2)).unwrap() {
        Expr::FnCall(x, _) => assert_eq!(x.name, "**"),
        other => panic!("{:?}", other),
    }
}

#[test]
fn values_lower_to_constants_and_back() {
    let leaves = vec![
        Dynamic::Unit,
        Dynamic::Bool(true),
        Dynamic::Int(-7),
        Dynamic::Float(2.5f64.to_bits()),
        Dynamic::Char('x'),
        Dynamic::Str("text".to_string()),
    ];
    for v in leaves {
        let e = map_dynamic_to_expr(v.clone_value(), p(9)).unwrap();
        assert!(e.is_constant());
        assert_eq!(e.position(), p(9));
        assert_eq!(e.get_constant_value(), Some(v));
    }
    let nested = Dynamic::Array(vec![
        Dynamic::Int(1),
        Dynamic::ObjectMap(object(&[("a", 1), ("b", 2)])),
        Dynamic::Array(vec![]),
    ]);
    let e = map_dynamic_to_expr(nested.clone_value(), p(1)).unwrap();
    assert_eq!(e.get_constant_value(), Some(nested));
    assert_eq!(map_dynamic_to_expr(Dynamic::Int(3), p(2)), Some(Expr::IntegerConstant(3, p(2))));
    assert_eq!(
        map_dynamic_to_expr(Dynamic::ObjectMap(object(&[("a", 1)])), p(2)),
        Some(Expr::ObjectMap(vec![(name("a", 2), Expr::IntegerConstant(1, p(2)))], p(2)))
    );
}

#[test]
fn values_without_a_constant_do_not_lower() {
    assert_eq!(map_dynamic_to_expr(Dynamic::FnPtr("f".to_string()), p(1)), None);
    let inside = Dynamic::Array(vec![Dynamic::Int(1), Dynamic::FnPtr("f".to_string())]);
    assert_eq!(map_dynamic_to_expr(inside, p(1)), None);
    let mut m = ObjectMap::new();
    m.insert("f".to_string(), Dynamic::FnPtr("f".to_string()));
    assert_eq!(map_dynamic_to_expr(Dynamic::ObjectMap(m), p(1)), None);
}

#[test]
fn constants_and_their_values() {
    let call = Expr::FnCall(
        Box::new(FnCallExpr {
            name: "f".to_string(),
            namespace: None,
            capture: false,
            hash_script: None,
            def_value: None,
            args: vec![],
        }),
        p(1),
    );
    assert!(!call.is_constant());
    assert_eq!(call.get_constant_value(), None);
    let mixed = Expr::Array(vec![Expr::IntegerConstant(1, p(2)), variable("a", 5)], p(1));
    assert!(!mixed.is_constant());
    assert_eq!(mixed.get_constant_value(), None);
    let test = Expr::In(
        pair(Expr::CharConstant('a', p(1)), Expr::StringConstant("abc".to_string(), p(8))),
        p(5),
    );
    assert!(test.is_constant());
    assert_eq!(test.get_constant_value(), None);
    assert_eq!(test.position(), p(1));
    assert_eq!(
        Expr::FnPointer("f".to_string(), p(1)).get_constant_value(),
        Some(Dynamic::FnPtr("f".to_string()))
    );
}

#[test]
fn hashes_tell_values_apart() {
    let h = |v: Dynamic| calc_value_hash(&v);
    assert_eq!(h(Dynamic::Int(1)), h(Dynamic::Int(1)));
    assert_ne!(h(Dynamic::Int(1)), h(Dynamic::Int(2)));
    assert_ne!(h(Dynamic::Int(1)), h(Dynamic::Float(1)));
    assert_ne!(h(Dynamic::Str("1".to_string())), h(Dynamic::Char('1')));
    assert_ne!(h(Dynamic::Bool(true)), h(Dynamic::Bool(false)));
    assert_ne!(h(Dynamic::Unit), h(Dynamic::Array(vec![])));
    assert_ne!(
        h(Dynamic::Array(vec![Dynamic::Int(1), Dynamic::Int(2)])),
        h(Dynamic::Array(vec![Dynamic::Int(2), Dynamic::Int(1)]))
    );
    assert_eq!(
        h(Dynamic::ObjectMap(object(&[("a", 1), ("b", 2)]))),
        h(Dynamic::ObjectMap(object(&[("b", 2), ("a", 1)])))
    );
    assert_ne!(
        h(Dynamic::ObjectMap(object(&[("a", 1), ("b", 2)]))),
        h(Dynamic::ObjectMap(object(&[("a", 2), ("b", 1)])))
    );
}

#[test]
fn function_hashes_depend_on_name_arity_and_modules() {
    let none: Vec<Ident> = Vec::new();
    assert_eq!(calc_script_fn_hash(&none, "f", 1), calc_script_fn_hash(&none, "f", 1));
    assert_ne!(calc_script_fn_hash(&none, "f", 1), calc_script_fn_hash(&none, "f", 2));
    assert_ne!(calc_script_fn_hash(&none, "f", 1), calc_script_fn_hash(&none, "g", 1));
    assert_ne!(calc_script_fn_hash(&none, "f", 1), 0);
    let m = vec![name("m", 1)];
    let n = vec![name("n", 1)];
    let mn = vec![name("m", 1), name("n", 4)];
    assert_ne!(calc_script_fn_hash(&m, "f", 1), calc_script_fn_hash(&none, "f", 1));
    assert_eq!(calc_script_fn_hash(&m, "f", 1), calc_script_fn_hash(&n, "f", 1));
    assert_ne!(calc_script_fn_hash(&m, "f", 1), calc_script_fn_hash(&mn, "f", 1));
}

#[test]
fn anonymous_function_name_is_prefix_and_hex() {
    let a = make_anon_fn_name(1, p(1));
    assert_eq!(a, make_anon_fn_name(1, p(1)));
    assert_ne!(a, make_anon_fn_name(2, p(1)));
    assert_ne!(a, make_anon_fn_name(1, p(2)));
    assert_ne!(a, make_anon_fn_name(1, Position::new(2, 1)));
    assert_eq!(a.len(), 21);
    assert!(a.starts_with("anon$"));
    assert!(u64::from_str_radix(&a[5..], 16).is_ok());
    assert_eq!(a, a.to_lowercase());
}

#[test]
fn object_map_keeps_the_order_of_first_insertion() {
    let mut m = object(&[("a", 1), ("b", 2)]);
    m.insert("a".to_string(), Dynamic::Int(3));
    assert_eq!(
        m.entries,
        vec![("a".to_string(), Dynamic::Int(3)), ("b".to_string(), Dynamic::Int(2))]
    );
    assert_eq!(m.get("b"), Some(&Dynamic::Int(2)));
    assert_eq!(m.get("c"), None);
    assert_eq!(m.find("b"), Some(1));
    assert_eq!(m.remove("a"), Some(Dynamic::Int(3)));
    assert_eq!(m.remove("a"), None);
    assert_eq!(m.entries, vec![("b".to_string(), Dynamic::Int(2))]);
}

#[test]
fn map_has_len_clear_remove() {
    let mut m = object(&[("a", 1), ("b", 2)]);
    assert!(has(&mut m, "a".to_string()));
    assert!(!has(&mut m, "c".to_string()));
    assert_eq!(len(&mut m), 2);
    assert_eq!(remove(&mut m, "a".to_string()), Dynamic::Int(1));
    assert_eq!(remove(&mut m, "a".to_string()), Dynamic::Unit);
    assert_eq!(len(&mut m), 1);
    clear(&mut m);
    assert_eq!(len(&mut m), 0);
    assert!(!has(&mut m, "b".to_string()));
}

#[test]
fn map_mixin_merge_fill() {
    let mut m = object(&[("a", 1), ("b", 2)]);
    mixin(&mut m, object(&[("b", 20), ("c", 30)]));
    assert_eq!(m, object(&[("a", 1), ("b", 20), ("c", 30)]));
    let merged = merge(object(&[("a", 1)]), object(&[("a", 10), ("z", 26)]));
    assert_eq!(merged, object(&[("a", 10), ("z", 26)]));
    let mut m = object(&[("a", 1), ("b", 2)]);
    fill_with(&mut m, object(&[("b", 20), ("c", 30)]));
    assert_eq!(m, object(&[("a", 1), ("b", 2), ("c", 30)]));
}

#[test]
fn map_keys_and_values() {
    let mut m = object(&[("a", 1), ("b", 2)]);
    assert_eq!(keys(&mut m), vec![Dynamic::Str("a".to_string()), Dynamic::Str("b".to_string())]);
    assert_eq!(values(&mut m), vec![Dynamic::Int(1), Dynamic::Int(2)]);
    assert_eq!(m, object(&[("a", 1), ("b", 2)]));
}

#[test]
fn lexer_error_becomes_parse_error() {
    let e = LexError::MalformedNumber("1x".to_string()).into_err(p(4));
    assert_eq!(
        e,
        ParseError(
            Box::new(ParseErrorType::BadInput(LexError::MalformedNumber("1x".to_string()))),
            p(4)
        )
    );
    assert_eq!(
        ParseErrorType::LoopBreak.into_err(p(2)),
        ParseError(Box::new(ParseErrorType::LoopBreak), p(2))
    );
}
