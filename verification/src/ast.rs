//! The syntax tree that the parser builds.

use vstd::prelude::*;
use crate::dynamic::{
    Dynamic, DynamicV, ObjectMap, dynamic_views, lemma_array_view, lemma_map_view, map_insert,
};
use crate::position::Position;
use crate::token::Token;

verus! {

/// A name with the position at which it stands.
#[derive(Debug, PartialEq, Eq)]
pub struct Ident {
    /// The name.
    pub name: String,
    /// Where it stands.
    pub pos: Position,
}

/// The mathematical value of an [`Ident`].
pub ghost struct IdentV {
    pub name: Seq<char>,
    pub pos: Position,
}

impl View for Ident {
    type V = IdentV;

    open spec fn view(&self) -> IdentV {
        IdentV { name: self.name@, pos: self.pos }
    }
}

impl Ident {
    /// A copy of the name and its position.
    pub fn clone_ident(&self) -> (r: Ident)
        ensures
            r == *self,
    {
        Ident { name: self.name.clone(), pos: self.pos }
    }
}

/// A chain of module aliases in front of a name, as in `a::b::name`.
#[derive(Debug, PartialEq, Eq)]
pub struct NamespaceRef {
    /// The place of the first alias on the stack of imported modules,
    /// counted from the top, once it has been looked up.
    pub index: Option<usize>,
    /// The aliases, outermost first. Never empty.
    pub path: Vec<Ident>,
}

/// The mathematical value of a [`NamespaceRef`].
pub ghost struct NamespaceRefV {
    pub index: Option<usize>,
    pub path: Seq<IdentV>,
}

/// The values of a sequence of names.
pub open spec fn ident_views(s: Seq<Ident>) -> Seq<IdentV> {
    Seq::new(s.len(), |i: int| s[i]@)
}

/// The texts of a sequence of strings.
pub open spec fn string_views(s: Seq<String>) -> Seq<Seq<char>> {
    Seq::new(s.len(), |i: int| s[i]@)
}

/// The names of a sequence of identifiers.
pub open spec fn ident_names(s: Seq<IdentV>) -> Seq<Seq<char>> {
    Seq::new(s.len(), |i: int| s[i].name)
}

impl View for NamespaceRef {
    type V = NamespaceRefV;

    open spec fn view(&self) -> NamespaceRefV {
        NamespaceRefV { index: self.index, path: ident_views(self.path@) }
    }
}

/// Whether a function is visible from outside its script.
#[derive(Clone, Copy, Debug, PartialEq, Eq, Hash, Structural)]
pub enum FnAccess {
    /// Visible from outside.
    Public,
    /// For the script alone.
    Private,
}

/// The two ways of leaving a function.
#[derive(Clone, Copy, Debug, PartialEq, Eq, Hash, Structural)]
pub enum ReturnType {
    /// `return`
    Return,
    /// `throw`
    Exception,
}

/// The two operands of a binary node.
#[derive(Debug, PartialEq, Eq)]
pub struct BinaryExpr {
    /// The operand on the left.
    pub lhs: Expr,
    /// The operand on the right.
    pub rhs: Expr,
}

/// A function call.
#[derive(Debug, PartialEq, Eq)]
pub struct FnCallExpr {
    /// The name of the function.
    pub name: String,
    /// The modules that qualify the name, if any.
    pub namespace: Option<NamespaceRef>,
    /// Does the call capture the scope from which it is made?
    pub capture: bool,
    /// The hash under which a script function of this name and number of
    /// arguments is kept.
    pub hash_script: Option<u64>,
    /// The value of the call when no function fits the operands.
    pub def_value: Option<Dynamic>,
    /// The arguments.
    pub args: Vec<Expr>,
}

/// An expression of a custom syntax.
#[derive(Debug, PartialEq, Eq)]
pub struct CustomExpr {
    /// The expressions and blocks that the syntax collected.
    pub keywords: Vec<Expr>,
    /// The handle of the function that evaluates the syntax.
    pub func: usize,
    /// The segments that were matched, in order.
    pub tokens: Vec<String>,
}

/// An expression.
#[derive(Debug, PartialEq, Eq)]
pub enum Expr {
    /// `()`
    Unit(Position),
    /// `true` or `false`
    BoolConstant(bool, Position),
    /// An integer literal.
    IntegerConstant(i64, Position),
    /// A floating-point literal, as its IEEE-754 bits.
    FloatConstant(u64, Position),
    /// A character literal.
    CharConstant(char, Position),
    /// A string literal.
    StringConstant(String, Position),
    /// A pointer to the function of the given name.
    FnPointer(String, Position),
    /// `[ item, ... ]`
    Array(Vec<Expr>, Position),
    /// `#{ name: value, ... }`
    ObjectMap(Vec<(Ident, Expr)>, Position),
    /// A variable: its place on the scope stack counted from the top, if it
    /// was found at parse time; the hash and modules that qualify it, if any;
    /// and its name.
    Variable(Box<(Option<usize>, Option<(u64, NamespaceRef)>, Ident)>),
    /// A property of an object: the names of its getter and setter, and its
    /// own name.
    Property(Box<(String, String, Ident)>),
    /// A block of statements in the place of an expression.
    Stmt(Vec<Stmt>, Position),
    /// A function call.
    FnCall(Box<FnCallExpr>, Position),
    /// `lhs.rhs`
    Dot(Box<BinaryExpr>, Position),
    /// `lhs[rhs]`
    Index(Box<BinaryExpr>, Position),
    /// `lhs && rhs`
    And(Box<BinaryExpr>, Position),
    /// `lhs || rhs`
    Or(Box<BinaryExpr>, Position),
    /// `lhs in rhs`
    In(Box<BinaryExpr>, Position),
    /// An expression of a custom syntax.
    Custom(Box<CustomExpr>, Position),
}

/// A statement.
#[derive(Debug, PartialEq, Eq)]
pub enum Stmt {
    /// Nothing.
    Noop(Position),
    /// `if guard { then } else { otherwise }`
    If(Expr, Box<(Stmt, Option<Stmt>)>, Position),
    /// `switch item { value => stmt, ..., _ => stmt }`: the cases keyed by
    /// the hash of their value, in the order of the script, and the default.
    Switch(Expr, Box<(Vec<(u64, Stmt)>, Option<Stmt>)>, Position),
    /// `while guard { body }`
    While(Expr, Box<Stmt>, Position),
    /// `do { body } while guard` when the flag is set, `until` when not.
    Do(Box<Stmt>, Expr, bool, Position),
    /// `for name in iterable { body }`
    For(Expr, Box<(String, Stmt)>, Position),
    /// `let name = value`, exported when the flag is set.
    Let(Box<Ident>, Option<Expr>, bool, Position),
    /// `const name = value`, exported when the flag is set.
    Const(Box<Ident>, Option<Expr>, bool, Position),
    /// `lhs op rhs`, where `op` is `=` or a compound operator such as `+=`.
    Assignment(Box<(Expr, String, Expr)>, Position),
    /// `{ stmt; ... }`
    Block(Vec<Stmt>, Position),
    /// `try { body } catch (name) { handler }`
    TryCatch(Box<(Stmt, Option<Ident>, Stmt)>, Position, Position),
    /// An expression.
    Expr(Expr),
    /// `continue`
    Continue(Position),
    /// `break`
    Break(Position),
    /// `return value` or `throw value`
    Return((ReturnType, Position), Option<Expr>, Position),
    /// `import path as name`
    Import(Expr, Option<Box<Ident>>, Position),
    /// `export name as alias, ...`
    Export(Vec<(Ident, Option<Ident>)>, Position),
    /// Turns a captured variable into a shared one.
    Share(Ident),
}

/// The mathematical value of a [`FnCallExpr`].
pub ghost struct FnCallExprV {
    pub name: Seq<char>,
    pub namespace: Option<NamespaceRefV>,
    pub capture: bool,
    pub hash_script: Option<u64>,
    pub def_value: Option<DynamicV>,
    pub args: Seq<ExprV>,
}

/// The mathematical value of a [`CustomExpr`].
pub ghost struct CustomExprV {
    pub keywords: Seq<ExprV>,
    pub func: usize,
    pub tokens: Seq<Seq<char>>,
}

/// The mathematical value of an [`Expr`].
pub ghost enum ExprV {
    Unit(Position),
    BoolConstant(bool, Position),
    IntegerConstant(i64, Position),
    FloatConstant(u64, Position),
    CharConstant(char, Position),
    StringConstant(Seq<char>, Position),
    FnPointer(Seq<char>, Position),
    Array(Seq<ExprV>, Position),
    ObjectMap(Seq<(IdentV, ExprV)>, Position),
    Variable(Option<usize>, Option<(u64, NamespaceRefV)>, IdentV),
    Property(Seq<char>, Seq<char>, IdentV),
    Stmt(Seq<StmtV>, Position),
    FnCall(FnCallExprV, Position),
    Dot(Box<ExprV>, Box<ExprV>, Position),
    Index(Box<ExprV>, Box<ExprV>, Position),
    And(Box<ExprV>, Box<ExprV>, Position),
    Or(Box<ExprV>, Box<ExprV>, Position),
    In(Box<ExprV>, Box<ExprV>, Position),
    Custom(CustomExprV, Position),
}

/// The mathematical value of a [`Stmt`].
pub ghost enum StmtV {
    Noop(Position),
    If(ExprV, Box<StmtV>, Option<Box<StmtV>>, Position),
    Switch(ExprV, Seq<(u64, StmtV)>, Option<Box<StmtV>>, Position),
    While(ExprV, Box<StmtV>, Position),
    Do(Box<StmtV>, ExprV, bool, Position),
    For(ExprV, Seq<char>, Box<StmtV>, Position),
    Let(IdentV, Option<ExprV>, bool, Position),
    Const(IdentV, Option<ExprV>, bool, Position),
    Assignment(ExprV, Seq<char>, ExprV, Position),
    Block(Seq<StmtV>, Position),
    TryCatch(Box<StmtV>, Option<IdentV>, Box<StmtV>, Position, Position),
    Expr(ExprV),
    Continue(Position),
    Break(Position),
    Return(ReturnType, Position, Option<ExprV>, Position),
    Import(ExprV, Option<IdentV>, Position),
    Export(Seq<(IdentV, Option<IdentV>)>, Position),
    Share(IdentV),
}

/// The values of a list of exports.
pub open spec fn export_views(s: Seq<(Ident, Option<Ident>)>) -> Seq<(IdentV, Option<IdentV>)> {
    Seq::new(
        s.len(),
        |i: int|
            (
                s[i].0@,
                match s[i].1 {
                    Some(id) => Some(id@),
                    None => None,
                },
            ),
    )
}

/// The value of an optional name.
pub open spec fn opt_ident_view(e: Option<Ident>) -> Option<IdentV> {
    match e {
        Some(e) => Some(e@),
        None => None,
    }
}

/// The values of a sequence of expressions.
pub open spec fn expr_views(s: Seq<Expr>) -> Seq<ExprV>
    decreases s,
{
    if s.len() == 0 {
        Seq::empty()
    } else {
        expr_views(s.drop_last()).push(expr_view(s.last()))
    }
}

/// The values of a sequence of statements.
pub open spec fn stmt_views(s: Seq<Stmt>) -> Seq<StmtV>
    decreases s,
{
    if s.len() == 0 {
        Seq::empty()
    } else {
        stmt_views(s.drop_last()).push(stmt_view(s.last()))
    }
}

/// The values of the properties of an object-map literal.
pub open spec fn pair_views(s: Seq<(Ident, Expr)>) -> Seq<(IdentV, ExprV)>
    decreases s,
{
    if s.len() == 0 {
        Seq::empty()
    } else {
        pair_views(s.drop_last()).push((s.last().0@, expr_view(s.last().1)))
    }
}

/// The values of the cases of a switch.
pub open spec fn case_views(s: Seq<(u64, Stmt)>) -> Seq<(u64, StmtV)>
    decreases s,
{
    if s.len() == 0 {
        Seq::empty()
    } else {
        case_views(s.drop_last()).push((s.last().0, stmt_view(s.last().1)))
    }
}

/// The value of an optional expression.
pub open spec fn opt_expr_view(e: Option<Expr>) -> Option<ExprV>
    decreases e,
{
    match e {
        Some(e) => Some(expr_view(e)),
        None => None,
    }
}

/// The value of an optional statement.
pub open spec fn opt_stmt_view(s: Option<Stmt>) -> Option<Box<StmtV>>
    decreases s,
{
    match s {
        Some(s) => Some(Box::new(stmt_view(s))),
        None => None,
    }
}

/// The value of an expression.
pub open spec fn expr_view(e: Expr) -> ExprV
    decreases e,
{
    match e {
        Expr::Unit(p) => ExprV::Unit(p),
        Expr::BoolConstant(b, p) => ExprV::BoolConstant(b, p),
        Expr::IntegerConstant(i, p) => ExprV::IntegerConstant(i, p),
        Expr::FloatConstant(f, p) => ExprV::FloatConstant(f, p),
        Expr::CharConstant(c, p) => ExprV::CharConstant(c, p),
        Expr::StringConstant(s, p) => ExprV::StringConstant(s@, p),
        Expr::FnPointer(s, p) => ExprV::FnPointer(s@, p),
        Expr::Array(items, p) => ExprV::Array(expr_views(items@), p),
        Expr::ObjectMap(items, p) => ExprV::ObjectMap(pair_views(items@), p),
        Expr::Variable(x) => ExprV::Variable(
            x.0,
            match x.1 {
                Some((hash, ns)) => Some((hash, ns@)),
                None => None,
            },
            x.2@,
        ),
        Expr::Property(x) => ExprV::Property(x.0@, x.1@, x.2@),
        Expr::Stmt(stmts, p) => ExprV::Stmt(stmt_views(stmts@), p),
        Expr::FnCall(x, p) => ExprV::FnCall(
            FnCallExprV {
                name: x.name@,
                namespace: match x.namespace {
                    Some(ns) => Some(ns@),
                    None => None,
                },
                capture: x.capture,
                hash_script: x.hash_script,
                def_value: match x.def_value {
                    Some(d) => Some(d@),
                    None => None,
                },
                args: expr_views(x.args@),
            },
            p,
        ),
        Expr::Dot(x, p) => ExprV::Dot(Box::new(expr_view(x.lhs)), Box::new(expr_view(x.rhs)), p),
        Expr::Index(x, p) => ExprV::Index(
            Box::new(expr_view(x.lhs)),
            Box::new(expr_view(x.rhs)),
            p,
        ),
        Expr::And(x, p) => ExprV::And(Box::new(expr_view(x.lhs)), Box::new(expr_view(x.rhs)), p),
        Expr::Or(x, p) => ExprV::Or(Box::new(expr_view(x.lhs)), Box::new(expr_view(x.rhs)), p),
        Expr::In(x, p) => ExprV::In(Box::new(expr_view(x.lhs)), Box::new(expr_view(x.rhs)), p),
        Expr::Custom(x, p) => ExprV::Custom(
            CustomExprV {
                keywords: expr_views(x.keywords@),
                func: x.func,
                tokens: string_views(x.tokens@),
            },
            p,
        ),
    }
}

/// The value of a statement.
pub open spec fn stmt_view(st: Stmt) -> StmtV
    decreases st,
{
    match st {
        Stmt::Noop(p) => StmtV::Noop(p),
        Stmt::If(guard, x, p) => StmtV::If(
            expr_view(guard),
            Box::new(stmt_view(x.0)),
            opt_stmt_view(x.1),
            p,
        ),
        Stmt::Switch(item, x, p) => StmtV::Switch(
            expr_view(item),
            case_views(x.0@),
            opt_stmt_view(x.1),
            p,
        ),
        Stmt::While(guard, body, p) => StmtV::While(
            expr_view(guard),
            Box::new(stmt_view(*body)),
            p,
        ),
        Stmt::Do(body, guard, is_while, p) => StmtV::Do(
            Box::new(stmt_view(*body)),
            expr_view(guard),
            is_while,
            p,
        ),
        Stmt::For(iterable, x, p) => StmtV::For(
            expr_view(iterable),
            x.0@,
            Box::new(stmt_view(x.1)),
            p,
        ),
        Stmt::Let(name, value, export, p) => StmtV::Let(name@, opt_expr_view(value), export, p),
        Stmt::Const(name, value, export, p) => StmtV::Const(
            name@,
            opt_expr_view(value),
            export,
            p,
        ),
        Stmt::Assignment(x, p) => StmtV::Assignment(expr_view(x.0), x.1@, expr_view(x.2), p),
        Stmt::Block(stmts, p) => StmtV::Block(stmt_views(stmts@), p),
        Stmt::TryCatch(x, p, catch_pos) => StmtV::TryCatch(
            Box::new(stmt_view(x.0)),
            opt_ident_view(x.1),
            Box::new(stmt_view(x.2)),
            p,
            catch_pos,
        ),
        Stmt::Expr(e) => StmtV::Expr(expr_view(e)),
        Stmt::Continue(p) => StmtV::Continue(p),
        Stmt::Break(p) => StmtV::Break(p),
        Stmt::Return(kind, value, p) => StmtV::Return(kind.0, kind.1, opt_expr_view(value), p),
        Stmt::Import(path, alias, p) => StmtV::Import(
            expr_view(path),
            match alias {
                Some(id) => Some(id@),
                None => None,
            },
            p,
        ),
        Stmt::Export(list, p) => StmtV::Export(export_views(list@), p),
        Stmt::Share(id) => StmtV::Share(id@),
    }
}

impl View for Expr {
    type V = ExprV;

    open spec fn view(&self) -> ExprV {
        expr_view(*self)
    }
}

impl View for Stmt {
    type V = StmtV;

    open spec fn view(&self) -> StmtV {
        stmt_view(*self)
    }
}

/// The values of a sequence of expressions, item by item.
pub proof fn lemma_expr_views(s: Seq<Expr>)
    ensures
        expr_views(s).len() == s.len(),
        forall|i: int| 0 <= i < s.len() ==> expr_views(s)[i] == s[i]@,
    decreases s.len(),
{
    if s.len() > 0 {
        lemma_expr_views(s.drop_last());
    }
}

/// The values of a sequence of statements, item by item.
pub proof fn lemma_stmt_views(s: Seq<Stmt>)
    ensures
        stmt_views(s).len() == s.len(),
        forall|i: int| 0 <= i < s.len() ==> stmt_views(s)[i] == s[i]@,
    decreases s.len(),
{
    if s.len() > 0 {
        lemma_stmt_views(s.drop_last());
    }
}

/// The values of a sequence of properties, item by item.
pub proof fn lemma_pair_views(s: Seq<(Ident, Expr)>)
    ensures
        pair_views(s).len() == s.len(),
        forall|i: int| 0 <= i < s.len() ==> pair_views(s)[i] == (s[i].0@, s[i].1@),
    decreases s.len(),
{
    if s.len() > 0 {
        lemma_pair_views(s.drop_last());
    }
}

/// The values of a sequence of switch cases, item by item.
pub proof fn lemma_case_views(s: Seq<(u64, Stmt)>)
    ensures
        case_views(s).len() == s.len(),
        forall|i: int| 0 <= i < s.len() ==> case_views(s)[i] == (s[i].0, s[i].1@),
    decreases s.len(),
{
    if s.len() > 0 {
        lemma_case_views(s.drop_last());
    }
}

/// The values of a sequence with one more expression at its end.
pub proof fn lemma_expr_views_push(s: Seq<Expr>, e: Expr)
    ensures
        expr_views(s.push(e)) == expr_views(s).push(e@),
{
    assert(s.push(e).drop_last() =~= s);
}

/// The values of a sequence with one more statement at its end.
pub proof fn lemma_stmt_views_push(s: Seq<Stmt>, st: Stmt)
    ensures
        stmt_views(s.push(st)) == stmt_views(s).push(st@),
{
    assert(s.push(st).drop_last() =~= s);
}

/// The values of a sequence with one more property at its end.
pub proof fn lemma_pair_views_push(s: Seq<(Ident, Expr)>, e: (Ident, Expr))
    ensures
        pair_views(s.push(e)) == pair_views(s).push((e.0@, e.1@)),
{
    assert(s.push(e).drop_last() =~= s);
}

/// The values of a sequence with one more switch case at its end.
pub proof fn lemma_case_views_push(s: Seq<(u64, Stmt)>, e: (u64, Stmt))
    ensures
        case_views(s.push(e)) == case_views(s).push((e.0, e.1@)),
{
    assert(s.push(e).drop_last() =~= s);
}

/// Are all expressions of the sequence constant?
pub open spec fn all_constant(items: Seq<ExprV>) -> bool
    decreases items,
{
    items.len() == 0 || (all_constant(items.drop_last()) && items.last().is_constant())
}

/// Are the values of all properties constant?
pub open spec fn all_constant_pairs(items: Seq<(IdentV, ExprV)>) -> bool
    decreases items,
{
    items.len() == 0 || (all_constant_pairs(items.drop_last()) && items.last().1.is_constant())
}

/// The values of the expressions, if each of them has one.
pub open spec fn constant_values(items: Seq<ExprV>) -> Option<Seq<DynamicV>>
    decreases items,
{
    if items.len() == 0 {
        Some(Seq::empty())
    } else {
        match (constant_values(items.drop_last()), items.last().constant_value()) {
            (Some(values), Some(v)) => Some(values.push(v)),
            _ => None,
        }
    }
}

/// The object map of the properties, if each of them has a value. A property
/// that stands twice keeps its first place and its last value.
pub open spec fn constant_map(items: Seq<(IdentV, ExprV)>) -> Option<Seq<(Seq<char>, DynamicV)>>
    decreases items,
{
    if items.len() == 0 {
        Some(Seq::empty())
    } else {
        match (constant_map(items.drop_last()), items.last().1.constant_value()) {
            (Some(m), Some(v)) => Some(map_insert(m, items.last().0.name, v)),
            _ => None,
        }
    }
}

impl ExprV {
    /// Where the expression stands: for a binary node, where its left
    /// operand stands.
    pub open spec fn position(self) -> Position
        decreases self,
    {
        match self {
            ExprV::Unit(p) => p,
            ExprV::BoolConstant(_, p) => p,
            ExprV::IntegerConstant(_, p) => p,
            ExprV::FloatConstant(_, p) => p,
            ExprV::CharConstant(_, p) => p,
            ExprV::StringConstant(_, p) => p,
            ExprV::FnPointer(_, p) => p,
            ExprV::Array(_, p) => p,
            ExprV::ObjectMap(_, p) => p,
            ExprV::Variable(_, _, id) => id.pos,
            ExprV::Property(_, _, id) => id.pos,
            ExprV::Stmt(_, p) => p,
            ExprV::FnCall(_, p) => p,
            ExprV::Dot(lhs, _, _) => lhs.position(),
            ExprV::Index(lhs, _, _) => lhs.position(),
            ExprV::And(lhs, _, _) => lhs.position(),
            ExprV::Or(lhs, _, _) => lhs.position(),
            ExprV::In(lhs, _, _) => lhs.position(),
            ExprV::Custom(_, p) => p,
        }
    }

    /// Is the expression a literal, a literal array or object map of
    /// constants, or a membership test between literals?
    pub open spec fn is_constant(self) -> bool
        decreases self,
    {
        match self {
            ExprV::Unit(_) => true,
            ExprV::BoolConstant(_, _) => true,
            ExprV::IntegerConstant(_, _) => true,
            ExprV::FloatConstant(_, _) => true,
            ExprV::CharConstant(_, _) => true,
            ExprV::StringConstant(_, _) => true,
            ExprV::FnPointer(_, _) => true,
            ExprV::Array(items, _) => all_constant(items),
            ExprV::ObjectMap(items, _) => all_constant_pairs(items),
            ExprV::In(lhs, rhs, _) => (*lhs is StringConstant || *lhs is CharConstant)
                && *rhs is StringConstant,
            _ => false,
        }
    }

    /// The value of the expression, if it is a literal or an array or object
    /// map of such.
    pub open spec fn constant_value(self) -> Option<DynamicV>
        decreases self,
    {
        match self {
            ExprV::Unit(_) => Some(DynamicV::Unit),
            ExprV::BoolConstant(b, _) => Some(DynamicV::Bool(b)),
            ExprV::IntegerConstant(i, _) => Some(DynamicV::Int(i)),
            ExprV::FloatConstant(f, _) => Some(DynamicV::Float(f)),
            ExprV::CharConstant(c, _) => Some(DynamicV::Char(c)),
            ExprV::StringConstant(s, _) => Some(DynamicV::Str(s)),
            ExprV::FnPointer(s, _) => Some(DynamicV::FnPtr(s)),
            ExprV::Array(items, _) => match constant_values(items) {
                Some(values) => Some(DynamicV::Array(values)),
                None => None,
            },
            ExprV::ObjectMap(items, _) => match constant_map(items) {
                Some(m) => Some(DynamicV::ObjectMap(m)),
                None => None,
            },
            _ => None,
        }
    }

    /// May the token follow the expression as a postfix operator? A period
    /// may follow anything, an opening bracket anything that can be indexed,
    /// and a call or a module path only a name.
    pub open spec fn is_valid_postfix(self, token: Token) -> bool {
        token is Period || match self {
            ExprV::StringConstant(_, _)
            | ExprV::Stmt(_, _)
            | ExprV::FnCall(_, _)
            | ExprV::Dot(_, _, _)
            | ExprV::Index(_, _, _)
            | ExprV::Array(_, _)
            | ExprV::ObjectMap(_, _) => token is LeftBracket,
            ExprV::Variable(_, _, _) => token is LeftBracket || token is LeftParen || token is Bang
                || token is DoubleColon,
            ExprV::Property(_, _, _) => token is LeftBracket || token is LeftParen,
            _ => false,
        }
    }

    /// The leaf at the far left of a chain of `.` and `[]`.
    pub open spec fn leftmost_leaf(self) -> ExprV
        decreases self,
    {
        match self {
            ExprV::Dot(lhs, _, _) => lhs.leftmost_leaf(),
            ExprV::Index(lhs, _, _) => lhs.leftmost_leaf(),
            _ => self,
        }
    }
}

impl Expr {
    /// Where the expression stands.
    pub fn position(&self) -> (r: Position)
        ensures
            r == self@.position(),
        decreases self,
    {
        match self {
            Expr::Unit(p) => *p,
            Expr::BoolConstant(_, p) => *p,
            Expr::IntegerConstant(_, p) => *p,
            Expr::FloatConstant(_, p) => *p,
            Expr::CharConstant(_, p) => *p,
            Expr::StringConstant(_, p) => *p,
            Expr::FnPointer(_, p) => *p,
            Expr::Array(_, p) => *p,
            Expr::ObjectMap(_, p) => *p,
            Expr::Variable(x) => x.2.pos,
            Expr::Property(x) => x.2.pos,
            Expr::Stmt(_, p) => *p,
            Expr::FnCall(_, p) => *p,
            Expr::Dot(x, _) => x.lhs.position(),
            Expr::Index(x, _) => x.lhs.position(),
            Expr::And(x, _) => x.lhs.position(),
            Expr::Or(x, _) => x.lhs.position(),
            Expr::In(x, _) => x.lhs.position(),
            Expr::Custom(_, p) => *p,
        }
    }

    /// Is the expression constant?
    pub fn is_constant(&self) -> (r: bool)
        ensures
            r == self@.is_constant(),
        decreases self,
    {
        match self {
            Expr::Unit(_) => true,
            Expr::BoolConstant(_, _) => true,
            Expr::IntegerConstant(_, _) => true,
            Expr::FloatConstant(_, _) => true,
            Expr::CharConstant(_, _) => true,
            Expr::StringConstant(_, _) => true,
            Expr::FnPointer(_, _) => true,
            Expr::Array(items, _) => {
                let mut i: usize = 0;
                while i < items.len()
                    invariant
                        i <= items@.len(),
                        self is Array,
                        self->Array_0 == *items,
                        all_constant(expr_views(items@.take(i as int))),
                    decreases items@.len() - i,
                {
                    proof {
                        vstd::std_specs::vec::axiom_vec_index_decreases(*items, i as int);
                        assert(items@.take(i + 1).drop_last() =~= items@.take(i as int));
                        lemma_expr_views_push(items@.take(i as int), items@[i as int]);
                        assert(items@.take(i + 1) =~= items@.take(i as int).push(items@[i as int]));
                        assert(expr_views(items@.take(i + 1)).drop_last() =~= expr_views(
                            items@.take(i as int),
                        ));
                    }
                    if !items[i].is_constant() {
                        proof {
                            lemma_expr_views(items@);
                            lemma_expr_views_take(items@, i + 1);
                            if all_constant(expr_views(items@)) {
                                lemma_all_constant_prefix(expr_views(items@), i + 1);
                            }
                        }
                        return false;
                    }
                    i = i + 1;
                }
                assert(items@.take(i as int) =~= items@);
                true
            },
            Expr::ObjectMap(items, _) => {
                let mut i: usize = 0;
                while i < items.len()
                    invariant
                        i <= items@.len(),
                        self is ObjectMap,
                        self->ObjectMap_0 == *items,
                        all_constant_pairs(pair_views(items@.take(i as int))),
                    decreases items@.len() - i,
                {
                    proof {
                        vstd::std_specs::vec::axiom_vec_index_decreases(*items, i as int);
                        assert(items@.take(i + 1).drop_last() =~= items@.take(i as int));
                        lemma_pair_views_push(items@.take(i as int), items@[i as int]);
                        assert(items@.take(i + 1) =~= items@.take(i as int).push(items@[i as int]));
                        assert(pair_views(items@.take(i + 1)).drop_last() =~= pair_views(
                            items@.take(i as int),
                        ));
                    }
                    if !items[i].1.is_constant() {
                        proof {
                            lemma_pair_views(items@);
                            lemma_pair_views_take(items@, i + 1);
                            if all_constant_pairs(pair_views(items@)) {
                                lemma_all_constant_pairs_prefix(pair_views(items@), i + 1);
                            }
                        }
                        return false;
                    }
                    i = i + 1;
                }
                assert(items@.take(i as int) =~= items@);
                true
            },
            Expr::In(x, _) => {
                proof {
                    assert(x.lhs@ is StringConstant <==> x.lhs is StringConstant);
                    assert(x.lhs@ is CharConstant <==> x.lhs is CharConstant);
                    assert(x.rhs@ is StringConstant <==> x.rhs is StringConstant);
                }
                match (&x.lhs, &x.rhs) {
                    (Expr::StringConstant(_, _), Expr::StringConstant(_, _)) => true,
                    (Expr::CharConstant(_, _), Expr::StringConstant(_, _)) => true,
                    _ => false,
                }
            },
            _ => false,
        }
    }

    /// The value of the expression, if it is a literal or an array or object
    /// map of such.
    pub fn get_constant_value(&self) -> (r: Option<Dynamic>)
        ensures
            match r {
                Some(v) => self@.constant_value() == Some(v@),
                None => self@.constant_value() is None,
            },
        decreases self,
    {
        match self {
            Expr::Unit(_) => Some(Dynamic::Unit),
            Expr::BoolConstant(b, _) => Some(Dynamic::Bool(*b)),
            Expr::IntegerConstant(i, _) => Some(Dynamic::Int(*i)),
            Expr::FloatConstant(f, _) => Some(Dynamic::Float(*f)),
            Expr::CharConstant(c, _) => Some(Dynamic::Char(*c)),
            Expr::StringConstant(s, _) => Some(Dynamic::Str(s.clone())),
            Expr::FnPointer(s, _) => Some(Dynamic::FnPtr(s.clone())),
            Expr::Array(items, _) => {
                let mut values: Vec<Dynamic> = Vec::new();
                let mut i: usize = 0;
                while i < items.len()
                    invariant
                        i <= items@.len(),
                        self is Array,
                        self->Array_0 == *items,
                        constant_values(expr_views(items@.take(i as int))) == Some(
                            dynamic_views(values@),
                        ),
                    decreases items@.len() - i,
                {
                    proof {
                        vstd::std_specs::vec::axiom_vec_index_decreases(*items, i as int);
                        assert(items@.take(i + 1) =~= items@.take(i as int).push(items@[i as int]));
                        lemma_expr_views_push(items@.take(i as int), items@[i as int]);
                        assert(expr_views(items@.take(i + 1)).drop_last() =~= expr_views(
                            items@.take(i as int),
                        ));
                    }
                    match items[i].get_constant_value() {
                        Some(v) => {
                            proof {
                                assert(dynamic_views(values@.push(v)) =~= dynamic_views(
                                    values@,
                                ).push(v@));
                            }
                            values.push(v);
                        },
                        None => {
                            proof {
                                lemma_expr_views(items@);
                                lemma_expr_views_take(items@, i + 1);
                                if constant_values(expr_views(items@)) is Some {
                                    lemma_constant_values_prefix(expr_views(items@), i + 1);
                                }
                            }
                            return None;
                        },
                    }
                    i = i + 1;
                }
                assert(items@.take(i as int) =~= items@);
                let r = Dynamic::Array(values);
                proof {
                    lemma_array_view(r);
                }
                Some(r)
            },
            Expr::ObjectMap(items, _) => {
                let mut m = ObjectMap::new();
                let mut i: usize = 0;
                while i < items.len()
                    invariant
                        i <= items@.len(),
                        self is ObjectMap,
                        self->ObjectMap_0 == *items,
                        constant_map(pair_views(items@.take(i as int))) == Some(m@),
                    decreases items@.len() - i,
                {
                    proof {
                        vstd::std_specs::vec::axiom_vec_index_decreases(*items, i as int);
                        assert(items@.take(i + 1) =~= items@.take(i as int).push(items@[i as int]));
                        lemma_pair_views_push(items@.take(i as int), items@[i as int]);
                        assert(pair_views(items@.take(i + 1)).drop_last() =~= pair_views(
                            items@.take(i as int),
                        ));
                    }
                    match items[i].1.get_constant_value() {
                        Some(v) => {
                            m.insert(items[i].0.name.clone(), v);
                        },
                        None => {
                            proof {
                                lemma_pair_views(items@);
                                lemma_pair_views_take(items@, i + 1);
                                if constant_map(pair_views(items@)) is Some {
                                    lemma_constant_map_prefix(pair_views(items@), i + 1);
                                }
                            }
                            return None;
                        },
                    }
                    i = i + 1;
                }
                assert(items@.take(i as int) =~= items@);
                let r = Dynamic::ObjectMap(m);
                proof {
                    lemma_map_view(r);
                }
                Some(r)
            },
            _ => None,
        }
    }

    /// May the token follow the expression as a postfix operator?
    pub fn is_valid_postfix(&self, token: &Token) -> (r: bool)
        ensures
            r == self@.is_valid_postfix(*token),
    {
        match token {
            Token::Period => {
                return true;
            },
            _ => {},
        }
        match self {
            Expr::StringConstant(_, _)
            | Expr::Stmt(_, _)
            | Expr::FnCall(_, _)
            | Expr::Dot(_, _)
            | Expr::Index(_, _)
            | Expr::Array(_, _)
            | Expr::ObjectMap(_, _) => match token {
                Token::LeftBracket => true,
                _ => false,
            },
            Expr::Variable(_) => match token {
                Token::LeftBracket => true,
                Token::LeftParen => true,
                Token::Bang => true,
                Token::DoubleColon => true,
                _ => false,
            },
            Expr::Property(_) => match token {
                Token::LeftBracket => true,
                Token::LeftParen => true,
                _ => false,
            },
            _ => false,
        }
    }
}

/// The values of a prefix are the prefix of the values.
pub proof fn lemma_expr_views_take(s: Seq<Expr>, n: int)
    requires
        0 <= n <= s.len(),
    ensures
        expr_views(s.take(n)) == expr_views(s).take(n),
{
    lemma_expr_views(s);
    lemma_expr_views(s.take(n));
    assert(expr_views(s.take(n)) =~= expr_views(s).take(n));
}

/// The values of a prefix are the prefix of the values.
pub proof fn lemma_pair_views_take(s: Seq<(Ident, Expr)>, n: int)
    requires
        0 <= n <= s.len(),
    ensures
        pair_views(s.take(n)) == pair_views(s).take(n),
{
    lemma_pair_views(s);
    lemma_pair_views(s.take(n));
    assert(pair_views(s.take(n)) =~= pair_views(s).take(n));
}

/// If all are constant, so are those of every prefix.
pub proof fn lemma_all_constant_prefix(items: Seq<ExprV>, n: int)
    requires
        0 <= n <= items.len(),
        all_constant(items),
    ensures
        all_constant(items.take(n)),
    decreases items.len(),
{
    if n == items.len() {
        assert(items.take(n) =~= items);
    } else {
        lemma_all_constant_prefix(items.drop_last(), n);
        assert(items.drop_last().take(n) =~= items.take(n));
    }
}

/// If all values are constant, so are those of every prefix.
pub proof fn lemma_all_constant_pairs_prefix(items: Seq<(IdentV, ExprV)>, n: int)
    requires
        0 <= n <= items.len(),
        all_constant_pairs(items),
    ensures
        all_constant_pairs(items.take(n)),
    decreases items.len(),
{
    if n == items.len() {
        assert(items.take(n) =~= items);
    } else {
        lemma_all_constant_pairs_prefix(items.drop_last(), n);
        assert(items.drop_last().take(n) =~= items.take(n));
    }
}

/// If all expressions have values, so have those of every prefix.
pub proof fn lemma_constant_values_prefix(items: Seq<ExprV>, n: int)
    requires
        0 <= n <= items.len(),
        constant_values(items) is Some,
    ensures
        constant_values(items.take(n)) is Some,
    decreases items.len(),
{
    if n == items.len() {
        assert(items.take(n) =~= items);
    } else {
        lemma_constant_values_prefix(items.drop_last(), n);
        assert(items.drop_last().take(n) =~= items.take(n));
    }
}

/// If all properties have values, so have those of every prefix.
pub proof fn lemma_constant_map_prefix(items: Seq<(IdentV, ExprV)>, n: int)
    requires
        0 <= n <= items.len(),
        constant_map(items) is Some,
    ensures
        constant_map(items.take(n)) is Some,
    decreases items.len(),
{
    if n == items.len() {
        assert(items.take(n) =~= items);
    } else {
        lemma_constant_map_prefix(items.drop_last(), n);
        assert(items.drop_last().take(n) =~= items.take(n));
    }
}

impl StmtV {
    /// Is the statement complete without a semicolon after it?
    pub open spec fn is_self_terminated(self) -> bool {
        self is If || self is Switch || self is While || self is For || self is Block
            || self is TryCatch
    }
}

impl Stmt {
    /// Is this the empty statement?
    pub fn is_noop(&self) -> (r: bool)
        ensures
            r == (self@ is Noop),
    {
        match self {
            Stmt::Noop(_) => true,
            _ => false,
        }
    }

    /// Is the statement complete without a semicolon after it?
    pub fn is_self_terminated(&self) -> (r: bool)
        ensures
            r == self@.is_self_terminated(),
    {
        match self {
            Stmt::If(_, _, _)
            | Stmt::Switch(_, _, _)
            | Stmt::While(_, _, _)
            | Stmt::For(_, _, _)
            | Stmt::Block(_, _)
            | Stmt::TryCatch(_, _, _) => true,
            _ => false,
        }
    }
}

/// A function that a script defines.
#[derive(Debug, PartialEq, Eq)]
pub struct ScriptFnDef {
    /// The name of the function.
    pub name: String,
    /// Whether it is visible from outside the script.
    pub access: FnAccess,
    /// The names of the parameters. For an anonymous function the captured
    /// variables come first.
    pub params: Vec<String>,
    /// The variables that the body uses but does not declare.
    pub externals: Vec<String>,
    /// The body.
    pub body: Stmt,
    /// The doc-comments that stand before the function.
    pub comments: Vec<String>,
}

/// The mathematical value of a [`ScriptFnDef`].
pub ghost struct ScriptFnDefV {
    pub name: Seq<char>,
    pub access: FnAccess,
    pub params: Seq<Seq<char>>,
    pub externals: Seq<Seq<char>>,
    pub body: StmtV,
    pub comments: Seq<Seq<char>>,
}

impl View for ScriptFnDef {
    type V = ScriptFnDefV;

    open spec fn view(&self) -> ScriptFnDefV {
        ScriptFnDefV {
            name: self.name@,
            access: self.access,
            params: string_views(self.params@),
            externals: string_views(self.externals@),
            body: self.body@,
            comments: string_views(self.comments@),
        }
    }
}

/// The values of a sequence of function definitions.
pub open spec fn fn_def_views(s: Seq<ScriptFnDef>) -> Seq<ScriptFnDefV> {
    Seq::new(s.len(), |i: int| s[i]@)
}

/// What a parse yields: the statements at global level and the functions
/// that the script defines.
#[derive(Debug, PartialEq, Eq)]
pub struct AST {
    /// The statements at global level.
    pub statements: Vec<Stmt>,
    /// The functions that the script defines.
    pub functions: Vec<ScriptFnDef>,
}

} // verus!


