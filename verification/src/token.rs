//! Tokens, lexer errors and the token stream that the parser reads.

use vstd::prelude::*;
use crate::position::Position;
use crate::strings::{
    concat3, decimal, decimal_string, push_char, signed_decimal, signed_decimal_string, str_eq,
};

verus! {

/// An error met while the source text was split into tokens.
#[derive(Debug, Clone, PartialEq, Eq)]
pub enum LexError {
    /// A character or symbol that has no place in a script.
    UnexpectedInput(String),
    /// A string literal without its closing quote.
    UnterminatedString,
    /// A string literal longer than the given limit.
    StringTooLong(usize),
    /// An escape sequence that is not known.
    MalformedEscapeSequence(String),
    /// A number that cannot be read.
    MalformedNumber(String),
    /// A character literal that cannot be read.
    MalformedChar(String),
    /// An identifier that is not well formed.
    MalformedIdentifier(String),
    /// A symbol in the wrong place, with a hint.
    ImproperSymbol(String, String),
}

/// The mathematical value of a [`LexError`].
pub ghost enum LexErrorV {
    UnexpectedInput(Seq<char>),
    UnterminatedString,
    StringTooLong(usize),
    MalformedEscapeSequence(Seq<char>),
    MalformedNumber(Seq<char>),
    MalformedChar(Seq<char>),
    MalformedIdentifier(Seq<char>),
    ImproperSymbol(Seq<char>, Seq<char>),
}

impl View for LexError {
    type V = LexErrorV;

    open spec fn view(&self) -> LexErrorV {
        match self {
            LexError::UnexpectedInput(s) => LexErrorV::UnexpectedInput(s@),
            LexError::UnterminatedString => LexErrorV::UnterminatedString,
            LexError::StringTooLong(n) => LexErrorV::StringTooLong(*n),
            LexError::MalformedEscapeSequence(s) => LexErrorV::MalformedEscapeSequence(s@),
            LexError::MalformedNumber(s) => LexErrorV::MalformedNumber(s@),
            LexError::MalformedChar(s) => LexErrorV::MalformedChar(s@),
            LexError::MalformedIdentifier(s) => LexErrorV::MalformedIdentifier(s@),
            LexError::ImproperSymbol(s, d) => LexErrorV::ImproperSymbol(s@, d@),
        }
    }
}

impl LexErrorV {
    /// The message that describes the error.
    pub open spec fn text(self) -> Seq<char> {
        match self {
            LexErrorV::UnexpectedInput(s) => "Unexpected '"@ + s + "'"@,
            LexErrorV::UnterminatedString => "Open string is not terminated"@,
            LexErrorV::StringTooLong(n) => "Length of string literal exceeds the maximum limit ("@
                + decimal(n as nat) + ")"@,
            LexErrorV::MalformedEscapeSequence(s) => "Invalid escape sequence: '"@ + s + "'"@,
            LexErrorV::MalformedNumber(s) => "Invalid number: '"@ + s + "'"@,
            LexErrorV::MalformedChar(s) => "Invalid character: '"@ + s + "'"@,
            LexErrorV::MalformedIdentifier(s) => "Variable name is not proper: '"@ + s + "'"@,
            LexErrorV::ImproperSymbol(s, d) => if d.len() == 0 {
                "Invalid symbol encountered: '"@ + s + "'"@
            } else {
                d
            },
        }
    }
}

impl LexError {
    /// The message that describes the error.
    pub fn to_text(&self) -> (r: String)
        ensures
            r@ == self@.text(),
    {
        match self {
            LexError::UnexpectedInput(s) => concat3("Unexpected '", s.as_str(), "'"),
            LexError::UnterminatedString => String::from_str("Open string is not terminated"),
            LexError::StringTooLong(n) => {
                let digits = decimal_string(*n as u64);
                concat3(
                    "Length of string literal exceeds the maximum limit (",
                    digits.as_str(),
                    ")",
                )
            },
            LexError::MalformedEscapeSequence(s) => concat3(
                "Invalid escape sequence: '",
                s.as_str(),
                "'",
            ),
            LexError::MalformedNumber(s) => concat3("Invalid number: '", s.as_str(), "'"),
            LexError::MalformedChar(s) => concat3("Invalid character: '", s.as_str(), "'"),
            LexError::MalformedIdentifier(s) => concat3(
                "Variable name is not proper: '",
                s.as_str(),
                "'",
            ),
            LexError::ImproperSymbol(s, d) => {
                if d.as_str().unicode_len() == 0 {
                    concat3("Invalid symbol encountered: '", s.as_str(), "'")
                } else {
                    d.clone()
                }
            },
        }
    }

    /// A copy of the error.
    pub fn clone_error(&self) -> (r: LexError)
        ensures
            r == *self,
    {
        match self {
            LexError::UnexpectedInput(s) => LexError::UnexpectedInput(s.clone()),
            LexError::UnterminatedString => LexError::UnterminatedString,
            LexError::StringTooLong(n) => LexError::StringTooLong(*n),
            LexError::MalformedEscapeSequence(s) => LexError::MalformedEscapeSequence(s.clone()),
            LexError::MalformedNumber(s) => LexError::MalformedNumber(s.clone()),
            LexError::MalformedChar(s) => LexError::MalformedChar(s.clone()),
            LexError::MalformedIdentifier(s) => LexError::MalformedIdentifier(s.clone()),
            LexError::ImproperSymbol(s, d) => LexError::ImproperSymbol(s.clone(), d.clone()),
        }
    }

    /// Do two errors hold the same values?
    pub fn same(&self, other: &LexError) -> (r: bool)
        ensures
            r == (self@ == other@),
    {
        match (self, other) {
            (LexError::UnexpectedInput(a), LexError::UnexpectedInput(b)) => str_eq(
                a.as_str(),
                b.as_str(),
            ),
            (LexError::UnterminatedString, LexError::UnterminatedString) => true,
            (LexError::StringTooLong(a), LexError::StringTooLong(b)) => *a == *b,
            (
                LexError::MalformedEscapeSequence(a),
                LexError::MalformedEscapeSequence(b),
            ) => str_eq(a.as_str(), b.as_str()),
            (LexError::MalformedNumber(a), LexError::MalformedNumber(b)) => str_eq(
                a.as_str(),
                b.as_str(),
            ),
            (LexError::MalformedChar(a), LexError::MalformedChar(b)) => str_eq(
                a.as_str(),
                b.as_str(),
            ),
            (LexError::MalformedIdentifier(a), LexError::MalformedIdentifier(b)) => str_eq(
                a.as_str(),
                b.as_str(),
            ),
            (LexError::ImproperSymbol(a, c), LexError::ImproperSymbol(b, d)) => str_eq(
                a.as_str(),
                b.as_str(),
            ) && str_eq(c.as_str(), d.as_str()),
            _ => false,
        }
    }
}

/// One token of the source text.
#[derive(Debug, PartialEq, Eq)]
pub enum Token {
    /// An integer literal.
    IntegerConstant(i64),
    /// A floating-point literal: its IEEE-754 bits and its text.
    FloatConstant(u64, String),
    /// An identifier.
    Identifier(String),
    /// A character literal.
    CharConstant(char),
    /// A string literal.
    StringConstant(String),
    /// An error that the lexer met.
    LexError(LexError),
    /// A doc-comment, with its markers.
    Comment(String),
    /// A reserved word or symbol.
    Reserved(String),
    /// A keyword that the engine has registered.
    Custom(String),
    /// `{`
    LeftBrace,
    /// `}`
    RightBrace,
    /// `(`
    LeftParen,
    /// `)`
    RightParen,
    /// `[`
    LeftBracket,
    /// `]`
    RightBracket,
    /// `+`
    Plus,
    /// `+` in front of an operand
    UnaryPlus,
    /// `-`
    Minus,
    /// `-` in front of an operand
    UnaryMinus,
    /// `*`
    Multiply,
    /// `/`
    Divide,
    /// `%`
    Modulo,
    /// `**`
    PowerOf,
    /// `<<`
    LeftShift,
    /// `>>`
    RightShift,
    /// `;`
    SemiColon,
    /// `:`
    Colon,
    /// `::`
    DoubleColon,
    /// `=>`
    DoubleArrow,
    /// `_`
    Underscore,
    /// `,`
    Comma,
    /// `.`
    Period,
    /// `#{`
    MapStart,
    /// `=`
    Equals,
    /// `true`
    True,
    /// `false`
    False,
    /// `let`
    Let,
    /// `const`
    Const,
    /// `if`
    If,
    /// `else`
    Else,
    /// `switch`
    Switch,
    /// `do`
    Do,
    /// `while`
    While,
    /// `until`
    Until,
    /// `loop`
    Loop,
    /// `for`
    For,
    /// `in`
    In,
    /// `<`
    LessThan,
    /// `>`
    GreaterThan,
    /// `<=`
    LessThanEqualsTo,
    /// `>=`
    GreaterThanEqualsTo,
    /// `==`
    EqualsTo,
    /// `!=`
    NotEqualsTo,
    /// `!`
    Bang,
    /// `|`
    Pipe,
    /// `||`
    Or,
    /// `^`
    XOr,
    /// `&`
    Ampersand,
    /// `&&`
    And,
    /// `fn`
    Fn,
    /// `continue`
    Continue,
    /// `break`
    Break,
    /// `return`
    Return,
    /// `throw`
    Throw,
    /// `try`
    Try,
    /// `catch`
    Catch,
    /// `+=`
    PlusAssign,
    /// `-=`
    MinusAssign,
    /// `*=`
    MultiplyAssign,
    /// `/=`
    DivideAssign,
    /// `<<=`
    LeftShiftAssign,
    /// `>>=`
    RightShiftAssign,
    /// `&=`
    AndAssign,
    /// `|=`
    OrAssign,
    /// `^=`
    XOrAssign,
    /// `%=`
    ModuloAssign,
    /// `**=`
    PowerOfAssign,
    /// `private`
    Private,
    /// `import`
    Import,
    /// `export`
    Export,
    /// `as`
    As,
    /// The end of the input.
    EOF,
}

impl Token {
    /// A number that tells the variants apart.
    pub open spec fn tag_spec(&self) -> int {
        match self {
            Token::IntegerConstant(_) => 0,
            Token::FloatConstant(_, _) => 1,
            Token::Identifier(_) => 2,
            Token::CharConstant(_) => 3,
            Token::StringConstant(_) => 4,
            Token::LexError(_) => 5,
            Token::Comment(_) => 6,
            Token::Reserved(_) => 7,
            Token::Custom(_) => 8,
            Token::LeftBrace => 9,
            Token::RightBrace => 10,
            Token::LeftParen => 11,
            Token::RightParen => 12,
            Token::LeftBracket => 13,
            Token::RightBracket => 14,
            Token::Plus => 15,
            Token::UnaryPlus => 16,
            Token::Minus => 17,
            Token::UnaryMinus => 18,
            Token::Multiply => 19,
            Token::Divide => 20,
            Token::Modulo => 21,
            Token::PowerOf => 22,
            Token::LeftShift => 23,
            Token::RightShift => 24,
            Token::SemiColon => 25,
            Token::Colon => 26,
            Token::DoubleColon => 27,
            Token::DoubleArrow => 28,
            Token::Underscore => 29,
            Token::Comma => 30,
            Token::Period => 31,
            Token::MapStart => 32,
            Token::Equals => 33,
            Token::True => 34,
            Token::False => 35,
            Token::Let => 36,
            Token::Const => 37,
            Token::If => 38,
            Token::Else => 39,
            Token::Switch => 40,
            Token::Do => 41,
            Token::While => 42,
            Token::Until => 43,
            Token::Loop => 44,
            Token::For => 45,
            Token::In => 46,
            Token::LessThan => 47,
            Token::GreaterThan => 48,
            Token::LessThanEqualsTo => 49,
            Token::GreaterThanEqualsTo => 50,
            Token::EqualsTo => 51,
            Token::NotEqualsTo => 52,
            Token::Bang => 53,
            Token::Pipe => 54,
            Token::Or => 55,
            Token::XOr => 56,
            Token::Ampersand => 57,
            Token::And => 58,
            Token::Fn => 59,
            Token::Continue => 60,
            Token::Break => 61,
            Token::Return => 62,
            Token::Throw => 63,
            Token::Try => 64,
            Token::Catch => 65,
            Token::PlusAssign => 66,
            Token::MinusAssign => 67,
            Token::MultiplyAssign => 68,
            Token::DivideAssign => 69,
            Token::LeftShiftAssign => 70,
            Token::RightShiftAssign => 71,
            Token::AndAssign => 72,
            Token::OrAssign => 73,
            Token::XOrAssign => 74,
            Token::ModuloAssign => 75,
            Token::PowerOfAssign => 76,
            Token::Private => 77,
            Token::Import => 78,
            Token::Export => 79,
            Token::As => 80,
            Token::EOF => 81,
        }
    }

    /// The variant's number.
    pub fn tag(&self) -> (r: u8)
        ensures
            r == self.tag_spec(),
    {
        match self {
            Token::IntegerConstant(_) => 0,
            Token::FloatConstant(_, _) => 1,
            Token::Identifier(_) => 2,
            Token::CharConstant(_) => 3,
            Token::StringConstant(_) => 4,
            Token::LexError(_) => 5,
            Token::Comment(_) => 6,
            Token::Reserved(_) => 7,
            Token::Custom(_) => 8,
            Token::LeftBrace => 9,
            Token::RightBrace => 10,
            Token::LeftParen => 11,
            Token::RightParen => 12,
            Token::LeftBracket => 13,
            Token::RightBracket => 14,
            Token::Plus => 15,
            Token::UnaryPlus => 16,
            Token::Minus => 17,
            Token::UnaryMinus => 18,
            Token::Multiply => 19,
            Token::Divide => 20,
            Token::Modulo => 21,
            Token::PowerOf => 22,
            Token::LeftShift => 23,
            Token::RightShift => 24,
            Token::SemiColon => 25,
            Token::Colon => 26,
            Token::DoubleColon => 27,
            Token::DoubleArrow => 28,
            Token::Underscore => 29,
            Token::Comma => 30,
            Token::Period => 31,
            Token::MapStart => 32,
            Token::Equals => 33,
            Token::True => 34,
            Token::False => 35,
            Token::Let => 36,
            Token::Const => 37,
            Token::If => 38,
            Token::Else => 39,
            Token::Switch => 40,
            Token::Do => 41,
            Token::While => 42,
            Token::Until => 43,
            Token::Loop => 44,
            Token::For => 45,
            Token::In => 46,
            Token::LessThan => 47,
            Token::GreaterThan => 48,
            Token::LessThanEqualsTo => 49,
            Token::GreaterThanEqualsTo => 50,
            Token::EqualsTo => 51,
            Token::NotEqualsTo => 52,
            Token::Bang => 53,
            Token::Pipe => 54,
            Token::Or => 55,
            Token::XOr => 56,
            Token::Ampersand => 57,
            Token::And => 58,
            Token::Fn => 59,
            Token::Continue => 60,
            Token::Break => 61,
            Token::Return => 62,
            Token::Throw => 63,
            Token::Try => 64,
            Token::Catch => 65,
            Token::PlusAssign => 66,
            Token::MinusAssign => 67,
            Token::MultiplyAssign => 68,
            Token::DivideAssign => 69,
            Token::LeftShiftAssign => 70,
            Token::RightShiftAssign => 71,
            Token::AndAssign => 72,
            Token::OrAssign => 73,
            Token::XOrAssign => 74,
            Token::ModuloAssign => 75,
            Token::PowerOfAssign => 76,
            Token::Private => 77,
            Token::Import => 78,
            Token::Export => 79,
            Token::As => 80,
            Token::EOF => 81,
        }
    }

    /// The text by which the token is written in a script.
    pub open spec fn syntax_spec(&self) -> Seq<char> {
        match self {
            Token::IntegerConstant(i) => signed_decimal(*i as int),
            Token::FloatConstant(_, text) => text@,
            Token::Identifier(s) => s@,
            Token::CharConstant(c) => seq![*c],
            Token::StringConstant(_) => "string"@,
            Token::LexError(err) => err@.text(),
            Token::Comment(s) => s@,
            Token::Reserved(s) => s@,
            Token::Custom(s) => s@,
            Token::LeftBrace => "{"@,
            Token::RightBrace => "}"@,
            Token::LeftParen => "("@,
            Token::RightParen => ")"@,
            Token::LeftBracket => "["@,
            Token::RightBracket => "]"@,
            Token::Plus => "+"@,
            Token::UnaryPlus => "+"@,
            Token::Minus => "-"@,
            Token::UnaryMinus => "-"@,
            Token::Multiply => "*"@,
            Token::Divide => "/"@,
            Token::Modulo => "%"@,
            Token::PowerOf => "**"@,
            Token::LeftShift => "<<"@,
            Token::RightShift => ">>"@,
            Token::SemiColon => ";"@,
            Token::Colon => ":"@,
            Token::DoubleColon => "::"@,
            Token::DoubleArrow => "=>"@,
            Token::Underscore => "_"@,
            Token::Comma => ","@,
            Token::Period => "."@,
            Token::MapStart => "#{"@,
            Token::Equals => "="@,
            Token::True => "true"@,
            Token::False => "false"@,
            Token::Let => "let"@,
            Token::Const => "const"@,
            Token::If => "if"@,
            Token::Else => "else"@,
            Token::Switch => "switch"@,
            Token::Do => "do"@,
            Token::While => "while"@,
            Token::Until => "until"@,
            Token::Loop => "loop"@,
            Token::For => "for"@,
            Token::In => "in"@,
            Token::LessThan => "<"@,
            Token::GreaterThan => ">"@,
            Token::LessThanEqualsTo => "<="@,
            Token::GreaterThanEqualsTo => ">="@,
            Token::EqualsTo => "=="@,
            Token::NotEqualsTo => "!="@,
            Token::Bang => "!"@,
            Token::Pipe => "|"@,
            Token::Or => "||"@,
            Token::XOr => "^"@,
            Token::Ampersand => "&"@,
            Token::And => "&&"@,
            Token::Fn => "fn"@,
            Token::Continue => "continue"@,
            Token::Break => "break"@,
            Token::Return => "return"@,
            Token::Throw => "throw"@,
            Token::Try => "try"@,
            Token::Catch => "catch"@,
            Token::PlusAssign => "+="@,
            Token::MinusAssign => "-="@,
            Token::MultiplyAssign => "*="@,
            Token::DivideAssign => "/="@,
            Token::LeftShiftAssign => "<<="@,
            Token::RightShiftAssign => ">>="@,
            Token::AndAssign => "&="@,
            Token::OrAssign => "|="@,
            Token::XOrAssign => "^="@,
            Token::ModuloAssign => "%="@,
            Token::PowerOfAssign => "**="@,
            Token::Private => "private"@,
            Token::Import => "import"@,
            Token::Export => "export"@,
            Token::As => "as"@,
            Token::EOF => "{EOF}"@,
        }
    }

    /// The text by which the token is written in a script.
    pub fn syntax(&self) -> (r: String)
        ensures
            r@ == self.syntax_spec(),
    {
        match self {
            Token::IntegerConstant(i) => signed_decimal_string(*i),
            Token::FloatConstant(_, text) => text.clone(),
            Token::Identifier(s) => s.clone(),
            Token::CharConstant(c) => {
                let mut s = String::new();
                push_char(&mut s, *c);
                assert(s@ =~= seq![*c]);
                s
            },
            Token::StringConstant(_) => String::from_str("string"),
            Token::LexError(err) => err.to_text(),
            Token::Comment(s) => s.clone(),
            Token::Reserved(s) => s.clone(),
            Token::Custom(s) => s.clone(),
            Token::LeftBrace => String::from_str("{"),
            Token::RightBrace => String::from_str("}"),
            Token::LeftParen => String::from_str("("),
            Token::RightParen => String::from_str(")"),
            Token::LeftBracket => String::from_str("["),
            Token::RightBracket => String::from_str("]"),
            Token::Plus => String::from_str("+"),
            Token::UnaryPlus => String::from_str("+"),
            Token::Minus => String::from_str("-"),
            Token::UnaryMinus => String::from_str("-"),
            Token::Multiply => String::from_str("*"),
            Token::Divide => String::from_str("/"),
            Token::Modulo => String::from_str("%"),
            Token::PowerOf => String::from_str("**"),
            Token::LeftShift => String::from_str("<<"),
            Token::RightShift => String::from_str(">>"),
            Token::SemiColon => String::from_str(";"),
            Token::Colon => String::from_str(":"),
            Token::DoubleColon => String::from_str("::"),
            Token::DoubleArrow => String::from_str("=>"),
            Token::Underscore => String::from_str("_"),
            Token::Comma => String::from_str(","),
            Token::Period => String::from_str("."),
            Token::MapStart => String::from_str("#{"),
            Token::Equals => String::from_str("="),
            Token::True => String::from_str("true"),
            Token::False => String::from_str("false"),
            Token::Let => String::from_str("let"),
            Token::Const => String::from_str("const"),
            Token::If => String::from_str("if"),
            Token::Else => String::from_str("else"),
            Token::Switch => String::from_str("switch"),
            Token::Do => String::from_str("do"),
            Token::While => String::from_str("while"),
            Token::Until => String::from_str("until"),
            Token::Loop => String::from_str("loop"),
            Token::For => String::from_str("for"),
            Token::In => String::from_str("in"),
            Token::LessThan => String::from_str("<"),
            Token::GreaterThan => String::from_str(">"),
            Token::LessThanEqualsTo => String::from_str("<="),
            Token::GreaterThanEqualsTo => String::from_str(">="),
            Token::EqualsTo => String::from_str("=="),
            Token::NotEqualsTo => String::from_str("!="),
            Token::Bang => String::from_str("!"),
            Token::Pipe => String::from_str("|"),
            Token::Or => String::from_str("||"),
            Token::XOr => String::from_str("^"),
            Token::Ampersand => String::from_str("&"),
            Token::And => String::from_str("&&"),
            Token::Fn => String::from_str("fn"),
            Token::Continue => String::from_str("continue"),
            Token::Break => String::from_str("break"),
            Token::Return => String::from_str("return"),
            Token::Throw => String::from_str("throw"),
            Token::Try => String::from_str("try"),
            Token::Catch => String::from_str("catch"),
            Token::PlusAssign => String::from_str("+="),
            Token::MinusAssign => String::from_str("-="),
            Token::MultiplyAssign => String::from_str("*="),
            Token::DivideAssign => String::from_str("/="),
            Token::LeftShiftAssign => String::from_str("<<="),
            Token::RightShiftAssign => String::from_str(">>="),
            Token::AndAssign => String::from_str("&="),
            Token::OrAssign => String::from_str("|="),
            Token::XOrAssign => String::from_str("^="),
            Token::ModuloAssign => String::from_str("%="),
            Token::PowerOfAssign => String::from_str("**="),
            Token::Private => String::from_str("private"),
            Token::Import => String::from_str("import"),
            Token::Export => String::from_str("export"),
            Token::As => String::from_str("as"),
            Token::EOF => String::from_str("{EOF}"),
        }
    }

    /// A copy of the token.
    pub fn clone_token(&self) -> (r: Token)
        ensures
            r == *self,
    {
        match self {
            Token::IntegerConstant(i) => Token::IntegerConstant(*i),
            Token::FloatConstant(bits, text) => Token::FloatConstant(*bits, text.clone()),
            Token::Identifier(s) => Token::Identifier(s.clone()),
            Token::CharConstant(c) => Token::CharConstant(*c),
            Token::StringConstant(s) => Token::StringConstant(s.clone()),
            Token::LexError(err) => Token::LexError(err.clone_error()),
            Token::Comment(s) => Token::Comment(s.clone()),
            Token::Reserved(s) => Token::Reserved(s.clone()),
            Token::Custom(s) => Token::Custom(s.clone()),
            Token::LeftBrace => Token::LeftBrace,
            Token::RightBrace => Token::RightBrace,
            Token::LeftParen => Token::LeftParen,
            Token::RightParen => Token::RightParen,
            Token::LeftBracket => Token::LeftBracket,
            Token::RightBracket => Token::RightBracket,
            Token::Plus => Token::Plus,
            Token::UnaryPlus => Token::UnaryPlus,
            Token::Minus => Token::Minus,
            Token::UnaryMinus => Token::UnaryMinus,
            Token::Multiply => Token::Multiply,
            Token::Divide => Token::Divide,
            Token::Modulo => Token::Modulo,
            Token::PowerOf => Token::PowerOf,
            Token::LeftShift => Token::LeftShift,
            Token::RightShift => Token::RightShift,
            Token::SemiColon => Token::SemiColon,
            Token::Colon => Token::Colon,
            Token::DoubleColon => Token::DoubleColon,
            Token::DoubleArrow => Token::DoubleArrow,
            Token::Underscore => Token::Underscore,
            Token::Comma => Token::Comma,
            Token::Period => Token::Period,
            Token::MapStart => Token::MapStart,
            Token::Equals => Token::Equals,
            Token::True => Token::True,
            Token::False => Token::False,
            Token::Let => Token::Let,
            Token::Const => Token::Const,
            Token::If => Token::If,
            Token::Else => Token::Else,
            Token::Switch => Token::Switch,
            Token::Do => Token::Do,
            Token::While => Token::While,
            Token::Until => Token::Until,
            Token::Loop => Token::Loop,
            Token::For => Token::For,
            Token::In => Token::In,
            Token::LessThan => Token::LessThan,
            Token::GreaterThan => Token::GreaterThan,
            Token::LessThanEqualsTo => Token::LessThanEqualsTo,
            Token::GreaterThanEqualsTo => Token::GreaterThanEqualsTo,
            Token::EqualsTo => Token::EqualsTo,
            Token::NotEqualsTo => Token::NotEqualsTo,
            Token::Bang => Token::Bang,
            Token::Pipe => Token::Pipe,
            Token::Or => Token::Or,
            Token::XOr => Token::XOr,
            Token::Ampersand => Token::Ampersand,
            Token::And => Token::And,
            Token::Fn => Token::Fn,
            Token::Continue => Token::Continue,
            Token::Break => Token::Break,
            Token::Return => Token::Return,
            Token::Throw => Token::Throw,
            Token::Try => Token::Try,
            Token::Catch => Token::Catch,
            Token::PlusAssign => Token::PlusAssign,
            Token::MinusAssign => Token::MinusAssign,
            Token::MultiplyAssign => Token::MultiplyAssign,
            Token::DivideAssign => Token::DivideAssign,
            Token::LeftShiftAssign => Token::LeftShiftAssign,
            Token::RightShiftAssign => Token::RightShiftAssign,
            Token::AndAssign => Token::AndAssign,
            Token::OrAssign => Token::OrAssign,
            Token::XOrAssign => Token::XOrAssign,
            Token::ModuloAssign => Token::ModuloAssign,
            Token::PowerOfAssign => Token::PowerOfAssign,
            Token::Private => Token::Private,
            Token::Import => Token::Import,
            Token::Export => Token::Export,
            Token::As => Token::As,
            Token::EOF => Token::EOF,
        }
    }

    /// Do two tokens agree in kind and in what they carry?
    pub open spec fn same_spec(&self, other: &Token) -> bool {
        &&& self.tag_spec() == other.tag_spec()
        &&& match (self, other) {
            (Token::IntegerConstant(a), Token::IntegerConstant(b)) => a == b,
            (Token::FloatConstant(a, s), Token::FloatConstant(b, t)) => a == b && s@ == t@,
            (Token::Identifier(a), Token::Identifier(b)) => a@ == b@,
            (Token::CharConstant(a), Token::CharConstant(b)) => a == b,
            (Token::StringConstant(a), Token::StringConstant(b)) => a@ == b@,
            (Token::LexError(a), Token::LexError(b)) => a@ == b@,
            (Token::Comment(a), Token::Comment(b)) => a@ == b@,
            (Token::Reserved(a), Token::Reserved(b)) => a@ == b@,
            (Token::Custom(a), Token::Custom(b)) => a@ == b@,
            _ => true,
        }
    }

    /// Do two tokens agree in kind and in what they carry?
    pub fn same(&self, other: &Token) -> (r: bool)
        ensures
            r == self.same_spec(other),
    {
        if self.tag() != other.tag() {
            return false;
        }
        match (self, other) {
            (Token::IntegerConstant(a), Token::IntegerConstant(b)) => *a == *b,
            (Token::FloatConstant(a, s), Token::FloatConstant(b, t)) => *a == *b && str_eq(
                s.as_str(),
                t.as_str(),
            ),
            (Token::Identifier(a), Token::Identifier(b)) => str_eq(a.as_str(), b.as_str()),
            (Token::CharConstant(a), Token::CharConstant(b)) => *a == *b,
            (Token::StringConstant(a), Token::StringConstant(b)) => str_eq(a.as_str(), b.as_str()),
            (Token::LexError(a), Token::LexError(b)) => a.same(b),
            (Token::Comment(a), Token::Comment(b)) => str_eq(a.as_str(), b.as_str()),
            (Token::Reserved(a), Token::Reserved(b)) => str_eq(a.as_str(), b.as_str()),
            (Token::Custom(a), Token::Custom(b)) => str_eq(a.as_str(), b.as_str()),
            _ => true,
        }
    }

    /// The binding strength of the token as a binary operator; 0 for a token
    /// that is none.
    pub open spec fn precedence_spec(&self) -> u8 {
        match self {
            Token::Or | Token::XOr | Token::Pipe => 30,
            Token::And | Token::Ampersand => 60,
            Token::EqualsTo | Token::NotEqualsTo => 90,
            Token::In => 110,
            Token::LessThan
            | Token::LessThanEqualsTo
            | Token::GreaterThan
            | Token::GreaterThanEqualsTo => 130,
            Token::Plus | Token::Minus => 150,
            Token::Divide | Token::Multiply => 180,
            Token::PowerOf => 190,
            Token::LeftShift | Token::RightShift => 210,
            _ => 0,
        }
    }

    /// The binding strength of the token as a binary operator.
    pub fn precedence(&self) -> (r: u8)
        ensures
            r == self.precedence_spec(),
    {
        match self {
            Token::Or | Token::XOr | Token::Pipe => 30,
            Token::And | Token::Ampersand => 60,
            Token::EqualsTo | Token::NotEqualsTo => 90,
            Token::In => 110,
            Token::LessThan
            | Token::LessThanEqualsTo
            | Token::GreaterThan
            | Token::GreaterThanEqualsTo => 130,
            Token::Plus | Token::Minus => 150,
            Token::Divide | Token::Multiply => 180,
            Token::PowerOf => 190,
            Token::LeftShift | Token::RightShift => 210,
            _ => 0,
        }
    }

    /// Is the token one of the assignment operators, `=` included?
    pub open spec fn is_assignment_spec(&self) -> bool {
        match self {
            Token::Equals
            | Token::PlusAssign
            | Token::MinusAssign
            | Token::MultiplyAssign
            | Token::DivideAssign
            | Token::LeftShiftAssign
            | Token::RightShiftAssign
            | Token::AndAssign
            | Token::OrAssign
            | Token::XOrAssign
            | Token::ModuloAssign
            | Token::PowerOfAssign => true,
            _ => false,
        }
    }

    /// Is the token one of the assignment operators, `=` included?
    pub fn is_assignment(&self) -> (r: bool)
        ensures
            r == self.is_assignment_spec(),
    {
        match self {
            Token::Equals
            | Token::PlusAssign
            | Token::MinusAssign
            | Token::MultiplyAssign
            | Token::DivideAssign
            | Token::LeftShiftAssign
            | Token::RightShiftAssign
            | Token::AndAssign
            | Token::OrAssign
            | Token::XOrAssign
            | Token::ModuloAssign
            | Token::PowerOfAssign => true,
            _ => false,
        }
    }

    /// Does the operator group to the right? Only assignments do.
    pub fn is_bind_right(&self) -> (r: bool)
        ensures
            r == self.is_assignment_spec(),
    {
        self.is_assignment()
    }

    /// Is this the end of the input?
    pub fn is_eof(&self) -> (r: bool)
        ensures
            r == (*self is EOF),
    {
        match self {
            Token::EOF => true,
            _ => false,
        }
    }

    /// The name that the token gives to a function being defined, if it can
    /// give one: a reserved word that may be overridden, or an identifier or
    /// custom keyword that is well formed.
    pub open spec fn function_name_spec(&self) -> Option<Seq<char>> {
        match self {
            Token::Reserved(s) => if can_override_keyword_spec(s@) {
                Some(s@)
            } else {
                None
            },
            Token::Custom(s) | Token::Identifier(s) => if is_valid_identifier_spec(s@) {
                Some(s@)
            } else {
                None
            },
            _ => None,
        }
    }

    /// Turns the token into the name of a function being defined, or hands it
    /// back when it cannot name one.
    pub fn into_function_name_for_override(self) -> (r: Result<String, Token>)
        ensures
            match r {
                Ok(name) => self.function_name_spec() == Some(name@),
                Err(t) => self.function_name_spec() is None && t == self,
            },
    {
        match self {
            Token::Reserved(s) => {
                if can_override_keyword(s.as_str()) {
                    Ok(s)
                } else {
                    Err(Token::Reserved(s))
                }
            },
            Token::Custom(s) => {
                if is_valid_identifier(s.as_str()) {
                    Ok(s)
                } else {
                    Err(Token::Custom(s))
                }
            },
            Token::Identifier(s) => {
                if is_valid_identifier(s.as_str()) {
                    Ok(s)
                } else {
                    Err(Token::Identifier(s))
                }
            },
            t => Err(t),
        }
    }
}

/// Is `c` an ASCII letter?
pub open spec fn is_ascii_alphabetic_spec(c: char) -> bool {
    ('a' <= c && c <= 'z') || ('A' <= c && c <= 'Z')
}

/// Is `c` an ASCII letter or digit?
pub open spec fn is_ascii_alphanumeric_spec(c: char) -> bool {
    is_ascii_alphabetic_spec(c) || ('0' <= c && c <= '9')
}

/// A well-formed identifier: any number of underscores, then a letter, then
/// letters, digits and underscores.
pub open spec fn is_valid_identifier_spec(s: Seq<char>) -> bool {
    exists|k: int|
        {
            &&& 0 <= k < s.len()
            &&& is_ascii_alphabetic_spec(#[trigger] s[k])
            &&& forall|j: int| 0 <= j < k ==> s[j] == '_'
            &&& forall|j: int| k < j < s.len() ==> is_ascii_alphanumeric_spec(s[j]) || s[j] == '_'
        }
}

/// Is the text a well-formed identifier?
pub fn is_valid_identifier(name: &str) -> (r: bool)
    ensures
        r == is_valid_identifier_spec(name@),
{
    let n = name.unicode_len();
    let mut i: usize = 0;
    let mut first_alphabetic = false;
    let ghost mut k: int = 0;
    while i < n
        invariant
            n == name@.len(),
            i <= n,
            !first_alphabetic ==> forall|j: int| 0 <= j < i ==> name@[j] == '_',
            first_alphabetic ==> {
                &&& 0 <= k < i
                &&& is_ascii_alphabetic_spec(name@[k])
                &&& forall|j: int| 0 <= j < k ==> name@[j] == '_'
                &&& forall|j: int|
                    k < j < i ==> is_ascii_alphanumeric_spec(name@[j]) || name@[j] == '_'
            },
        decreases n - i,
    {
        let ch = name.get_char(i);
        if ch == '_' {
        } else if ('a' <= ch && ch <= 'z') || ('A' <= ch && ch <= 'Z') {
            if !first_alphabetic {
                proof {
                    k = i as int;
                }
            }
            first_alphabetic = true;
        } else if !first_alphabetic {
            assert(!is_valid_identifier_spec(name@)) by {
                if is_valid_identifier_spec(name@) {
                    let w = choose|w: int|
                        {
                            &&& 0 <= w < name@.len()
                            &&& is_ascii_alphabetic_spec(#[trigger] name@[w])
                            &&& forall|j: int| 0 <= j < w ==> name@[j] == '_'
                            &&& forall|j: int|
                                w < j < name@.len() ==> is_ascii_alphanumeric_spec(name@[j])
                                    || name@[j] == '_'
                        };
                    if w < i {
                        assert(name@[w] == '_');
                    } else if w > i {
                        assert(name@[i as int] == '_');
                    }
                }
            }
            return false;
        } else if '0' <= ch && ch <= '9' {
        } else {
            assert(!is_valid_identifier_spec(name@)) by {
                if is_valid_identifier_spec(name@) {
                    let w = choose|w: int|
                        {
                            &&& 0 <= w < name@.len()
                            &&& is_ascii_alphabetic_spec(#[trigger] name@[w])
                            &&& forall|j: int| 0 <= j < w ==> name@[j] == '_'
                            &&& forall|j: int|
                                w < j < name@.len() ==> is_ascii_alphanumeric_spec(name@[j])
                                    || name@[j] == '_'
                        };
                    if w < k {
                        assert(name@[w] == '_');
                    } else if w > k {
                        assert(name@[k] == '_');
                    } else {
                        assert(is_ascii_alphanumeric_spec(name@[i as int]) || name@[i as int]
                            == '_');
                    }
                }
            }
            return false;
        }
        i = i + 1;
    }
    proof {
        if first_alphabetic {
            assert(is_ascii_alphabetic_spec(name@[k]));
        } else {
            if is_valid_identifier_spec(name@) {
                let w = choose|w: int|
                    {
                        &&& 0 <= w < name@.len()
                        &&& is_ascii_alphabetic_spec(#[trigger] name@[w])
                        &&& forall|j: int| 0 <= j < w ==> name@[j] == '_'
                        &&& forall|j: int|
                            w < j < name@.len() ==> is_ascii_alphanumeric_spec(name@[j])
                                || name@[j] == '_'
                    };
                assert(name@[w] == '_');
            }
        }
    }
    first_alphabetic
}

/// The reserved words that are called like functions.
pub open spec fn is_keyword_function_spec(name: Seq<char>) -> bool {
    name == "print"@ || name == "debug"@ || name == "type_of"@ || name == "eval"@ || name
        == "Fn"@ || name == "call"@ || name == "curry"@ || name == "is_def_var"@ || name
        == "is_def_fn"@ || name == "is_shared"@
}

/// Is the reserved word one that is called like a function?
pub fn is_keyword_function(name: &str) -> (r: bool)
    ensures
        r == is_keyword_function_spec(name@),
{
    str_eq(name, "print") || str_eq(name, "debug") || str_eq(name, "type_of") || str_eq(
        name,
        "eval",
    ) || str_eq(name, "Fn") || str_eq(name, "call") || str_eq(name, "curry") || str_eq(
        name,
        "is_def_var",
    ) || str_eq(name, "is_def_fn") || str_eq(name, "is_shared")
}

/// The reserved words that a script may define as functions of its own.
pub open spec fn can_override_keyword_spec(name: Seq<char>) -> bool {
    name == "print"@ || name == "debug"@ || name == "type_of"@ || name == "eval"@ || name
        == "Fn"@
}

/// May a script define a function under this reserved word?
pub fn can_override_keyword(name: &str) -> (r: bool)
    ensures
        r == can_override_keyword_spec(name@),
{
    str_eq(name, "print") || str_eq(name, "debug") || str_eq(name, "type_of") || str_eq(
        name,
        "eval",
    ) || str_eq(name, "Fn")
}

/// A doc-comment starts with `///` but not `////`, or with `/**` but not
/// `/***`.
pub open spec fn is_doc_comment_spec(s: Seq<char>) -> bool {
    &&& s.len() >= 3
    &&& s[0] == '/'
    &&& (s[1] == '/' && s[2] == '/') || (s[1] == '*' && s[2] == '*')
    &&& !(s.len() >= 4 && s[3] == s[2])
}

/// Is the comment a doc-comment?
pub fn is_doc_comment(comment: &str) -> (r: bool)
    ensures
        r == is_doc_comment_spec(comment@),
{
    let n = comment.unicode_len();
    if n < 3 {
        return false;
    }
    let c0 = comment.get_char(0);
    let c1 = comment.get_char(1);
    let c2 = comment.get_char(2);
    if c0 != '/' {
        return false;
    }
    if !((c1 == '/' && c2 == '/') || (c1 == '*' && c2 == '*')) {
        return false;
    }
    if n >= 4 {
        let c3 = comment.get_char(3);
        if c3 == c2 {
            return false;
        }
    }
    true
}

/// The tokens of a script with a cursor into them. Reading past the last
/// token yields the end-of-input token again and again.
#[derive(Debug)]
pub struct TokenStream {
    /// The tokens, each with its position.
    pub tokens: Vec<(Token, Position)>,
    /// How many tokens have been consumed.
    pub cursor: usize,
    /// The end-of-input token and its position.
    pub eof: (Token, Position),
}

impl TokenStream {
    /// Every comment in the stream is a doc-comment, the cursor is in range
    /// and the sentinel is the end-of-input token.
    pub open spec fn wf(&self) -> bool {
        &&& self.cursor <= self.tokens@.len()
        &&& self.eof.0 is EOF
        &&& forall|i: int|
            0 <= i < self.tokens@.len() ==> (#[trigger] self.tokens@[i].0 matches Token::Comment(c)
                ==> is_doc_comment_spec(c@))
    }

    /// How many tokens are still to be read.
    pub open spec fn remaining(&self) -> nat {
        if self.cursor <= self.tokens@.len() {
            (self.tokens@.len() - self.cursor) as nat
        } else {
            0
        }
    }

    /// The token `n` places after the cursor.
    pub open spec fn ahead(&self, n: int) -> (Token, Position) {
        if 0 <= self.cursor + n < self.tokens@.len() {
            self.tokens@[self.cursor + n]
        } else {
            self.eof
        }
    }

    /// The token under the cursor.
    pub open spec fn peek_spec(&self) -> (Token, Position) {
        self.ahead(0)
    }

    /// The same tokens as `before`, with the cursor no further back.
    pub open spec fn follows(&self, before: &TokenStream) -> bool {
        &&& self.tokens == before.tokens
        &&& self.eof == before.eof
        &&& before.cursor <= self.cursor
        &&& self.wf()
    }

    /// The same tokens as `before`, with the cursor exactly `n` further on.
    pub open spec fn advanced_by(&self, before: &TokenStream, n: int) -> bool {
        &&& self.follows(before)
        &&& self.cursor == before.cursor + n
    }

    /// A stream over `tokens` that ends at `eof_pos`; `None` when a comment
    /// among the tokens is no doc-comment.
    pub fn new(tokens: Vec<(Token, Position)>, eof_pos: Position) -> (r: Option<TokenStream>)
        ensures
            match r {
                Some(s) => s.wf() && s.tokens == tokens && s.cursor == 0 && s.eof == (
                    Token::EOF,
                    eof_pos,
                ),
                None => exists|i: int|
                    0 <= i < tokens@.len() && (#[trigger] tokens@[i].0 matches Token::Comment(c)
                        && !is_doc_comment_spec(c@)),
            },
    {
        let mut i: usize = 0;
        while i < tokens.len()
            invariant
                i <= tokens@.len(),
                forall|j: int|
                    0 <= j < i ==> (#[trigger] tokens@[j].0 matches Token::Comment(c)
                        ==> is_doc_comment_spec(c@)),
            decreases tokens@.len() - i,
        {
            match &tokens[i].0 {
                Token::Comment(c) => {
                    if !is_doc_comment(c.as_str()) {
                        return None;
                    }
                },
                _ => {},
            }
            i = i + 1;
        }
        Some(TokenStream { tokens, cursor: 0, eof: (Token::EOF, eof_pos) })
    }

    /// The token under the cursor, without consuming it.
    pub fn peek(&self) -> (r: &(Token, Position))
        requires
            self.wf(),
        ensures
            *r == self.peek_spec(),
    {
        if self.cursor < self.tokens.len() {
            &self.tokens[self.cursor]
        } else {
            &self.eof
        }
    }

    /// The token one place after the cursor, without consuming anything.
    pub fn peek_second(&self) -> (r: &(Token, Position))
        requires
            self.wf(),
        ensures
            *r == self.ahead(1),
    {
        if self.cursor < self.tokens.len() && self.cursor + 1 < self.tokens.len() {
            &self.tokens[self.cursor + 1]
        } else {
            &self.eof
        }
    }

    /// Consumes the token under the cursor and returns it. At the end of the
    /// tokens the sentinel is returned and the cursor stays.
    pub fn next(&mut self) -> (r: (Token, Position))
        requires
            old(self).wf(),
        ensures
            r == old(self).peek_spec(),
            final(self).follows(old(self)),
            final(self).cursor == if old(self).cursor < old(self).tokens@.len() {
                old(self).cursor + 1
            } else {
                old(self).cursor as int
            },
    {
        if self.cursor < self.tokens.len() {
            let t = self.tokens[self.cursor].0.clone_token();
            let pos = self.tokens[self.cursor].1;
            self.cursor = self.cursor + 1;
            (t, pos)
        } else {
            (self.eof.0.clone_token(), self.eof.1)
        }
    }
}

} // verus!
