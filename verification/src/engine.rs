//! The configuration under which a script is parsed.

use vstd::prelude::*;
use crate::ast::string_views;
use crate::error::{ParseError, ParseErrorV};
use crate::lookup::{find_key, keys_of};

verus! {

/// The hook of a custom syntax. While an expression of the syntax is parsed,
/// the parser calls the hook with the segments matched so far and the text
/// of the next token. The hook names the segment that must come next, or
/// returns `None` when the expression is complete.
///
/// A hook must answer the same question in the same way each time: what
/// the parser makes of a script is stated over `answer`, and holds of a
/// hook that is written outside this crate only as far as its `parse`
/// keeps to that.
pub trait SyntaxParser: Sized {
    /// What the hook answers: a function of the hook, of the segments and
    /// of the text of the next token. Nothing more is known of it unless
    /// the hook says what it is.
    open spec fn answer(&self, segments: Seq<Seq<char>>, look_ahead: Seq<char>) -> Result<
        Option<Seq<char>>,
        ParseErrorV,
    > {
        some_answer::<Self>()(*self, segments, look_ahead)
    }

    /// Names the segment that must come next, after `segments` and before
    /// the token of the text `look_ahead`.
    fn parse(&self, segments: &Vec<String>, look_ahead: &str) -> (r: Result<
        Option<String>,
        ParseError,
    >)
        ensures
            hook_answer(r) == self.answer(string_views(segments@), look_ahead@),
    ;
}

/// A function from hooks, segments and texts to answers.
pub open spec fn some_answer<P>() -> spec_fn(P, Seq<Seq<char>>, Seq<char>) -> Result<
    Option<Seq<char>>,
    ParseErrorV,
> {
    arbitrary()
}

/// The answer of a hook as a value.
pub open spec fn hook_answer(r: Result<Option<String>, ParseError>) -> Result<
    Option<Seq<char>>,
    ParseErrorV,
> {
    match r {
        Ok(Some(segment)) => Ok(Some(segment@)),
        Ok(None) => Ok(None),
        Err(e) => Err(e@),
    }
}

/// A syntax that never asks for a segment, for engines without custom
/// syntax.
pub struct NoSyntax;

impl SyntaxParser for NoSyntax {
    open spec fn answer(&self, segments: Seq<Seq<char>>, look_ahead: Seq<char>) -> Result<
        Option<Seq<char>>,
        ParseErrorV,
    > {
        Ok(None)
    }

    fn parse(&self, segments: &Vec<String>, look_ahead: &str) -> (r: Result<
        Option<String>,
        ParseError,
    >) {
        Ok(None)
    }
}

/// A custom syntax that has been registered with an engine.
pub struct CustomSyntax<P: SyntaxParser> {
    /// How evaluating the syntax changes the number of variables in scope:
    /// that many barriers are pushed on the scope stack when positive, that
    /// many entries are dropped from it when negative.
    pub scope_delta: isize,
    /// The hook that drives the parse.
    pub parse: P,
    /// The handle of the function that evaluates the syntax.
    pub func: usize,
}

/// The configuration of the language.
pub struct Engine<P: SyntaxParser> {
    /// How deep expressions may nest at global level; 0 for no limit.
    pub max_expr_depth: usize,
    /// How deep expressions may nest inside functions; 0 for no limit.
    pub max_function_expr_depth: usize,
    /// How many items an array literal may hold; 0 for no limit.
    pub max_array_size: usize,
    /// How many properties an object-map literal may hold; 0 for no limit.
    pub max_map_size: usize,
    /// The custom keywords, each with its precedence if it is an operator.
    pub custom_keywords: Vec<(String, Option<u8>)>,
    /// The custom syntaxes, each under its first keyword.
    pub custom_syntax: Vec<(String, CustomSyntax<P>)>,
    /// Is `[ ]` part of the language?
    pub indexing: bool,
    /// Are `#{ }` and `.` part of the language?
    pub object_maps: bool,
    /// Do anonymous functions capture the variables they use?
    pub closures: bool,
    /// Are `::`, `import` and `export` part of the language?
    pub modules: bool,
    /// Is `| | ...` part of the language?
    pub anonymous_functions: bool,
    /// Are floating-point literals part of the language?
    pub floats: bool,
}

impl<P: SyntaxParser> Engine<P> {
    /// Every operator that has been registered has a precedence of at least
    /// 1.
    pub open spec fn wf(&self) -> bool {
        forall|i: int|
            0 <= i < self.custom_keywords@.len() ==> (
            #[trigger] self.custom_keywords@[i].1 matches Some(p) ==> p >= 1)
    }

    /// The precedence under which `name` has been registered as an
    /// operator, if it has.
    pub open spec fn custom_precedence_spec(&self, name: Seq<char>) -> Option<u8> {
        match keys_of(self.custom_keywords@).index_of_first(name) {
            Some(i) => self.custom_keywords@[i].1,
            None => None,
        }
    }

    /// The place of the syntax registered under `key`, if there is one.
    pub open spec fn syntax_index_spec(&self, key: Seq<char>) -> Option<int> {
        keys_of(self.custom_syntax@).index_of_first(key)
    }

    /// An engine with the whole language switched on, expressions limited
    /// to 128 levels at global level and 32 inside functions, literals of
    /// any size, and nothing registered.
    pub fn new() -> (r: Engine<P>)
        ensures
            r.wf(),
            r.max_expr_depth == 128,
            r.max_function_expr_depth == 32,
            r.max_array_size == 0,
            r.max_map_size == 0,
            r.custom_keywords@.len() == 0,
            r.custom_syntax@.len() == 0,
            r.indexing && r.object_maps && r.closures && r.modules && r.anonymous_functions
                && r.floats,
    {
        Engine {
            max_expr_depth: 128,
            max_function_expr_depth: 32,
            max_array_size: 0,
            max_map_size: 0,
            custom_keywords: Vec::new(),
            custom_syntax: Vec::new(),
            indexing: true,
            object_maps: true,
            closures: true,
            modules: true,
            anonymous_functions: true,
            floats: true,
        }
    }

    /// The precedence under which `name` has been registered as an
    /// operator, if it has.
    pub fn custom_precedence(&self, name: &str) -> (r: Option<u8>)
        requires
            self.wf(),
        ensures
            r == self.custom_precedence_spec(name@),
            r matches Some(p) ==> p >= 1,
    {
        match find_key(&self.custom_keywords, name) {
            Some(i) => self.custom_keywords[i].1,
            None => None,
        }
    }

    /// The place of the syntax registered under `key`, if there is one.
    pub fn syntax_index(&self, key: &str) -> (r: Option<usize>)
        ensures
            match r {
                Some(i) => self.syntax_index_spec(key@) == Some(i as int) && i
                    < self.custom_syntax@.len(),
                None => self.syntax_index_spec(key@) is None,
            },
    {
        find_key(&self.custom_syntax, key)
    }

    /// Registers `name` as a binary operator of the given precedence. A
    /// precedence of 0 is refused and leaves the engine as it is. Of two
    /// registrations under one name the first counts.
    pub fn register_custom_operator(&mut self, name: &str, precedence: u8) -> (r: bool)
        requires
            old(self).wf(),
        ensures
            final(self).wf(),
            r == (precedence >= 1),
            !r ==> *final(self) == *old(self),
            r ==> final(self).custom_keywords@.len() == old(self).custom_keywords@.len() + 1,
            r ==> final(self).custom_keywords@.last().0@ == name@,
            r ==> final(self).custom_keywords@.last().1 == Some(precedence),
            r ==> final(self).custom_keywords@.drop_last() == old(self).custom_keywords@,
            r ==> final(self).custom_syntax == old(self).custom_syntax,
    {
        if precedence == 0 {
            return false;
        }
        self.custom_keywords.push((String::from_str(name), Some(precedence)));
        assert(final(self).custom_keywords@.drop_last() =~= old(self).custom_keywords@);
        true
    }

    /// Registers a custom syntax under its first keyword. Of two
    /// registrations under one keyword the first counts.
    pub fn register_custom_syntax(&mut self, key: &str, syntax: CustomSyntax<P>)
        requires
            old(self).wf(),
        ensures
            final(self).wf(),
            final(self).custom_keywords == old(self).custom_keywords,
            final(self).custom_syntax@.len() == old(self).custom_syntax@.len() + 1,
            final(self).custom_syntax@.last().0@ == key@,
            final(self).custom_syntax@.last().1 == syntax,
            final(self).custom_syntax@.drop_last() == old(self).custom_syntax@,
    {
        self.custom_syntax.push((String::from_str(key), syntax));
        assert(final(self).custom_syntax@.drop_last() =~= old(self).custom_syntax@);
    }
}

} // verus!
