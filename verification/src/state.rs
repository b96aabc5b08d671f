//! What the parser keeps while it reads one script: the interned strings,
//! the variables in scope, the imported modules and the variables that
//! closures capture.

use vstd::prelude::*;
use crate::dynamic::AccessMode;
use crate::engine::{Engine, SyntaxParser};
use crate::error::{ParseError, ParseErrorType, ParseErrorTypeV, err_at};
use crate::lookup::{find_key, find_text, keys_of, texts_of};
use crate::position::Position;
use crate::strings::str_eq;
use crate::token::TokenStream;

verus! {

/// The state of one parse.
pub struct ParseState<'e, P: SyntaxParser> {
    /// The engine under whose configuration the script is parsed.
    pub engine: &'e Engine<P>,
    /// The fingerprint of the script.
    pub script_hash: u64,
    /// The interned strings, in the order in which they were first seen.
    pub strings: Vec<String>,
    /// The variables in scope, innermost last. An entry with an empty name
    /// is a barrier: no lookup goes beyond it.
    pub stack: Vec<(String, AccessMode)>,
    /// The length of the scope stack when the current block was entered.
    pub entry_stack_len: usize,
    /// The variables that were used without being in scope, each with the
    /// position of its first use, in the order of first use.
    pub externals: Vec<(String, Position)>,
    /// When cleared, the next variable lookup captures nothing and sets the
    /// flag again.
    pub allow_capture: bool,
    /// The aliases of the imported modules, innermost last.
    pub modules: Vec<String>,
    /// How deep expressions may nest; 0 for no limit.
    pub max_expr_depth: usize,
    /// How deep expressions may nest inside functions; 0 for no limit.
    pub max_function_expr_depth: usize,
}

/// The mathematical value of a [`ParseState`], apart from its engine.
pub ghost struct ParseStateV {
    pub script_hash: u64,
    pub strings: Seq<Seq<char>>,
    pub stack: Seq<(Seq<char>, AccessMode)>,
    pub entry_stack_len: usize,
    pub externals: Seq<(Seq<char>, Position)>,
    pub allow_capture: bool,
    pub modules: Seq<Seq<char>>,
    pub max_expr_depth: usize,
    pub max_function_expr_depth: usize,
}

/// The values of the entries of a scope stack.
pub open spec fn stack_views(s: Seq<(String, AccessMode)>) -> Seq<(Seq<char>, AccessMode)> {
    Seq::new(s.len(), |i: int| (s[i].0@, s[i].1))
}

/// The values of a list of captured variables.
pub open spec fn external_views(s: Seq<(String, Position)>) -> Seq<(Seq<char>, Position)> {
    Seq::new(s.len(), |i: int| (s[i].0@, s[i].1))
}

/// The names of a list of pairs.
pub open spec fn names_of<T>(s: Seq<(Seq<char>, T)>) -> Seq<Seq<char>> {
    Seq::new(s.len(), |i: int| s[i].0)
}

impl<'e, P: SyntaxParser> View for ParseState<'e, P> {
    type V = ParseStateV;

    open spec fn view(&self) -> ParseStateV {
        ParseStateV {
            script_hash: self.script_hash,
            strings: texts_of(self.strings@),
            stack: stack_views(self.stack@),
            entry_stack_len: self.entry_stack_len,
            externals: external_views(self.externals@),
            allow_capture: self.allow_capture,
            modules: texts_of(self.modules@),
            max_expr_depth: self.max_expr_depth,
            max_function_expr_depth: self.max_function_expr_depth,
        }
    }
}

/// What a lookup on the scope stack ends in.
pub ghost enum Lookup {
    /// The variable stands this many places from the top, the top being 1.
    Found(nat),
    /// A barrier stands above every variable of that name.
    Barrier,
    /// Neither the variable nor a barrier is on the stack.
    Missing,
}

/// Looks a variable up from the top of the stack down. The search ends at
/// the first barrier or at the first entry of the given name.
pub open spec fn lookup_var(stack: Seq<(Seq<char>, AccessMode)>, name: Seq<char>) -> Lookup
    decreases stack.len(),
{
    if stack.len() == 0 {
        Lookup::Missing
    } else if stack.last().0.len() == 0 {
        Lookup::Barrier
    } else if stack.last().0 == name {
        Lookup::Found(1)
    } else {
        match lookup_var(stack.drop_last(), name) {
            Lookup::Found(k) => Lookup::Found(k + 1),
            other => other,
        }
    }
}

/// The place of a text counted from the end of a list, the last being 1.
pub open spec fn find_from_top(names: Seq<Seq<char>>, name: Seq<char>) -> Option<nat>
    decreases names.len(),
{
    if names.len() == 0 {
        None
    } else if names.last() == name {
        Some(1)
    } else {
        match find_from_top(names.drop_last(), name) {
            Some(k) => Some(k + 1),
            None => None,
        }
    }
}

/// The list of interned strings after `text` has been interned.
pub open spec fn interned(strings: Seq<Seq<char>>, text: Seq<char>) -> Seq<Seq<char>> {
    if strings.contains(text) {
        strings
    } else {
        strings.push(text)
    }
}

/// The list of captured variables after a lookup of `name` at `pos` that
/// ended in `found`, with capturing switched on or off.
pub open spec fn captured(
    externals: Seq<(Seq<char>, Position)>,
    capture: bool,
    found: Lookup,
    name: Seq<char>,
    pos: Position,
) -> Seq<(Seq<char>, Position)> {
    if capture && found is Missing && !names_of(externals).contains(name) {
        externals.push((name, pos))
    } else {
        externals
    }
}

/// Does `b` begin with `a`?
pub open spec fn prefix_of<A>(a: Seq<A>, b: Seq<A>) -> bool {
    &&& a.len() <= b.len()
    &&& forall|i: int| #![trigger a[i]] #![trigger b[i]] 0 <= i < a.len() ==> a[i] == b[i]
}

/// A list without duplicates stays so when a new value is added.
pub proof fn lemma_push_no_duplicates<A>(s: Seq<A>, a: A)
    requires
        s.no_duplicates(),
        !s.contains(a),
    ensures
        s.push(a).no_duplicates(),
        s.is_prefix_of(s.push(a)),
{
    assert forall|i: int, j: int|
        0 <= i < s.push(a).len() && 0 <= j < s.push(a).len() && i != j implies s.push(a)[i]
        != s.push(a)[j] by {
        if i < s.len() && j < s.len() {
        } else if i < s.len() {
            assert(s.contains(s[i]));
        } else {
            assert(s.contains(s[j]));
        }
    }
}

/// A variable that a lookup finds stands where the lookup says, under the
/// name that was looked up, and neither a barrier nor another entry of that
/// name stands above it.
pub proof fn lemma_lookup_found(stack: Seq<(Seq<char>, AccessMode)>, name: Seq<char>)
    ensures
        lookup_var(stack, name) matches Lookup::Found(k) ==> {
            &&& 1 <= k <= stack.len()
            &&& stack[stack.len() - k].0 == name
            &&& name.len() > 0
            &&& forall|j: int|
                stack.len() - k < j < stack.len() ==> stack[j].0 != name && stack[j].0.len() > 0
        },
        lookup_var(stack, name) is Missing ==> forall|j: int|
            0 <= j < stack.len() ==> stack[j].0 != name && stack[j].0.len() > 0,
        lookup_var(stack, name) is Barrier ==> exists|b: int|
            0 <= b < stack.len() && #[trigger] stack[b].0.len() == 0 && forall|j: int|
                b < j < stack.len() ==> stack[j].0 != name && stack[j].0.len() > 0,
    decreases stack.len(),
{
    if stack.len() == 0 {
    } else if stack.last().0.len() == 0 {
        assert(stack[stack.len() - 1].0.len() == 0);
    } else if stack.last().0 == name {
    } else {
        lemma_lookup_found(stack.drop_last(), name);
        match lookup_var(stack.drop_last(), name) {
            Lookup::Found(k) => {
                assert(stack.drop_last()[stack.len() - 1 - k] == stack[stack.len() - 1 - k]);
                assert forall|j: int| stack.len() - (k + 1) < j < stack.len() implies stack[j].0
                    != name && stack[j].0.len() > 0 by {
                    if j < stack.len() - 1 {
                        assert(stack.drop_last()[j] == stack[j]);
                    }
                }
            },
            Lookup::Missing => {
                assert forall|j: int| 0 <= j < stack.len() implies stack[j].0 != name
                    && stack[j].0.len() > 0 by {
                    if j < stack.len() - 1 {
                        assert(stack.drop_last()[j] == stack[j]);
                    }
                }
            },
            Lookup::Barrier => {
                let b = choose|b: int|
                    0 <= b < stack.drop_last().len() && #[trigger] stack.drop_last()[b].0.len()
                        == 0 && forall|j: int|
                        b < j < stack.drop_last().len() ==> stack.drop_last()[j].0 != name
                            && stack.drop_last()[j].0.len() > 0;
                assert(stack[b].0.len() == 0);
                assert forall|j: int| b < j < stack.len() implies stack[j].0 != name
                    && stack[j].0.len() > 0 by {
                    if j < stack.len() - 1 {
                        assert(stack.drop_last()[j] == stack[j]);
                    }
                }
            },
        }
    }
}

impl<'e, P: SyntaxParser> ParseState<'e, P> {
    /// No string is interned twice, no variable is captured twice, and the
    /// engine is well formed.
    pub open spec fn wf(&self) -> bool {
        &&& self.engine.wf()
        &&& self@.strings.no_duplicates()
        &&& names_of(self@.externals).no_duplicates()
    }

    /// The same as `before` but for strings that have been interned since
    /// and variables that have been captured since; the scope stack, the
    /// modules and the capture flag may have changed.
    pub open spec fn extends(&self, before: &Self) -> bool {
        &&& self.wf()
        &&& self.engine == before.engine
        &&& self.script_hash == before.script_hash
        &&& self.max_expr_depth == before.max_expr_depth
        &&& self.max_function_expr_depth == before.max_function_expr_depth
        &&& prefix_of(before@.strings, self@.strings)
        &&& prefix_of(before@.externals, self@.externals)
    }

    /// The same as `before` but for strings that have been interned since.
    pub open spec fn interned_more(&self, before: &Self) -> bool {
        &&& self.extends(before)
        &&& self.stack == before.stack
        &&& self.modules == before.modules
        &&& self.externals == before.externals
        &&& self@ == (ParseStateV { strings: self@.strings, ..before@ })
    }

    /// A fresh state for a script with the given fingerprint.
    pub fn new(
        engine: &'e Engine<P>,
        script_hash: u64,
        max_expr_depth: usize,
        max_function_expr_depth: usize,
    ) -> (r: Self)
        requires
            engine.wf(),
        ensures
            r.engine == engine,
            r@ == (ParseStateV {
                script_hash,
                strings: Seq::empty(),
                stack: Seq::empty(),
                entry_stack_len: 0,
                externals: Seq::empty(),
                allow_capture: true,
                modules: Seq::empty(),
                max_expr_depth,
                max_function_expr_depth,
            }),
            r.wf(),
    {
        let r = ParseState {
            engine,
            script_hash,
            strings: Vec::new(),
            stack: Vec::new(),
            entry_stack_len: 0,
            externals: Vec::new(),
            allow_capture: true,
            modules: Vec::new(),
            max_expr_depth,
            max_function_expr_depth,
        };
        assert(r@.strings =~= Seq::empty());
        assert(r@.stack =~= Seq::empty());
        assert(r@.externals =~= Seq::empty());
        assert(r@.modules =~= Seq::empty());
        assert(names_of(r@.externals) =~= Seq::empty());
        r
    }

    /// Looks a variable up on the scope stack, from the top down, and
    /// returns how far from the top it stands, the top being 1. The search
    /// ends without a result at a barrier. A variable that is neither found
    /// nor hidden by a barrier is recorded as captured, with the position of
    /// this first use, unless capturing is switched off in the engine or has
    /// been suspended for this one lookup.
    pub fn access_var(&mut self, name: &str, pos: Position) -> (r: Option<usize>)
        requires
            old(self).wf(),
        ensures
            final(self).wf(),
            final(self).extends(old(self)),
            final(self).engine == old(self).engine,
            match lookup_var(old(self)@.stack, name@) {
                Lookup::Found(k) => r == Some(k as usize) && k <= usize::MAX,
                _ => r is None,
            },
            r matches Some(k) ==> 1 <= k <= old(self)@.stack.len(),
            r matches Some(k) ==> old(self)@.stack[old(self)@.stack.len() - k].0 == name@,
            final(self).stack == old(self).stack,
            final(self).strings == old(self).strings,
            final(self).modules == old(self).modules,
            final(self)@ == (ParseStateV {
                externals: captured(
                    old(self)@.externals,
                    old(self).engine.closures && old(self).allow_capture,
                    lookup_var(old(self)@.stack, name@),
                    name@,
                    pos,
                ),
                allow_capture: old(self).allow_capture || old(self).engine.closures,
                ..old(self)@
            }),
    {
        let ghost stack = self@.stack;
        let n = self.stack.len();
        let mut i: usize = n;
        let mut found: Option<usize> = None;
        let mut barrier = false;
        proof {
            assert(stack.take(n as int) =~= stack);
        }
        while i > 0
            invariant_except_break
                !barrier && found is None,
                lookup_var(stack, name@) == match lookup_var(stack.take(i as int), name@) {
                    Lookup::Found(k) => Lookup::Found(k + (n - i) as nat),
                    other => other,
                },
            invariant
                i <= n,
                n == self.stack@.len(),
                n == stack.len(),
                stack == stack_views(self.stack@),
                *self == *old(self),
            ensures
                lookup_var(stack, name@) == if barrier {
                    Lookup::Barrier
                } else {
                    match found {
                        Some(k) => Lookup::Found(k as nat),
                        None => Lookup::Missing,
                    }
                },
                found matches Some(k) ==> 1 <= k <= n,
                barrier ==> found is None,
            decreases i,
        {
            proof {
                assert(stack.take(i as int).drop_last() =~= stack.take(i - 1));
                assert(stack.take(i as int).last() == stack[i - 1]);
            }
            let entry = &self.stack[i - 1];
            if entry.0.as_str().unicode_len() == 0 {
                barrier = true;
                break ;
            }
            if str_eq(entry.0.as_str(), name) {
                found = Some(n - i + 1);
                break ;
            }
            i = i - 1;
        }
        proof {
            lemma_lookup_found(stack, name@);
            assert(keys_of(self.externals@) =~= names_of(self@.externals));
        }
        if self.engine.closures {
            if self.allow_capture {
                if found.is_none() && !barrier {
                    match find_key(&self.externals, name) {
                        Some(_) => {},
                        None => {
                            self.externals.push((String::from_str(name), pos));
                            proof {
                                assert(self@.externals =~= old(self)@.externals.push((name@, pos)));
                                assert(names_of(self@.externals) =~= names_of(
                                    old(self)@.externals,
                                ).push(name@));
                                lemma_push_no_duplicates(names_of(old(self)@.externals), name@);
                            }
                        },
                    }
                }
            } else {
                self.allow_capture = true;
            }
        }
        found
    }

    /// Looks a module alias up on the stack of imported modules, from the
    /// top down, and returns how far from the top it stands, the top being
    /// 1.
    pub fn find_module(&self, name: &str) -> (r: Option<usize>)
        ensures
            match find_from_top(self@.modules, name@) {
                Some(k) => r == Some(k as usize) && k <= usize::MAX,
                None => r is None,
            },
            r matches Some(k) ==> 1 <= k <= self@.modules.len(),
            r matches Some(k) ==> self@.modules[self@.modules.len() - k] == name@,
    {
        let ghost names = self@.modules;
        let n = self.modules.len();
        let mut i: usize = n;
        proof {
            assert(names.take(n as int) =~= names);
        }
        while i > 0
            invariant
                i <= n,
                n == self.modules@.len(),
                names == texts_of(self.modules@),
                n == names.len(),
                find_from_top(names, name@) == match find_from_top(names.take(i as int), name@) {
                    Some(k) => Some(k + (n - i) as nat),
                    None => None,
                },
            decreases i,
        {
            proof {
                assert(names.take(i as int).drop_last() =~= names.take(i - 1));
                assert(names.take(i as int).last() == names[i - 1]);
            }
            if str_eq(self.modules[i - 1].as_str(), name) {
                return Some(n - i + 1);
            }
            i = i - 1;
        }
        proof {
            assert(names.take(0) =~= Seq::empty());
        }
        None
    }

    /// Returns the interned string for a text, interning it first if it is
    /// new. Interned strings are the same exactly when their texts are.
    pub fn get_interned_string(&mut self, text: &str) -> (r: String)
        requires
            old(self).wf(),
        ensures
            r@ == text@,
            final(self).wf(),
            final(self).interned_more(old(self)),
            final(self)@ == (ParseStateV {
                strings: interned(old(self)@.strings, text@),
                ..old(self)@
            }),
    {
        match find_text(&self.strings, text) {
            Some(i) => self.strings[i].clone(),
            None => {
                let value = String::from_str(text);
                let result = value.clone();
                self.strings.push(value);
                proof {
                    assert(self@.strings =~= old(self)@.strings.push(text@));
                    lemma_push_no_duplicates(old(self)@.strings, text@);
                }
                result
            },
        }
    }
}

/// The settings under which one production is parsed. They are copied from
/// production to production, so that a change made for an inner production
/// is forgotten when it returns.
#[derive(Clone, Copy, Debug, PartialEq, Eq, Hash, Structural)]
pub struct ParseSettings {
    /// The position of the construct being parsed.
    pub pos: Position,
    /// Is the construct at global level?
    pub is_global: bool,
    /// Is the construct inside a function?
    pub is_function_scope: bool,
    /// Is the construct inside a loop?
    pub is_breakable: bool,
    /// May an anonymous function stand here?
    pub allow_anonymous_fn: bool,
    /// May `if` stand in the place of an expression?
    pub allow_if_expr: bool,
    /// May `switch` stand in the place of an expression?
    pub allow_switch_expr: bool,
    /// May a block stand in the place of an expression?
    pub allow_stmt_expr: bool,
    /// How deep the construct is nested.
    pub level: usize,
}

/// How many more levels a parse may descend from a production of the given
/// rank with the given number of tokens left.
pub open spec fn depth_room(remaining: nat, rank: nat) -> int {
    (32 * remaining + rank) as int
}

impl ParseSettings {
    /// The nesting level cannot overflow while the rest of the input is
    /// parsed, starting at a production of the given rank.
    pub open spec fn fits(&self, input: &TokenStream, rank: nat) -> bool {
        self.level + depth_room(input.remaining(), rank) <= usize::MAX
    }

    /// Is the nesting level within the limit? A limit of 0 is no limit.
    pub open spec fn within(&self, limit: usize) -> bool {
        limit == 0 || self.level <= limit
    }

    /// The same settings one level deeper.
    pub fn level_up(&self) -> (r: ParseSettings)
        requires
            self.level < usize::MAX,
        ensures
            r == (ParseSettings { level: (self.level + 1) as usize, ..*self }),
    {
        ParseSettings {
            pos: self.pos,
            is_global: self.is_global,
            is_function_scope: self.is_function_scope,
            is_breakable: self.is_breakable,
            allow_anonymous_fn: self.allow_anonymous_fn,
            allow_if_expr: self.allow_if_expr,
            allow_switch_expr: self.allow_switch_expr,
            allow_stmt_expr: self.allow_stmt_expr,
            level: self.level + 1,
        }
    }

    /// Fails when the nesting level is beyond the limit. A limit of 0 is no
    /// limit.
    pub fn ensure_level_within_max_limit(&self, limit: usize) -> (r: Result<(), ParseError>)
        ensures
            r is Ok <==> self.within(limit),
            r matches Err(e) ==> e@ == err_at(ParseErrorTypeV::ExprTooDeep, self.pos),
    {
        if limit == 0 {
            Ok(())
        } else if self.level > limit {
            Err(ParseErrorType::ExprTooDeep.into_err(self.pos))
        } else {
            Ok(())
        }
    }
}

} // verus!
