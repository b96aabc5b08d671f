//! The bookkeeping of a module resolver that loads modules from script
//! files: where the files are, what their extension is, and which modules
//! have been loaded already.

use vstd::prelude::*;
use crate::ast::AST;
use crate::error::ParseError;
use crate::lookup::{find_key, keys_of, lemma_index_of_first};
use crate::position::Position;

verus! {

/// A module that has been loaded from a script.
#[derive(Debug, PartialEq, Eq)]
pub struct Module {
    /// The path under which the module was asked for.
    pub id: Option<String>,
    /// What the script was parsed into.
    pub ast: AST,
}

/// What came of loading the script of a module from its file.
#[derive(Debug, PartialEq, Eq)]
pub enum Loaded {
    /// The file could not be read.
    Unreadable,
    /// The script was refused by the parser.
    Refused(ParseError),
    /// The script was parsed into this.
    Compiled(AST),
}

/// Why a module could not be resolved.
#[derive(Debug, PartialEq, Eq)]
pub enum ResolveError {
    /// No script was found for the module of this path, asked for at this
    /// position.
    ModuleNotFound(String, Position),
    /// The script of the module of this path, asked for at this position,
    /// is in error.
    InModule(String, ParseError, Position),
}

/// A resolver for modules that are kept in script files. The path of a
/// module is taken relative to a base path, and the file must have a given
/// extension. A module that has been loaded is kept, so that it is loaded
/// once only.
#[derive(Debug)]
pub struct FileModuleResolver {
    base_path: String,
    extension: String,
    cache: Vec<(String, Module)>,
}

impl FileModuleResolver {
    /// The base path.
    pub closed spec fn base_path_spec(&self) -> Seq<char> {
        self.base_path@
    }

    /// The extension of script files.
    pub closed spec fn extension_spec(&self) -> Seq<char> {
        self.extension@
    }

    /// The modules that have been loaded, each under the path of its file,
    /// in the order in which they were loaded.
    pub closed spec fn cache_spec(&self) -> Seq<(String, Module)> {
        self.cache@
    }

    /// The paths of the files of the modules that have been loaded.
    pub open spec fn cached_paths(&self) -> Seq<Seq<char>> {
        keys_of(self.cache_spec())
    }

    /// No file is in the cache twice.
    pub open spec fn wf(&self) -> bool {
        self.cached_paths().no_duplicates()
    }

    /// A resolver with the given base path, for files with the extension
    /// `rhai`.
    pub fn new_with_path(path: &str) -> (r: Self)
        ensures
            r.base_path_spec() == path@,
            r.extension_spec() == "rhai"@,
            r.cache_spec().len() == 0,
            r.wf(),
    {
        Self::new_with_path_and_extension(path, "rhai")
    }

    /// A resolver with the given base path and extension.
    pub fn new_with_path_and_extension(path: &str, extension: &str) -> (r: Self)
        ensures
            r.base_path_spec() == path@,
            r.extension_spec() == extension@,
            r.cache_spec().len() == 0,
            r.wf(),
    {
        FileModuleResolver {
            base_path: String::from_str(path),
            extension: String::from_str(extension),
            cache: Vec::new(),
        }
    }

    /// A resolver with an empty base path, which stands for the current
    /// directory, for files with the extension `rhai`.
    pub fn new() -> (r: Self)
        ensures
            r.base_path_spec() == Seq::<char>::empty(),
            r.extension_spec() == "rhai"@,
            r.cache_spec().len() == 0,
            r.wf(),
    {
        proof {
            reveal_strlit("");
        }
        let r = Self::new_with_path("");
        assert(r.base_path_spec() =~= Seq::<char>::empty());
        r
    }

    /// The base path.
    pub fn base_path(&self) -> (r: &str)
        ensures
            r@ == self.base_path_spec(),
    {
        self.base_path.as_str()
    }

    /// Sets the base path.
    pub fn set_base_path(&mut self, path: &str)
        ensures
            final(self).base_path_spec() == path@,
            final(self).extension_spec() == old(self).extension_spec(),
            final(self).cache_spec() == old(self).cache_spec(),
    {
        self.base_path = String::from_str(path);
    }

    /// The extension of script files.
    pub fn extension(&self) -> (r: &str)
        ensures
            r@ == self.extension_spec(),
    {
        self.extension.as_str()
    }

    /// Sets the extension of script files.
    pub fn set_extension(&mut self, extension: &str)
        ensures
            final(self).extension_spec() == extension@,
            final(self).base_path_spec() == old(self).base_path_spec(),
            final(self).cache_spec() == old(self).cache_spec(),
    {
        self.extension = String::from_str(extension);
    }

    /// Forgets all modules that have been loaded.
    pub fn clear_cache(&mut self)
        ensures
            final(self).cache_spec().len() == 0,
            final(self).base_path_spec() == old(self).base_path_spec(),
            final(self).extension_spec() == old(self).extension_spec(),
            final(self).wf(),
    {
        self.cache.clear();
    }

    /// Forgets the module that was loaded from the given file, and returns
    /// it.
    pub fn clear_cache_for_path(&mut self, path: &str) -> (r: Option<Module>)
        ensures
            final(self).base_path_spec() == old(self).base_path_spec(),
            final(self).extension_spec() == old(self).extension_spec(),
            match old(self).cached_paths().index_of_first(path@) {
                Some(i) => r == Some(old(self).cache_spec()[i].1) && final(self).cache_spec()
                    == old(self).cache_spec().remove(i),
                None => r is None && final(self).cache_spec() == old(self).cache_spec(),
            },
            old(self).wf() ==> final(self).wf() && !final(self).cached_paths().contains(path@),
    {
        match find_key(&self.cache, path) {
            Some(i) => {
                let (_, module) = self.cache.remove(i);
                proof {
                    let before = old(self).cache_spec();
                    let after = self.cache_spec();
                    lemma_index_of_first(keys_of(before), path@);
                    if old(self).wf() {
                        assert forall|a: int, b: int|
                            0 <= a < keys_of(after).len() && 0 <= b < keys_of(after).len() && a
                                != b implies keys_of(after)[a] != keys_of(after)[b] by {
                            let a0 = if a < i { a } else { a + 1 };
                            let b0 = if b < i { b } else { b + 1 };
                            assert(keys_of(after)[a] == keys_of(before)[a0]);
                            assert(keys_of(after)[b] == keys_of(before)[b0]);
                        }
                        assert forall|a: int| 0 <= a < keys_of(after).len() implies keys_of(
                            after,
                        )[a] != path@ by {
                            let a0 = if a < i { a } else { a + 1 };
                            assert(keys_of(after)[a] == keys_of(before)[a0]);
                            assert(keys_of(before)[i as int] == path@);
                        }
                    }
                }
                Some(module)
            },
            None => None,
        }
    }

    /// The module that was loaded from the given file, if one was.
    pub fn cached(&self, file_path: &str) -> (r: Option<&Module>)
        ensures
            match self.cached_paths().index_of_first(file_path@) {
                Some(i) => r == Some(&self.cache_spec()[i].1),
                None => r is None,
            },
    {
        match find_key(&self.cache, file_path) {
            Some(i) => Some(&self.cache[i].1),
            None => None,
        }
    }

    /// Keeps a module that has been loaded from the given file. A module
    /// that was kept for that file before is replaced.
    pub fn keep(&mut self, file_path: &str, module: Module)
        ensures
            final(self).base_path_spec() == old(self).base_path_spec(),
            final(self).extension_spec() == old(self).extension_spec(),
            match old(self).cached_paths().index_of_first(file_path@) {
                Some(i) => final(self).cache_spec().len() == old(self).cache_spec().len()
                    && final(self).cache_spec()[i].1 == module && final(self).cached_paths()
                    == old(self).cached_paths() && forall|j: int|
                    0 <= j < old(self).cache_spec().len() && j != i
                        ==> final(self).cache_spec()[j] == old(self).cache_spec()[j],
                None => final(self).cache_spec().drop_last() == old(self).cache_spec()
                    && final(self).cache_spec().last().1 == module && final(self).cached_paths()
                    == old(self).cached_paths().push(file_path@),
            },
            old(self).wf() ==> final(self).wf(),
    {
        proof {
            lemma_index_of_first(keys_of(self.cache@), file_path@);
        }
        match find_key(&self.cache, file_path) {
            Some(i) => {
                self.cache.set(i, (String::from_str(file_path), module));
                assert(final(self).cached_paths() =~= old(self).cached_paths());
            },
            None => {
                self.cache.push((String::from_str(file_path), module));
                assert(final(self).cached_paths() =~= old(self).cached_paths().push(file_path@));
                assert(self.cache@.drop_last() =~= old(self).cache@);
                proof {
                    if old(self).wf() {
                        crate::state::lemma_push_no_duplicates(
                            old(self).cached_paths(),
                            file_path@,
                        );
                    }
                }
            },
        }
    }

    /// Is the module of the given file still to be loaded?
    pub fn needs_loading(&self, file_path: &str) -> (r: bool)
        ensures
            r == (self.cached_paths().index_of_first(file_path@) is None),
    {
        self.cached(file_path).is_none()
    }

    /// Settles the request for the module `path`, made at `pos`, whose
    /// script is in the file `file_path`. A module that has been loaded
    /// from that file before stands, and `loaded` is not looked at. Else
    /// `loaded` says what came of loading the script: a script that was
    /// parsed is kept as the module of that file, under the path by which
    /// it was asked for; a file that could not be read and a script that
    /// was refused are errors, and nothing is kept.
    pub fn resolve_loaded(
        &mut self,
        file_path: &str,
        path: &str,
        pos: Position,
        loaded: Loaded,
    ) -> (r: Result<(), ResolveError>)
        ensures
            final(self).base_path_spec() == old(self).base_path_spec(),
            final(self).extension_spec() == old(self).extension_spec(),
            old(self).wf() ==> final(self).wf(),
            match (old(self).cached_paths().index_of_first(file_path@), loaded) {
                (Some(_), _) => r is Ok && final(self).cache_spec() == old(self).cache_spec(),
                (None, Loaded::Unreadable) => final(self).cache_spec() == old(self).cache_spec()
                    && (r matches Err(ResolveError::ModuleNotFound(p, at)) && p@ == path@
                    && at == pos),
                (None, Loaded::Refused(e)) => final(self).cache_spec() == old(self).cache_spec()
                    && (r matches Err(ResolveError::InModule(p, err, at)) && p@ == path@
                    && err == e && at == pos),
                (None, Loaded::Compiled(ast)) => r is Ok
                    && final(self).cached_paths() == old(self).cached_paths().push(file_path@)
                    && final(self).cache_spec().drop_last() == old(self).cache_spec()
                    && final(self).cache_spec().last().1.ast == ast
                    && (final(self).cache_spec().last().1.id matches Some(id) && id@ == path@),
            },
    {
        if !self.needs_loading(file_path) {
            return Ok(());
        }
        match loaded {
            Loaded::Unreadable => Err(ResolveError::ModuleNotFound(String::from_str(path), pos)),
            Loaded::Refused(e) => Err(ResolveError::InModule(String::from_str(path), e, pos)),
            Loaded::Compiled(ast) => {
                self.keep(file_path, Module { id: Some(String::from_str(path)), ast });
                Ok(())
            },
        }
    }
}

} // verus!
