//! State shared by all transform passes: the errors they report, facts
//! about the file, the assumptions the user allows, and the statement
//! injector.

use vstd::prelude::*;

use crate::statement_injector::{AdjacentV, StatementId, StatementInjectorStore};
use crate::text::{string_of, strs_v};

verus! {

/// `Path::file_stem`: the file name of `path` without its extension, when
/// it has a file name that is valid Unicode. How a path splits into
/// components depends on the platform, so nothing is stated of it.
#[verifier::external_body]
pub(crate) fn path_file_stem(path: &str) -> (stem: Option<String>) {
    std::path::Path::new(path).file_stem().and_then(|s| s.to_str()).map(|s| s.to_string())
}

/// `Path::parent`: `path` without its last component, when it has one.
/// Platform-dependent, as `path_file_stem`; nothing is stated of it.
#[verifier::external_body]
pub(crate) fn path_parent(path: &str) -> (parent: Option<String>) {
    std::path::Path::new(path).parent().and_then(|p| p.to_str()).map(|p| p.to_string())
}

/// `Path::file_name`: the last component of `path`, when it is a normal
/// one that is valid Unicode. Platform-dependent, as `path_file_stem`;
/// nothing is stated of it.
#[verifier::external_body]
pub(crate) fn path_file_name(path: &str) -> (name: Option<String>) {
    std::path::Path::new(path).file_name().and_then(|s| s.to_str()).map(|s| s.to_string())
}

/// `Path::is_absolute`. What makes a path absolute depends on the
/// platform, so nothing is stated of it.
#[verifier::external_body]
pub(crate) fn path_is_absolute(path: &str) -> (b: bool) {
    std::path::Path::new(path).is_absolute()
}

/// Assumptions about the program that let transforms emit simpler code.
#[derive(Clone, Copy, Debug)]
pub struct Assumptions {
    /// `document.all` is never used, so `== null` suffices for nullish tests.
    pub no_document_all: bool,
    /// Class fields may be set with `=`.
    pub set_public_class_fields: bool,
    /// Private fields may be stored as ordinary properties.
    pub private_fields_as_properties: bool,
}

/// The state shared by the transforms of one file.
pub struct TransformCtx {
    pub errors: Vec<String>,
    /// The file name without its extension.
    pub filename: String,
    /// The path of the source file.
    pub source_path: String,
    pub assumptions: Assumptions,
    pub statement_injector: StatementInjectorStore,
    /// Whether the class properties plugin runs.
    pub is_class_properties_plugin_enabled: bool,
}

impl TransformCtx {
    pub open spec fn wf(&self) -> bool {
        self.statement_injector.wf()
    }

    /// The context of the file at `source_path`; its name is the stem of
    /// the path, or `unknown` when it has none.
    pub fn new(source_path: String, assumptions: Assumptions) -> (c: Self)
        ensures
            c.wf(),
            c.errors@.len() == 0,
            c.source_path@ == source_path@,
            c.assumptions == assumptions,
            c.statement_injector.map_v() == Map::<StatementId, Seq<AdjacentV>>::empty(),
            !c.is_class_properties_plugin_enabled,
    {
        let file_stem = path_file_stem(source_path.as_str());
        let filename = Self::filename_from_stem(file_stem);
        TransformCtx {
            errors: Vec::new(),
            filename,
            source_path,
            assumptions,
            statement_injector: StatementInjectorStore::new(),
            is_class_properties_plugin_enabled: false,
        }
    }

    /// The name of a file: its stem, or `unknown` without one.
    pub fn filename_from_stem(file_stem: Option<String>) -> (name: String)
        ensures
            name@ == match file_stem {
                Some(s) => s@,
                None => "unknown"@,
            },
    {
        match file_stem {
            Some(s) => s,
            None => string_of("unknown"),
        }
    }

    /// Takes the errors reported so far, leaving none.
    pub fn take_errors(&mut self) -> (errors: Vec<String>)
        ensures
            strs_v(errors@) == strs_v(old(self).errors@),
            final(self).errors@.len() == 0,
            final(self).statement_injector == old(self).statement_injector,
            final(self).filename == old(self).filename,
    {
        let mut errors: Vec<String> = Vec::new();
        std::mem::swap(&mut errors, &mut self.errors);
        errors
    }

    /// Reports an error.
    pub fn error(&mut self, error: String)
        ensures
            strs_v(final(self).errors@) == strs_v(old(self).errors@).push(error@),
            final(self).statement_injector == old(self).statement_injector,
            final(self).filename == old(self).filename,
            final(self).assumptions == old(self).assumptions,
    {
        let ghost e0 = self.errors@;
        self.errors.push(error);
        assert(strs_v(self.errors@) =~= strs_v(e0).push(error@));
    }
}

} // verus!
