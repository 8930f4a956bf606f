//! Errors and warnings found while type checking a module.

use vstd::prelude::*;
use crate::types::SrcSpan;

verus! {

/// A suggestion of a module for a name that was not found.
#[derive(Debug)]
pub enum ModuleSuggestion {
    /// A module that could be imported.
    Importable(String),
    /// A module that is already imported.
    Imported(String),
}

/// The part of a module path after its last `/`.
pub open spec fn last_component(path: Seq<char>) -> Seq<char>
    decreases path.len(),
{
    if path.len() == 0 {
        path
    } else if path.last() == '/' {
        Seq::empty()
    } else {
        last_component(path.drop_last()).push(path.last())
    }
}

/// The index just past the last `/` of `path`, or 0.
pub open spec fn last_component_start(path: Seq<char>) -> nat
    decreases path.len(),
{
    if path.len() == 0 {
        0
    } else if path.last() == '/' {
        path.len()
    } else {
        last_component_start(path.drop_last())
    }
}

proof fn lemma_last_component(path: Seq<char>)
    ensures
        last_component_start(path) <= path.len(),
        last_component(path) == path.subrange(last_component_start(path) as int, path.len() as int),
    decreases path.len(),
{
    if path.len() > 0 && path.last() != '/' {
        lemma_last_component(path.drop_last());
        assert(last_component(path) =~= path.subrange(last_component_start(path) as int, path.len() as int));
    } else {
        assert(last_component(path) =~= path.subrange(last_component_start(path) as int, path.len() as int));
    }
}

/// The part of a module path after its last `/`: the name by which the
/// module is known once imported.
pub fn last_name_component(path: &str) -> (r: String)
    ensures
        r@ == last_component(path@),
{
    let n = path.unicode_len();
    let mut start: usize = 0;
    let mut i: usize = 0;
    while i < n
        invariant
            n == path@.len(),
            i <= n,
            start == last_component_start(path@.subrange(0, i as int)),
        decreases n - i,
    {
        let ghost pre = path@.subrange(0, i as int);
        assert(path@.subrange(0, i + 1).drop_last() =~= pre);
        if path.get_char(i) == '/' {
            start = i + 1;
        }
        i = i + 1;
    }
    assert(path@.subrange(0, n as int) =~= path@);
    proof {
        lemma_last_component(path@);
    }
    let tail = path.substring_char(start, n);
    String::from_str(tail)
}

impl ModuleSuggestion {
    pub open spec fn name(&self) -> Seq<char> {
        match self {
            ModuleSuggestion::Importable(m) => m@,
            ModuleSuggestion::Imported(m) => m@,
        }
    }

    /// The name by which the suggested module is known once imported.
    pub fn last_name_component(&self) -> (r: String)
        ensures
            r@ == last_component(self.name()),
    {
        match self {
            ModuleSuggestion::Importable(m) => last_name_component(m.as_str()),
            ModuleSuggestion::Imported(m) => last_name_component(m.as_str()),
        }
    }
}

/// Why a type name was not found.
#[derive(Debug)]
pub enum UnknownTypeHint {
    AlternativeTypes(Vec<String>),
    ValueInScopeWithSameName,
}

/// A type name that could not be resolved.
#[derive(Debug)]
pub enum UnknownTypeConstructorError {
    Type { name: String, hint: UnknownTypeHint },
    Module { name: String, suggestions: Vec<ModuleSuggestion> },
    ModuleType { name: String, module_name: String, type_constructors: Vec<String>, imported_type_as_value: bool },
}

/// A value name that could not be resolved.
#[derive(Debug)]
pub enum UnknownValueConstructorError {
    Variable { name: String, variables: Vec<String>, type_with_name_in_scope: bool },
    Module { name: String, suggestions: Vec<ModuleSuggestion> },
    ModuleValue { name: String, module_name: String, value_constructors: Vec<String>, imported_value_as_type: bool },
}

/// An error in a module.
#[derive(Debug)]
pub enum Error {
    DuplicateTypeName { name: String, location: SrcSpan, previous_location: SrcSpan },
}

/// A warning about a module.
#[derive(Debug)]
pub enum Warning {
    UnusedType { location: SrcSpan, imported: bool, name: String },
    UnusedConstructor { location: SrcSpan, imported: bool, name: String },
    UnusedImportedValue { location: SrcSpan, name: String },
    UnusedImportedModule { location: SrcSpan, name: String },
    UnusedImportedModuleAlias { location: SrcSpan, alias: String, module_name: String },
    UnusedPrivateModuleConstant { location: SrcSpan, name: String },
    UnusedPrivateFunction { location: SrcSpan, name: String },
    UnusedVariable { location: SrcSpan, how_to_ignore: Option<String> },
    UnusedLiteral { location: SrcSpan },
}

/// A warning with its names taken as text.
pub ghost enum WarningView {
    UnusedType { location: SrcSpan, imported: bool, name: Seq<char> },
    UnusedConstructor { location: SrcSpan, imported: bool, name: Seq<char> },
    UnusedImportedValue { location: SrcSpan, name: Seq<char> },
    UnusedImportedModule { location: SrcSpan, name: Seq<char> },
    UnusedImportedModuleAlias { location: SrcSpan, alias: Seq<char>, module_name: Seq<char> },
    UnusedPrivateModuleConstant { location: SrcSpan, name: Seq<char> },
    UnusedPrivateFunction { location: SrcSpan, name: Seq<char> },
    UnusedVariable { location: SrcSpan, how_to_ignore: Option<Seq<char>> },
    UnusedLiteral { location: SrcSpan },
}

impl View for Warning {
    type V = WarningView;

    open spec fn view(&self) -> WarningView {
        match self {
            Warning::UnusedType { location, imported, name } => WarningView::UnusedType {
                location: *location,
                imported: *imported,
                name: name@,
            },
            Warning::UnusedConstructor { location, imported, name } => WarningView::UnusedConstructor {
                location: *location,
                imported: *imported,
                name: name@,
            },
            Warning::UnusedImportedValue { location, name } => WarningView::UnusedImportedValue {
                location: *location,
                name: name@,
            },
            Warning::UnusedImportedModule { location, name } => WarningView::UnusedImportedModule {
                location: *location,
                name: name@,
            },
            Warning::UnusedImportedModuleAlias { location, alias, module_name } => WarningView::UnusedImportedModuleAlias {
                location: *location,
                alias: alias@,
                module_name: module_name@,
            },
            Warning::UnusedPrivateModuleConstant { location, name } => WarningView::UnusedPrivateModuleConstant {
                location: *location,
                name: name@,
            },
            Warning::UnusedPrivateFunction { location, name } => WarningView::UnusedPrivateFunction {
                location: *location,
                name: name@,
            },
            Warning::UnusedVariable { location, how_to_ignore } => WarningView::UnusedVariable {
                location: *location,
                how_to_ignore: match how_to_ignore {
                    Some(h) => Some(h@),
                    None => None,
                },
            },
            Warning::UnusedLiteral { location } => WarningView::UnusedLiteral { location: *location },
        }
    }
}

/// The warnings, each taken by its view.
pub open spec fn warning_views(ws: Seq<Warning>) -> Seq<WarningView> {
    ws.map_values(|w: Warning| w@)
}

/// The errors and warnings found so far, in the order they were found.
#[derive(Debug)]
pub struct Problems {
    pub errors: Vec<Error>,
    pub warnings: Vec<Warning>,
}

impl Problems {
    pub fn new() -> (p: Problems)
        ensures
            p.errors@ == Seq::<Error>::empty(),
            p.warnings@ == Seq::<Warning>::empty(),
    {
        Problems { errors: Vec::new(), warnings: Vec::new() }
    }

    pub fn error(&mut self, error: Error)
        ensures
            final(self).errors@ == old(self).errors@.push(error),
            final(self).warnings@ == old(self).warnings@,
    {
        self.errors.push(error);
    }

    pub fn warning(&mut self, warning: Warning)
        ensures
            final(self).warnings@ == old(self).warnings@.push(warning),
            final(self).errors@ == old(self).errors@,
    {
        self.warnings.push(warning);
    }
}

} // verus!
