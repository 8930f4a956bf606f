//! What is known of values, types and modules.

use vstd::prelude::*;
use crate::types::{copy_list, copy_type, Publicity, SrcSpan, Type, TypeList};
use crate::name_map::NameMap;

verus! {

/// A value that can be copied into an equal value.
pub trait Duplicate: Sized {
    fn duplicate(&self) -> (r: Self)
        ensures
            r == *self,
    ;
}

impl Duplicate for Type {
    fn duplicate(&self) -> (r: Self) {
        copy_type(self)
    }
}

impl Duplicate for SrcSpan {
    fn duplicate(&self) -> (r: Self) {
        *self
    }
}

/// Whether a definition is deprecated, and why.
#[derive(Debug)]
pub enum Deprecation {
    NotDeprecated,
    Deprecated { message: String },
}

impl Duplicate for Deprecation {
    fn duplicate(&self) -> (r: Self) {
        match self {
            Deprecation::NotDeprecated => Deprecation::NotDeprecated,
            Deprecation::Deprecated { message } => Deprecation::Deprecated { message: message.clone() },
        }
    }
}

impl Clone for Deprecation {
    fn clone(&self) -> (r: Self)
        ensures
            r == *self,
    {
        self.duplicate()
    }
}

/// The targets a function has an implementation for.
#[derive(Clone, Copy, Debug)]
pub struct Implementations {
    pub gleam: bool,
    pub uses_erlang_externals: bool,
    pub uses_javascript_externals: bool,
    pub can_run_on_erlang: bool,
    pub can_run_on_javascript: bool,
}

/// A constant literal, known here by where it was written.
#[derive(Clone, Copy, Debug)]
pub struct TypedConstant {
    pub location: SrcSpan,
}

impl TypedConstant {
    pub fn location(&self) -> (r: SrcSpan)
        ensures
            r == self.location,
    {
        self.location
    }
}

/// What kind of value a name stands for.
#[derive(Debug)]
pub enum ValueConstructorVariant {
    LocalVariable { location: SrcSpan },
    ModuleConstant { location: SrcSpan, module: String },
    LocalConstant { literal: TypedConstant },
    ModuleFn { name: String, module: String, location: SrcSpan, implementations: Implementations },
    Record { name: String, module: String, location: SrcSpan },
}

impl Duplicate for ValueConstructorVariant {
    fn duplicate(&self) -> (r: Self) {
        match self {
            ValueConstructorVariant::LocalVariable { location } => ValueConstructorVariant::LocalVariable { location: *location },
            ValueConstructorVariant::ModuleConstant { location, module } => ValueConstructorVariant::ModuleConstant {
                location: *location,
                module: module.clone(),
            },
            ValueConstructorVariant::LocalConstant { literal } => ValueConstructorVariant::LocalConstant { literal: *literal },
            ValueConstructorVariant::ModuleFn { name, module, location, implementations } => ValueConstructorVariant::ModuleFn {
                name: name.clone(),
                module: module.clone(),
                location: *location,
                implementations: *implementations,
            },
            ValueConstructorVariant::Record { name, module, location } => ValueConstructorVariant::Record {
                name: name.clone(),
                module: module.clone(),
                location: *location,
            },
        }
    }
}

impl Clone for ValueConstructorVariant {
    fn clone(&self) -> (r: Self)
        ensures
            r == *self,
    {
        self.duplicate()
    }
}

/// What a value name stands for: its kind, its type, where it can be seen
/// from, and whether it is deprecated.
#[derive(Debug)]
pub struct ValueConstructor {
    pub publicity: Publicity,
    pub deprecation: Deprecation,
    pub variant: ValueConstructorVariant,
    pub type_: Type,
}

impl Duplicate for ValueConstructor {
    fn duplicate(&self) -> (r: Self) {
        ValueConstructor {
            publicity: self.publicity,
            deprecation: self.deprecation.duplicate(),
            variant: self.variant.duplicate(),
            type_: copy_type(&self.type_),
        }
    }
}

impl Clone for ValueConstructor {
    fn clone(&self) -> (r: Self)
        ensures
            r == *self,
    {
        self.duplicate()
    }
}

/// What a type name stands for.
#[derive(Debug)]
pub struct TypeConstructor {
    pub publicity: Publicity,
    pub origin: SrcSpan,
    pub module: String,
    pub parameters: TypeList,
    pub type_: Type,
    pub deprecation: Deprecation,
}

impl Duplicate for TypeConstructor {
    fn duplicate(&self) -> (r: Self) {
        TypeConstructor {
            publicity: self.publicity,
            origin: self.origin,
            module: self.module.clone(),
            parameters: copy_list(&self.parameters),
            type_: copy_type(&self.type_),
            deprecation: self.deprecation.duplicate(),
        }
    }
}

impl Clone for TypeConstructor {
    fn clone(&self) -> (r: Self)
        ensures
            r == *self,
    {
        self.duplicate()
    }
}

/// Labelled, numbered types: the fields of a record, or the constructors of
/// a custom type with their function types.
#[derive(Debug)]
pub enum FieldList {
    Nil,
    Cons { label: String, index: u64, type_: Type, tail: Box<FieldList> },
}

pub fn copy_fields(l: &FieldList) -> (r: FieldList)
    ensures
        r == *l,
    decreases l,
{
    match l {
        FieldList::Nil => FieldList::Nil,
        FieldList::Cons { label, index, type_, tail } => FieldList::Cons {
            label: label.clone(),
            index: *index,
            type_: copy_type(type_),
            tail: Box::new(copy_fields(tail)),
        },
    }
}

/// The constructors of a custom type.
#[derive(Debug)]
pub struct TypeVariantConstructors {
    pub type_parameters: TypeList,
    pub variants: FieldList,
}

impl Duplicate for TypeVariantConstructors {
    fn duplicate(&self) -> (r: Self) {
        TypeVariantConstructors {
            type_parameters: copy_list(&self.type_parameters),
            variants: copy_fields(&self.variants),
        }
    }
}

impl Clone for TypeVariantConstructors {
    fn clone(&self) -> (r: Self)
        ensures
            r == *self,
    {
        self.duplicate()
    }
}

/// The record accessors of a type.
#[derive(Debug)]
pub struct AccessorsMap {
    pub publicity: Publicity,
    pub type_: Type,
    pub accessors: FieldList,
}

impl Duplicate for AccessorsMap {
    fn duplicate(&self) -> (r: Self) {
        AccessorsMap {
            publicity: self.publicity,
            type_: copy_type(&self.type_),
            accessors: copy_fields(&self.accessors),
        }
    }
}

impl Clone for AccessorsMap {
    fn clone(&self) -> (r: Self)
        ensures
            r == *self,
    {
        self.duplicate()
    }
}

impl<V: Duplicate> NameMap<V> {
    /// A copy of the map, with the same entries in the same order.
    pub fn duplicate_map(&self) -> (r: NameMap<V>)
        ensures
            r@ == self@,
            r.pairs() == self.pairs(),
    {
        let n = self.len();
        let mut r: NameMap<V> = NameMap::new();
        let mut i: usize = 0;
        while i < n
            invariant
                n == self.pairs().len(),
                crate::name_map::lists(self.pairs(), self@),
                i <= n,
                r.pairs() == self.pairs().subrange(0, i as int),
            decreases n - i,
        {
            let k = self.key_at(i).clone();
            let v = self.value_at(i).duplicate();
            let _ = r.len();
            let ghost before = r.pairs();
            proof {
                assert(!r@.contains_key(k@)) by {
                    if r@.contains_key(k@) {
                        let j = choose|j: int| 0 <= j < before.len() && (#[trigger] before[j]).0 == k@;
                        assert(before[j] == self.pairs()[j]);
                    }
                }
            }
            let _ = r.insert(k, v);
            assert(r.pairs() =~= self.pairs().subrange(0, i + 1));
            i = i + 1;
        }
        let _ = r.len();
        proof {
            assert(r.pairs() =~= self.pairs());
            crate::name_map::lemma_lists_same_map(self.pairs(), r@, self@);
        }
        r
    }
}

impl<V: Duplicate> Clone for NameMap<V> {
    fn clone(&self) -> (r: Self)
        ensures
            r@ == self@,
            r.pairs() == self.pairs(),
    {
        self.duplicate_map()
    }
}

/// The interface of a module: the types and values that it defines.
pub struct ModuleInterface {
    pub name: String,
    pub package: String,
    pub types: NameMap<TypeConstructor>,
    pub types_value_constructors: NameMap<TypeVariantConstructors>,
    pub values: NameMap<ValueConstructor>,
    pub accessors: NameMap<AccessorsMap>,
}

impl Clone for ModuleInterface {
    fn clone(&self) -> (r: Self)
        ensures
            r.name@ == self.name@,
            r.package@ == self.package@,
            r.types@ == self.types@,
            r.types.pairs() == self.types.pairs(),
            r.types_value_constructors@ == self.types_value_constructors@,
            r.types_value_constructors.pairs() == self.types_value_constructors.pairs(),
            r.values@ == self.values@,
            r.values.pairs() == self.values.pairs(),
            r.accessors@ == self.accessors@,
            r.accessors.pairs() == self.accessors.pairs(),
    {
        ModuleInterface {
            name: self.name.clone(),
            package: self.package.clone(),
            types: self.types.duplicate_map(),
            types_value_constructors: self.types_value_constructors.duplicate_map(),
            values: self.values.duplicate_map(),
            accessors: self.accessors.duplicate_map(),
        }
    }
}

impl ModuleInterface {
    /// The value `name`, if the module defines it and lets other modules
    /// import it.
    pub fn get_public_value(&self, name: &str) -> (r: Option<&ValueConstructor>)
        ensures
            match r {
                Some(v) => self.values@.contains_key(name@) && *v == self.values@[name@]
                    && v.publicity.spec_is_importable(),
                None => !(self.values@.contains_key(name@) && self.values@[name@].publicity.spec_is_importable()),
            },
    {
        match self.values.get(name) {
            Some(v) => if v.publicity.is_importable() {
                Some(v)
            } else {
                None
            },
            None => None,
        }
    }

    /// The type `name`, if the module defines it and lets other modules
    /// import it.
    pub fn get_public_type(&self, name: &str) -> (r: Option<&TypeConstructor>)
        ensures
            match r {
                Some(t) => self.types@.contains_key(name@) && *t == self.types@[name@]
                    && t.publicity.spec_is_importable(),
                None => !(self.types@.contains_key(name@) && self.types@[name@].publicity.spec_is_importable()),
            },
    {
        match self.types.get(name) {
            Some(t) => if t.publicity.is_importable() {
                Some(t)
            } else {
                None
            },
            None => None,
        }
    }

    /// The names of the values that other modules can import, in the order
    /// of the module's values.
    pub fn public_value_names(&self) -> (r: Vec<String>)
        ensures
            r@.map_values(|s: String| s@) == public_value_names_of(self.values.pairs()),
    {
        let n = self.values.len();
        let mut r: Vec<String> = Vec::new();
        let mut i: usize = 0;
        while i < n
            invariant
                n == self.values.pairs().len(),
                i <= n,
                r@.map_values(|s: String| s@) == public_value_names_of(self.values.pairs().subrange(0, i as int)),
            decreases n - i,
        {
            let ghost pre = self.values.pairs().subrange(0, i as int);
            assert(self.values.pairs().subrange(0, i + 1).drop_last() =~= pre);
            if self.values.value_at(i).publicity.is_importable() {
                r.push(self.values.key_at(i).clone());
            }
            proof {
                assert(r@.map_values(|s: String| s@) =~= public_value_names_of(self.values.pairs().subrange(0, i + 1)));
            }
            i = i + 1;
        }
        assert(self.values.pairs().subrange(0, n as int) =~= self.values.pairs());
        r
    }

    /// The names of the types that other modules can import, in the order
    /// of the module's types.
    pub fn public_type_names(&self) -> (r: Vec<String>)
        ensures
            r@.map_values(|s: String| s@) == public_type_names_of(self.types.pairs()),
    {
        let n = self.types.len();
        let mut r: Vec<String> = Vec::new();
        let mut i: usize = 0;
        while i < n
            invariant
                n == self.types.pairs().len(),
                i <= n,
                r@.map_values(|s: String| s@) == public_type_names_of(self.types.pairs().subrange(0, i as int)),
            decreases n - i,
        {
            let ghost pre = self.types.pairs().subrange(0, i as int);
            assert(self.types.pairs().subrange(0, i + 1).drop_last() =~= pre);
            if self.types.value_at(i).publicity.is_importable() {
                r.push(self.types.key_at(i).clone());
            }
            proof {
                assert(r@.map_values(|s: String| s@) =~= public_type_names_of(self.types.pairs().subrange(0, i + 1)));
            }
            i = i + 1;
        }
        assert(self.types.pairs().subrange(0, n as int) =~= self.types.pairs());
        r
    }
}

/// The names of the values that other modules can import, in order.
pub open spec fn public_value_names_of(p: Seq<(Seq<char>, ValueConstructor)>) -> Seq<Seq<char>>
    decreases p.len(),
{
    if p.len() == 0 {
        Seq::empty()
    } else {
        let rest = public_value_names_of(p.drop_last());
        if p.last().1.publicity.spec_is_importable() {
            rest.push(p.last().0)
        } else {
            rest
        }
    }
}

/// The names of the types that other modules can import, in order.
pub open spec fn public_type_names_of(p: Seq<(Seq<char>, TypeConstructor)>) -> Seq<Seq<char>>
    decreases p.len(),
{
    if p.len() == 0 {
        Seq::empty()
    } else {
        let rest = public_type_names_of(p.drop_last());
        if p.last().1.publicity.spec_is_importable() {
            rest.push(p.last().0)
        } else {
            rest
        }
    }
}

} // verus!
