//! The persistent hash maps of the `im` crate, as this library uses them:
//! the scope of values, the table of importable modules, and the variables
//! made while instantiating a type. A clone of such a map is cheap, which is
//! what lets a scope be saved and restored.

use vstd::prelude::*;
use crate::module::{ModuleInterface, ValueConstructor};
use crate::types::Type;

verus! {

/// The values in scope, by name: the id of each definition and what it
/// stands for.
pub type Scope = im::HashMap<String, (u64, ValueConstructor)>;

/// The modules that can be imported, by name.
pub type ModuleTable = im::HashMap<String, ModuleInterface>;

#[verifier::external_type_specification]
#[verifier::external_body]
#[verifier::reject_recursive_types(K)]
#[verifier::reject_recursive_types(V)]
#[verifier::reject_recursive_types(S)]
pub struct ExImHashMap<K, V, S>(im::HashMap<K, V, S>);

/// The names in scope, each with the id of its definition and what it
/// stands for.
pub uninterp spec fn scope_entries(m: Scope) -> Map<Seq<char>, (u64, ValueConstructor)>;

/// The modules that can be imported, by name.
pub uninterp spec fn module_table(m: ModuleTable) -> Map<Seq<char>, ModuleInterface>;

/// The variables made for generic ids during an instantiation, by id.
pub uninterp spec fn instantiated(m: im::HashMap<u64, Type>) -> Map<u64, Type>;

/// `keys` are the keys of `m`, each once, in some order.
pub open spec fn enumerates<V>(keys: Seq<String>, m: Map<Seq<char>, V>) -> bool {
    &&& keys.len() == m.dom().len()
    &&& forall|i: int| 0 <= i < keys.len() ==> m.contains_key((#[trigger] keys[i])@)
    &&& forall|i: int, j: int| 0 <= i < keys.len() && 0 <= j < keys.len() && i != j ==> (#[trigger] keys[i])@ != (#[trigger] keys[j])@
    &&& forall|k: Seq<char>| #[trigger] m.contains_key(k) ==> exists|i: int| 0 <= i < keys.len() && (#[trigger] keys[i])@ == k
}

/// `im::HashMap::new`: an empty scope.
#[verifier::external_body]
pub(crate) fn scope_new() -> (r: Scope)
    ensures
        scope_entries(r).dom() == Set::<Seq<char>>::empty(),
{
    im::HashMap::new()
}

/// `im::HashMap::clone`: a map with the same entries.
#[verifier::external_body]
pub(crate) fn scope_clone(m: &Scope) -> (r: Scope)
    ensures
        scope_entries(r) == scope_entries(*m),
{
    m.clone()
}

/// `im::HashMap::get`: the entry of `k`, if any.
#[verifier::external_body]
pub(crate) fn scope_get<'m>(m: &'m Scope, k: &str) -> (r: Option<&'m (u64, ValueConstructor)>)
    ensures
        match r {
            Some(v) => scope_entries(*m).contains_key(k@) && *v == scope_entries(*m)[k@],
            None => !scope_entries(*m).contains_key(k@),
        },
{
    m.get(k)
}

/// `im::HashMap::contains_key`: whether `k` has an entry.
#[verifier::external_body]
pub(crate) fn scope_contains_key(m: &Scope, k: &str) -> (r: bool)
    ensures
        r == scope_entries(*m).contains_key(k@),
{
    m.contains_key(k)
}

/// `im::HashMap::insert`: set the entry of `k`, returning the one it had.
#[verifier::external_body]
pub(crate) fn scope_insert(m: &mut Scope, k: String, v: (u64, ValueConstructor)) -> (r: Option<(u64, ValueConstructor)>)
    ensures
        scope_entries(*final(m)) == scope_entries(*old(m)).insert(k@, v),
        match r {
            Some(w) => scope_entries(*old(m)).contains_key(k@) && w == scope_entries(*old(m))[k@],
            None => !scope_entries(*old(m)).contains_key(k@),
        },
{
    m.insert(k, v)
}

/// `im::HashMap::keys`: the names in scope, each once, in the map's order,
/// which depends on the hasher's random seed.
#[verifier::external_body]
pub(crate) fn scope_keys(m: &Scope) -> (r: Vec<String>)
    ensures
        enumerates(r@, scope_entries(*m)),
{
    m.keys().cloned().collect()
}

/// `im::HashMap::get`: the module named `k`, if any.
#[verifier::external_body]
pub(crate) fn module_get<'m>(m: &'m ModuleTable, k: &str) -> (r: Option<&'m ModuleInterface>)
    ensures
        match r {
            Some(v) => module_table(*m).contains_key(k@) && *v == module_table(*m)[k@],
            None => !module_table(*m).contains_key(k@),
        },
{
    m.get(k)
}

/// `im::HashMap::keys`: the names of the modules, each once, in the map's
/// order, which depends on the hasher's random seed.
#[verifier::external_body]
pub(crate) fn module_names(m: &ModuleTable) -> (r: Vec<String>)
    ensures
        enumerates(r@, module_table(*m)),
{
    m.keys().cloned().collect()
}

/// `im::HashMap::get`: the variable made for the generic `k`, if any.
#[verifier::external_body]
pub(crate) fn instantiated_get(m: &im::HashMap<u64, Type>, k: u64) -> (r: Option<&Type>)
    ensures
        match r {
            Some(v) => instantiated(*m).contains_key(k) && *v == instantiated(*m)[k],
            None => !instantiated(*m).contains_key(k),
        },
{
    m.get(&k)
}

/// `im::HashMap::insert`: record the variable made for the generic `k`.
#[verifier::external_body]
pub(crate) fn instantiated_insert(m: &mut im::HashMap<u64, Type>, k: u64, v: Type) -> (r: Option<Type>)
    ensures
        instantiated(*final(m)) == instantiated(*old(m)).insert(k, v),
        match r {
            Some(w) => instantiated(*old(m)).contains_key(k) && w == instantiated(*old(m))[k],
            None => !instantiated(*old(m)).contains_key(k),
        },
{
    m.insert(k, v)
}

} // verus!
