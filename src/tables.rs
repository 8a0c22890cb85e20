//! The insertion-ordered hash tables behind response registries and
//! per-method operation stores, and what this library relies on of them.
use crate::method::Method;
use crate::operation::{Operation, Response};
use indexmap::IndexMap;
use vstd::prelude::*;

verus! {

#[verifier::external_type_specification]
#[verifier::external_body]
#[verifier::reject_recursive_types(K)]
#[verifier::reject_recursive_types(V)]
#[verifier::reject_recursive_types(S)]
pub struct ExIndexMap<K, V, S>(IndexMap<K, V, S>);

/// The status-code-to-response entries held by a table.
pub uninterp spec fn status_entries(m: IndexMap<u16, Response>) -> Map<u16, Response>;

/// The method-to-operation entries held by a table.
pub uninterp spec fn method_entries(m: IndexMap<Method, Operation>) -> Map<Method, Operation>;

/// The map built by inserting the pairs in order, a later pair replacing an
/// earlier one with the same key.
pub open spec fn pairs_map<K, V>(pairs: Seq<(K, V)>) -> Map<K, V>
    decreases pairs.len(),
{
    if pairs.len() == 0 {
        Map::empty()
    } else {
        pairs_map(pairs.drop_last()).insert(pairs.last().0, pairs.last().1)
    }
}

/// Relies on `IndexMap::new`: the new table is empty.
#[verifier::external_body]
pub(crate) fn new_status_table() -> (r: IndexMap<u16, Response>)
    ensures
        status_entries(r) =~= Map::empty(),
{
    IndexMap::new()
}

/// Relies on `IndexMap::contains_key`: true exactly when an entry has the key.
#[verifier::external_body]
pub(crate) fn status_table_contains(m: &IndexMap<u16, Response>, code: u16) -> (r: bool)
    ensures
        r == status_entries(*m).contains_key(code),
{
    m.contains_key(&code)
}

/// Relies on `IndexMap::insert`: the key maps to the value afterwards, a
/// previous value for it is replaced, other entries stay.
#[verifier::external_body]
pub(crate) fn status_table_insert(m: &mut IndexMap<u16, Response>, code: u16, response: Response)
    ensures
        status_entries(*final(m)) == status_entries(*old(m)).insert(code, response),
{
    m.insert(code, response);
}

/// Relies on `IndexMap::new`: the new table is empty.
#[verifier::external_body]
pub(crate) fn new_method_table() -> (r: IndexMap<Method, Operation>)
    ensures
        method_entries(r) =~= Map::empty(),
{
    IndexMap::new()
}

/// Relies on `IndexMap::insert`: the key maps to the value afterwards, a
/// previous value for it is replaced, other entries stay.
#[verifier::external_body]
pub(crate) fn method_table_insert(
    m: &mut IndexMap<Method, Operation>,
    method: Method,
    operation: Operation,
)
    ensures
        method_entries(*final(m)) == method_entries(*old(m)).insert(method, operation),
{
    m.insert(method, operation);
}

/// Relies on `IndexMap::into_iter`: every entry comes out once, as a
/// key-value pair.
#[verifier::external_body]
pub(crate) fn method_table_into_pairs(m: IndexMap<Method, Operation>) -> (r: Vec<(Method, Operation)>)
    ensures
        pairs_map(r@) == method_entries(m),
{
    m.into_iter().collect()
}

} // verus!
