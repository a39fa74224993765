use vstd::prelude::*;
use dashmap::DashMap;
use crate::value::PhpValue;

verus! {

#[verifier::external_type_specification]
#[verifier::external_body]
#[verifier::reject_recursive_types(K)]
#[verifier::reject_recursive_types(V)]
#[verifier::reject_recursive_types(S)]
pub struct ExDashMap<K, V, S>(DashMap<K, V, S>);

/// What a name index (`DashMap<String, usize>`) holds: name to id. A
/// `DashMap` can change through a shared reference; the contracts here take
/// what it holds to stay put while a verified call runs, that is, no other
/// thread inserts into it meanwhile.
pub uninterp spec fn index_entries(m: DashMap<String, usize>) -> Map<Seq<char>, usize>;

/// What a constant table (`DashMap<String, PhpValue>`) holds.
pub uninterp spec fn constant_entries(m: DashMap<String, PhpValue>) -> Map<Seq<char>, PhpValue>;

/// `DashMap::get` on a name index: the id stored under `key`, if any.
#[verifier::external_body]
pub(crate) fn index_get(m: &DashMap<String, usize>, key: &str) -> (r: Option<usize>)
    ensures
        r == index_entries(*m).get(key@),
{
    m.get(key).map(|v| *v)
}

/// `DashMap::contains_key` on a name index.
#[verifier::external_body]
pub(crate) fn index_contains(m: &DashMap<String, usize>, key: &str) -> (r: bool)
    ensures
        r == index_entries(*m).contains_key(key@),
{
    m.contains_key(key)
}

/// `DashMap::get` on a constant table: the value stored under `key`, if any.
#[verifier::external_body]
pub(crate) fn constants_get(m: &DashMap<String, PhpValue>, key: &str) -> (r: Option<PhpValue>)
    ensures
        r == constant_entries(*m).get(key@),
{
    m.get(key).map(|v| *v)
}

} // verus!
