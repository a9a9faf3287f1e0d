use vstd::prelude::*;

verus! {

#[verifier::external_type_specification]
#[verifier::external_body]
#[verifier::reject_recursive_types(K)]
#[verifier::reject_recursive_types(V)]
#[verifier::reject_recursive_types(S)]
pub struct ExImHashMap<K, V, S>(im::HashMap<K, V, S>);

#[verifier::external_type_specification]
#[verifier::external_body]
#[verifier::reject_recursive_types(K)]
#[verifier::reject_recursive_types(V)]
pub struct ExImOrdMap<K, V>(im::OrdMap<K, V>);

/// The entries of a persistent hash map from handle values to schedule keys
/// (time, parent index, emission index).
pub uninterp spec fn handle_table(m: im::HashMap<u64, (u64, usize, usize)>) -> Map<u64, (u64, usize, usize)>;

/// The entries of a persistent ordered map from schedule keys (time, parent
/// index, emission index) to handle values.
pub uninterp spec fn handle_index(m: im::OrdMap<(u64, usize, usize), u64>) -> Map<(u64, usize, usize), u64>;

/// `im::HashMap::new`: a map with no entry.
#[verifier::external_body]
pub(crate) fn table_new() -> (r: im::HashMap<u64, (u64, usize, usize)>)
    ensures
        forall|k: u64| !handle_table(r).contains_key(k),
{
    im::HashMap::new()
}

/// `im::HashMap::insert`: `k` now maps to `v`, whatever it mapped to before.
#[verifier::external_body]
pub(crate) fn table_insert(m: &mut im::HashMap<u64, (u64, usize, usize)>, k: u64, v: (u64, usize, usize))
    ensures
        handle_table(*final(m)) == handle_table(*old(m)).insert(k, v),
{
    m.insert(k, v);
}

/// `im::HashMap::get`: the value of `k`, if it has one.
#[verifier::external_body]
pub(crate) fn table_get(m: &im::HashMap<u64, (u64, usize, usize)>, k: u64) -> (r: Option<(u64, usize, usize)>)
    ensures
        handle_table(*m).contains_key(k) ==> r == Some(handle_table(*m)[k]),
        !handle_table(*m).contains_key(k) ==> r is None,
{
    m.get(&k).copied()
}

/// `im::HashMap::remove`: `k` has no entry any more.
#[verifier::external_body]
pub(crate) fn table_remove(m: &mut im::HashMap<u64, (u64, usize, usize)>, k: u64)
    ensures
        handle_table(*final(m)) == handle_table(*old(m)).remove(k),
{
    m.remove(&k);
}

/// `im::HashMap::len`: the number of entries.
#[verifier::external_body]
pub(crate) fn table_len(m: &im::HashMap<u64, (u64, usize, usize)>) -> (r: usize)
    ensures
        r == handle_table(*m).len(),
{
    m.len()
}

/// `im::HashMap::clone`: a map with the same entries.
#[verifier::external_body]
pub(crate) fn table_clone(m: &im::HashMap<u64, (u64, usize, usize)>) -> (r: im::HashMap<u64, (u64, usize, usize)>)
    ensures
        handle_table(r) == handle_table(*m),
{
    m.clone()
}

/// `im::OrdMap::new`: a map with no entry.
#[verifier::external_body]
pub(crate) fn index_new() -> (r: im::OrdMap<(u64, usize, usize), u64>)
    ensures
        forall|k: (u64, usize, usize)| !handle_index(r).contains_key(k),
{
    im::OrdMap::new()
}

/// `im::OrdMap::insert`: `k` now maps to `v`, whatever it mapped to before.
#[verifier::external_body]
pub(crate) fn index_insert(m: &mut im::OrdMap<(u64, usize, usize), u64>, k: (u64, usize, usize), v: u64)
    ensures
        handle_index(*final(m)) == handle_index(*old(m)).insert(k, v),
{
    m.insert(k, v);
}

/// `im::OrdMap::remove`: `k` has no entry any more; its value, if it had one,
/// is handed back.
#[verifier::external_body]
pub(crate) fn index_remove(m: &mut im::OrdMap<(u64, usize, usize), u64>, k: (u64, usize, usize)) -> (r: Option<u64>)
    ensures
        handle_index(*final(m)) == handle_index(*old(m)).remove(k),
        handle_index(*old(m)).contains_key(k) ==> r == Some(handle_index(*old(m))[k]),
        !handle_index(*old(m)).contains_key(k) ==> r is None,
{
    m.remove(&k)
}

/// `im::OrdMap::contains_key`: whether `k` has an entry.
#[verifier::external_body]
pub(crate) fn index_contains(m: &im::OrdMap<(u64, usize, usize), u64>, k: (u64, usize, usize)) -> (r: bool)
    ensures
        r == handle_index(*m).contains_key(k),
{
    m.contains_key(&k)
}

/// `im::OrdMap::len`: the number of entries.
#[verifier::external_body]
pub(crate) fn index_len(m: &im::OrdMap<(u64, usize, usize), u64>) -> (r: usize)
    ensures
        r == handle_index(*m).len(),
{
    m.len()
}

/// `im::OrdMap::clone`: a map with the same entries.
#[verifier::external_body]
pub(crate) fn index_clone(m: &im::OrdMap<(u64, usize, usize), u64>) -> (r: im::OrdMap<(u64, usize, usize), u64>)
    ensures
        handle_index(r) == handle_index(*m),
{
    m.clone()
}

} // verus!
