use vstd::prelude::*;

verus! {

#[verifier::external_type_specification]
#[verifier::external_body]
#[verifier::reject_recursive_types(K)]
#[verifier::reject_recursive_types(V)]
#[verifier::reject_recursive_types(S)]
pub struct ExImHashMap<K, V, S>(im::HashMap<K, V, S>);

/// What a persistent map from runtime names to import indices holds.
pub uninterp spec fn name_map(m: im::HashMap<String, u32>) -> Map<Seq<char>, u32>;

/// Relies on im::HashMap::new: the new map is empty.
#[verifier::external_body]
pub(crate) fn names_new() -> (r: im::HashMap<String, u32>)
    ensures
        name_map(r).dom() == Set::<Seq<char>>::empty(),
{
    im::HashMap::new()
}

/// Relies on im::HashMap::insert: the key is mapped to the value, replacing
/// any earlier value, and no other entry changes.
#[verifier::external_body]
pub(crate) fn names_insert(m: &mut im::HashMap<String, u32>, k: String, v: u32)
    ensures
        name_map(*final(m)) == name_map(*old(m)).insert(k@, v),
{
    m.insert(k, v);
}

/// Relies on im::HashMap::get: the value stored under the key, if any.
#[verifier::external_body]
pub(crate) fn names_get(m: &im::HashMap<String, u32>, k: &str) -> (r: Option<u32>)
    ensures
        r == (if name_map(*m).contains_key(k@) {
            Some(name_map(*m)[k@])
        } else {
            None::<u32>
        }),
{
    m.get(k).copied()
}

} // verus!
