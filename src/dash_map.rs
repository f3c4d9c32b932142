use vstd::prelude::*;

use dashmap::DashMap;

verus! {

/// dashmap's concurrent hash map, carried through verified code as an opaque value;
/// what each instance holds is named where it is used.
#[verifier::external_type_specification]
#[verifier::external_body]
#[verifier::reject_recursive_types(K)]
#[verifier::reject_recursive_types(V)]
#[verifier::reject_recursive_types(S)]
pub struct ExDashMap<K, V, S>(DashMap<K, V, S>);

} // verus!
