use vstd::prelude::*;
use soroban_sdk::ConversionError;

verus! {

/// A Soroban address; carried through the library's records, never inspected.
#[verifier::external_type_specification]
#[verifier::external_body]
pub struct ExAddress(soroban_sdk::Address);

/// A Soroban host vector; the library reads its items through the wrappers below.
#[verifier::external_type_specification]
#[verifier::external_body]
#[verifier::reject_recursive_types(T)]
pub struct ExHostVec<T>(soroban_sdk::Vec<T>);

/// The error of a failed conversion of a host value.
#[verifier::external_type_specification]
#[verifier::external_body]
pub struct ExConversionError(soroban_sdk::ConversionError);

/// The items, in order, of a host vector of `u32`: `Some(x)` where the stored
/// value is the `u32` `x`, `None` where the stored value is not a `u32` (a host
/// vector decoded from storage or from arguments is not checked item by item).
pub uninterp spec fn host_u32_items(v: soroban_sdk::Vec<u32>) -> Seq<Option<u32>>;

/// Specifies `Clone` of `soroban_sdk::Address`; nothing is stated of the copy.
pub assume_specification[ <soroban_sdk::Address as Clone>::clone ](a: &soroban_sdk::Address) ->
    soroban_sdk::Address;

/// Specifies `Clone` of `soroban_sdk::Vec`; nothing is stated of the copy.
pub assume_specification<T>[ <soroban_sdk::Vec<T> as Clone>::clone ](v: &soroban_sdk::Vec<T>) ->
    soroban_sdk::Vec<T>;

/// Calls `soroban_sdk::Vec::len`: the number of items the vector holds.
#[verifier::external_body]
pub(crate) fn host_vec_len(v: &soroban_sdk::Vec<u32>) -> (n: u32)
    ensures
        n == host_u32_items(*v).len(),
{
    v.len()
}

/// Calls `soroban_sdk::Vec::is_empty`: whether the vector holds no item.
#[verifier::external_body]
pub(crate) fn host_vec_is_empty(v: &soroban_sdk::Vec<u32>) -> (empty: bool)
    ensures
        empty == (host_u32_items(*v).len() == 0),
{
    v.is_empty()
}

/// Calls `soroban_sdk::Vec::try_get`: `Ok(None)` past the end, `Ok(Some(x))`
/// where the stored value is the `u32` `x`, and an error where the stored value
/// is not a `u32`.
#[verifier::external_body]
pub(crate) fn host_vec_try_get(v: &soroban_sdk::Vec<u32>, i: u32) -> (item: Result<Option<u32>, ConversionError>)
    ensures
        item is Ok <==> (i >= host_u32_items(*v).len() || host_u32_items(*v)[i as int] is Some),
        item is Ok ==> item->Ok_0 == (if i < host_u32_items(*v).len() {
            host_u32_items(*v)[i as int]
        } else {
            None::<u32>
        }),
{
    v.try_get(i)
}

} // verus!
