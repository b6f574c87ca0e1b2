//! Aggregation of the two backends' record lists: plain concatenation,
//! order-preserving and never deduplicating.
use crate::record::{RecordView, ServiceRecord};
use vstd::prelude::*;

verus! {

/// Concatenates the native records with the package-manager records, the
/// latter only when the caller opted in and the package manager is available.
pub fn aggregate_services(
    native: Vec<ServiceRecord>,
    package: Vec<ServiceRecord>,
    include_package: bool,
    package_available: bool,
) -> (r: Vec<ServiceRecord>)
    ensures
        include_package && package_available ==> r@ == native@ + package@,
        !(include_package && package_available) ==> r@ == native@,
{
    let mut r = native;
    if include_package && package_available {
        let mut p = package;
        r.append(&mut p);
    }
    r
}

/// Aggregation is order-preserving and non-deduplicating: the combined list
/// is exactly the native records followed by the package-manager records,
/// each at its original relative position.
pub proof fn lemma_aggregation_order(native: Seq<RecordView>, package: Seq<RecordView>)
    ensures
        (native + package).len() == native.len() + package.len(),
        forall|i: int| 0 <= i < native.len() ==> (native + package)[i] == native[i],
        forall|j: int|
            0 <= j < package.len() ==> (native + package)[native.len() + j] == package[j],
{
}

} // verus!
