//! Gathering the outcomes of element-wise conversions: the first failure in
//! order decides, and without a failure the results are kept in order.
use vstd::prelude::*;
use crate::error::ConversionError;

verus! {

/// Position `i` holds the first failure of `rs`.
pub open spec fn is_first_err<T>(rs: Seq<Result<T, ConversionError>>, i: int) -> bool {
    &&& 0 <= i < rs.len()
    &&& rs[i] is Err
    &&& forall|j: int| 0 <= j < i ==> (#[trigger] rs[j]) is Ok
}

/// The outcomes as one: the values in order if every element succeeded,
/// the first failure otherwise.
#[verifier::opaque]
pub open spec fn collect<T>(rs: Seq<Result<T, ConversionError>>) -> Result<Seq<T>, ConversionError> {
    if exists|i: int| is_first_err(rs, i) {
        let i = choose|i: int| is_first_err(rs, i);
        Err(rs[i]->Err_0)
    } else {
        Ok(Seq::new(rs.len(), |i: int| rs[i]->Ok_0))
    }
}

/// When every element succeeded, so did the whole.
pub proof fn lemma_collect_ok<T>(rs: Seq<Result<T, ConversionError>>)
    requires
        forall|i: int| 0 <= i < rs.len() ==> (#[trigger] rs[i]) is Ok,
    ensures
        collect(rs) == Ok::<Seq<T>, ConversionError>(Seq::new(rs.len(), |i: int| rs[i]->Ok_0)),
{
    reveal(collect);
}

/// The first failure is the failure of the whole.
pub proof fn lemma_collect_err<T>(rs: Seq<Result<T, ConversionError>>, i: int)
    requires
        is_first_err(rs, i),
    ensures
        collect(rs) == Err::<Seq<T>, ConversionError>(rs[i]->Err_0),
{
    reveal(collect);
    let k = choose|k: int| is_first_err(rs, k);
    if k < i {
        assert(rs[k] is Ok);
    } else if i < k {
        assert(rs[i] is Ok);
    }
}

/// A whole that succeeded has the length of its parts, and each part
/// succeeded with the value at its position.
pub proof fn lemma_collect_is_ok<T>(rs: Seq<Result<T, ConversionError>>)
    requires
        collect(rs) is Ok,
    ensures
        collect(rs)->Ok_0.len() == rs.len(),
        forall|i: int| 0 <= i < rs.len() ==> (#[trigger] rs[i]) == Ok::<T, ConversionError>(collect(rs)->Ok_0[i]),
{
    reveal(collect);
    assert forall|i: int| 0 <= i < rs.len() implies (#[trigger] rs[i]) is Ok by {
        if rs[i] is Err {
            lemma_has_first_err(rs, i);
        }
    }
}

/// Where there is a failure there is a first one.
pub proof fn lemma_has_first_err<T>(rs: Seq<Result<T, ConversionError>>, i: int)
    requires
        0 <= i < rs.len(),
        rs[i] is Err,
    ensures
        exists|k: int| is_first_err(rs, k),
    decreases i,
{
    if forall|j: int| 0 <= j < i ==> (#[trigger] rs[j]) is Ok {
        assert(is_first_err(rs, i));
    } else {
        let j = choose|j: int| 0 <= j < i && !((#[trigger] rs[j]) is Ok);
        lemma_has_first_err(rs, j);
    }
}

} // verus!
