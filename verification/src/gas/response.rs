//! What the gas endpoint answers.

use crate::eth::U256;
use vstd::prelude::*;

verus! {

/// The gas estimate of one solution.
#[derive(Debug)]
pub struct SolutionResponse {
    pub gas: U256,
    pub success: bool,
    pub message: String,
}

/// The answer of the gas endpoint: the estimate of each solution, under the
/// solution's number, in the order in which the estimates were made.
#[derive(Debug)]
pub struct GasResponse {
    pub gas_estimates: Vec<(u64, SolutionResponse)>,
}

/// Whether `pair` reports the estimate `estimate`, unchanged.
pub open spec fn reports(estimate: (u64, (U256, bool, String)), pair: (u64, SolutionResponse)) -> bool {
    &&& pair.0 == estimate.0
    &&& pair.1.gas == estimate.1.0
    &&& pair.1.success == estimate.1.1
    &&& pair.1.message == estimate.1.2
}

/// Whether `response` reports `estimates`: as many pairs, each the estimate
/// in the same place.
pub open spec fn is_response(estimates: Seq<(u64, (U256, bool, String))>, response: GasResponse) -> bool {
    &&& response.gas_estimates@.len() == estimates.len()
    &&& forall|i: int|
        0 <= i < estimates.len() ==> reports(#[trigger] estimates[i], response.gas_estimates@[i])
}

impl GasResponse {
    /// The answer that reports `estimates`. Nothing is reordered, merged or
    /// left out: an estimate that occurs twice is reported twice.
    pub fn new(estimates: Vec<(u64, (U256, bool, String))>) -> (r: GasResponse)
        ensures
            is_response(estimates@, r),
    {
        let mut pairs: Vec<(u64, SolutionResponse)> = Vec::new();
        for estimate in it: estimates.into_iter()
            invariant
                it.seq() == estimates@,
                pairs@.len() == it.index(),
                forall|i: int| 0 <= i < it.index() ==> reports(#[trigger] it.seq()[i], pairs@[i]),
        {
            let (solution, (gas, success, message)): (u64, (U256, bool, String)) = estimate;
            pairs.push((solution, SolutionResponse { gas, success, message }));
        }
        GasResponse { gas_estimates: pairs }
    }
}

} // verus!
