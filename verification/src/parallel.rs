//! Fan-out over a worker pool. Nothing here is proved: the function states
//! what the `rayon` crate guarantees of a parallel map that is gathered in
//! index order.

use crate::value::NumberGeneratorError;
use rayon::iter::{IntoParallelIterator, ParallelIterator};
use vstd::prelude::*;

verus! {

/// `rayon`'s parallel iterator over the range `0..count`, with
/// `ParallelIterator::map` and `ParallelIterator::collect` into a `Result`
/// of a `Vec`. The task is run for indices of the range only. Where every
/// run succeeds, the texts come back in index order, one for each index,
/// each of them what the task returned for that index. Where a run fails,
/// what comes back is the error of one of the failed runs; which one is
/// left open.
#[verifier::external_body]
pub(crate) fn gather_in_order<F>(count: usize, task: F) -> (gathered: Result<
    Vec<String>,
    NumberGeneratorError,
>) where F: Fn(usize) -> Result<String, NumberGeneratorError> + Sync + Send
    requires
        forall|index: usize| index < count ==> call_requires(task, (index,)),
    ensures
        match gathered {
            Ok(texts) => {
                &&& texts@.len() == count
                &&& forall|index: usize|
                    index < count ==> call_ensures(
                        task,
                        (index,),
                        Ok::<String, NumberGeneratorError>(#[trigger] texts@[index as int]),
                    )
            },
            Err(error) => exists|index: usize|
                index < count && #[trigger] call_ensures(
                    task,
                    (index,),
                    Err::<String, NumberGeneratorError>(error),
                ),
        },
{
    (0..count).into_par_iter().map(task).collect()
}

} // verus!
