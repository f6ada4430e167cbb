//! Parallel fan-out over a list of work items.
//!
//! Items are dispatched across a worker pool; each item's result is placed
//! in the output slot of the item's own index, so the output is
//! index-aligned with the input whatever order workers finish in.  The
//! progress observer is invoked once per completed item, from whichever
//! worker finished it.

use vstd::prelude::*;
use rayon::iter::{ParallelIterator, IndexedParallelIterator, IntoParallelRefIterator};

verus! {

/// Worker-pool parameters: the worker count defaults to the number of
/// available processing units on the host, uncapped.
pub struct ParallelConfig {
    pub num_threads: usize,
    pub chunk_size: usize,
}

/// Relies on num_cpus::get: the number of available logical processors;
/// its documentation promises it always returns at least 1.
#[verifier::external_body]
fn available_cpus() -> (r: usize)
    ensures
        r >= 1,
{
    num_cpus::get()
}

impl Default for ParallelConfig {
    /// One worker per available processing unit, chunks of ten.
    fn default() -> (r: Self)
        ensures
            r.num_threads >= 1,
            r.chunk_size == 10,
    {
        ParallelConfig { num_threads: available_cpus(), chunk_size: 10 }
    }
}

/// Relies on rayon: `par_iter` over a `Vec` is an indexed parallel
/// iterator, `map` keeps the indexing, and collecting into a `Vec` places
/// each item's result at that item's own index, so the output is in input
/// order regardless of completion order.
#[verifier::external_body]
fn par_map<F: Fn(&String) -> Result<String, String> + Send + Sync>(
    items: &Vec<String>,
    f: &F,
) -> (r: Vec<Result<String, String>>)
    requires
        forall|i: int| 0 <= i < items@.len() ==> call_requires(*f, (&items@[i],)),
    ensures
        r@.len() == items@.len(),
        forall|i: int| 0 <= i < items@.len() ==> call_ensures(*f, (&items@[i],), #[trigger] r@[i]),
{
    items.par_iter().map(|x| f(x)).collect()
}

/// Relies on rayon, as `par_map` does; additionally hands each completed
/// item's index to `g`, from whichever worker completed it.
#[verifier::external_body]
fn par_map_notify<
    F: Fn(&String) -> Result<String, String> + Send + Sync,
    G: Fn(usize) + Send + Sync,
>(items: &Vec<String>, f: &F, g: &G) -> (r: Vec<Result<String, String>>)
    requires
        forall|i: int| 0 <= i < items@.len() ==> call_requires(*f, (&items@[i],)),
        forall|i: usize| i < items@.len() ==> call_requires(*g, (i,)),
    ensures
        r@.len() == items@.len(),
        forall|i: int| 0 <= i < items@.len() ==> call_ensures(*f, (&items@[i],), #[trigger] r@[i]),
{
    items.par_iter().enumerate().map(
        |(i, x): (usize, &String)|
            {
                let r = f(x);
                g(i);
                r
            },
    ).collect()
}

/// Maps the processor over the images on the worker pool.  The output is
/// index-aligned: slot `i` holds a possible result of the processor on
/// image `i`, whatever order the workers finished in.
///
/// The configured worker count is advisory: the work runs on the shared
/// pool.
pub fn process_images_parallel<F: Fn(&String) -> Result<String, String> + Send + Sync>(
    images: Vec<String>,
    config: ParallelConfig,
    processor: F,
) -> (r: Vec<Result<String, String>>)
    requires
        forall|i: int| 0 <= i < images@.len() ==> call_requires(processor, (&images@[i],)),
    ensures
        r@.len() == images@.len(),
        forall|i: int| 0 <= i < images@.len() ==> call_ensures(
            processor,
            (&images@[i],),
            #[trigger] r@[i],
        ),
{
    let _ = config;
    par_map(&images, &processor)
}

/// Like [`process_images_parallel`], and additionally reports each
/// completed item's index to the progress observer, once per item, from
/// whichever worker finished it.
pub fn process_images_parallel_with_progress<
    F: Fn(&String) -> Result<String, String> + Send + Sync,
    G: Fn(usize) + Send + Sync,
>(images: Vec<String>, config: ParallelConfig, processor: F, progress: G) -> (r: Vec<
    Result<String, String>,
>)
    requires
        forall|i: int| 0 <= i < images@.len() ==> call_requires(processor, (&images@[i],)),
        forall|i: usize| i < images@.len() ==> call_requires(progress, (i,)),
    ensures
        r@.len() == images@.len(),
        forall|i: int| 0 <= i < images@.len() ==> call_ensures(
            processor,
            (&images@[i],),
            #[trigger] r@[i],
        ),
{
    let _ = config;
    par_map_notify(&images, &processor, &progress)
}

} // verus!
