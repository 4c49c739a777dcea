//! Where CPU-bound work runs.

use rayon::prelude::{IntoParallelIterator, ParallelIterator};
use vstd::prelude::*;

verus! {

/// Whether CPU-bound work runs on the calling thread or on many.
#[derive(Debug, Clone, Copy)]
pub struct Executor {
    parallel: bool,
}

/// `rayon`'s parallel map over a `Vec`, collected into a `Vec`. The claim is that the result holds,
/// in the order of the items, what the function returns for each.
#[verifier::external_body]
fn rayon_map<I, O, F>(items: Vec<I>, f: F) -> (res: Vec<O>) where
    I: Send,
    O: Send,
    F: Fn(I) -> O + Send + Sync,

    requires
        forall|i: int| 0 <= i < items@.len() ==> call_requires(f, (#[trigger] items@[i],)),
    ensures
        res@.len() == items@.len(),
        forall|i: int|
            0 <= i < items@.len() ==> call_ensures(f, (items@[i],), #[trigger] res@[i]),
{
    items.into_par_iter().map(f).collect()
}

impl Default for Executor {
    /// The executor that runs all work on the calling thread.
    fn default() -> (res: Self)
        ensures
            !res.is_parallel(),
            res == Self::sequential_executor(),
    {
        Executor::sequential()
    }
}

impl Executor {
    /// The executor that runs all work on the calling thread, of which there is one.
    pub closed spec fn sequential_executor() -> Executor {
        Executor { parallel: false }
    }

    /// Whether the executor uses many threads.
    pub closed spec fn is_parallel(&self) -> bool {
        self.parallel
    }

    /// An executor that runs all work on the calling thread.
    pub fn sequential() -> (res: Self)
        ensures
            !res.is_parallel(),
            res == Self::sequential_executor(),
    {
        Self { parallel: false }
    }

    /// An executor that runs work on many threads.
    pub fn parallel() -> (res: Self)
        ensures
            res.is_parallel(),
    {
        Self { parallel: true }
    }

    /// Whether blocking work is to be handed to another thread.
    pub fn offloads(&self) -> (res: bool)
        ensures
            res == self.is_parallel(),
    {
        self.parallel
    }

    /// What `f` returns for each item, in the order of the items.
    pub fn par_map<I, O, F>(&self, items: Vec<I>, f: F) -> (res: Vec<O>) where
        I: Send,
        O: Send,
        F: Fn(I) -> O + Send + Sync,

        requires
            forall|i: int| 0 <= i < items@.len() ==> call_requires(f, (#[trigger] items@[i],)),
        ensures
            res@.len() == items@.len(),
            forall|i: int|
                0 <= i < items@.len() ==> call_ensures(f, (items@[i],), #[trigger] res@[i]),
    {
        if self.parallel {
            rayon_map(items, f)
        } else {
            let ghost all = items@;
            let mut res: Vec<O> = Vec::new();
            for item in it: items
                invariant
                    it.seq() == all,
                    res@.len() == it.index(),
                    forall|i: int| 0 <= i < all.len() ==> call_requires(f, (#[trigger] all[i],)),
                    forall|i: int|
                        0 <= i < it.index() ==> call_ensures(f, (all[i],), #[trigger] res@[i]),
            {
                let out = f(item);
                res.push(out);
            }
            res
        }
    }
}

/// Work is handed to other threads exactly where the executor was made for many.
pub proof fn law_executors(one: Executor, many: Executor, from_one: bool, from_many: bool)
    requires
        call_ensures(Executor::sequential, (), one),
        call_ensures(Executor::parallel, (), many),
        call_ensures(Executor::offloads, (&one,), from_one),
        call_ensures(Executor::offloads, (&many,), from_many),
    ensures
        !from_one,
        from_many,
{
}

} // verus!
