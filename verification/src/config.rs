//! Configuration of the embedding system.

use vstd::prelude::*;
use crate::executor::Executor;

verus! {

/// The maximum context size in tokens for text embeddings.
pub const EMBEDDING_CONTEXT: usize = 128;

/// Runtime configuration of the embedding system. `K` is the type of the API key: one that shows
/// nothing of what it holds.
#[non_exhaustive]
#[derive(Clone, Debug)]
pub struct Config<K> {
    /// Base URL of the embedding API.
    pub base_url: String,
    /// Name of the embedding model.
    pub model: String,
    /// Path of the vector database.
    pub db_path: String,
    /// API key, where one is needed.
    pub api_key: Option<K>,
    /// Where CPU-bound work runs.
    pub executor: Executor,
}

impl<K> Config<K> {
    /// A configuration whose work runs on the calling thread.
    pub fn new(
        base_url: String,
        model: String,
        db_path: String,
        api_key: Option<K>,
    ) -> (res: Self)
        ensures
            res.base_url == base_url,
            res.model == model,
            res.db_path == db_path,
            res.api_key == api_key,
            !res.executor.is_parallel(),
    {
        Config { base_url, model, db_path, api_key, executor: Executor::sequential() }
    }

    /// The same configuration with another executor.
    pub fn with_executor(self, executor: Executor) -> (res: Self)
        ensures
            res.base_url == self.base_url,
            res.model == self.model,
            res.db_path == self.db_path,
            res.api_key == self.api_key,
            res.executor == executor,
    {
        Config {
            base_url: self.base_url,
            model: self.model,
            db_path: self.db_path,
            api_key: self.api_key,
            executor,
        }
    }
}

/// A configuration keeps what it was made of, whichever executor it is given.
pub proof fn law_config<K>(
    base_url: String,
    model: String,
    db_path: String,
    api_key: Option<K>,
    executor: Executor,
    first: Config<K>,
    second: Config<K>,
    offloads: bool,
)
    requires
        call_ensures(Config::<K>::new, (base_url, model, db_path, api_key), first),
        call_ensures(Config::<K>::with_executor, (first, executor), second),
        call_ensures(Executor::offloads, (&first.executor,), offloads),
    ensures
        second.base_url == base_url,
        second.model == model,
        second.db_path == db_path,
        second.api_key == api_key,
        second.executor == executor,
        !offloads,
{
}

} // verus!
