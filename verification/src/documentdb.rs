//! Documents that are embedded and stored by themselves: the database that callers use.
//!
//! Putting a document in hands it to the ingestion queue. A database that is opened for reading
//! has no queue.

use vstd::prelude::*;
use crate::config::Config;
use crate::embedder::Embedder;
use crate::error::{CapsaError, DatabaseError, EmbeddingError, Result};
use crate::queue::{
    queue_db_path, queue_path, Queue, QueueConnection, QueueStatement, QueueStatementView,
};
use crate::sql::{stmt, ParamView, Statement};
use crate::text::{copy_of, optional_text, texts};
use crate::vectordb::{
    fetch_document_sql, is_schema_error, search_statement, search_topk_sql,
    search_topk_with_distance_sql, setting_views, validation, StoredSettings, VectorDatabase,
    VectorDatabaseConnection,
};

verus! {

/// What putting a document into a database without a queue is answered.
pub open spec fn is_insert_refused(e: CapsaError) -> bool {
    e matches CapsaError::Database(DatabaseError::InsertFailed(s)) && s@
        == "insert requires a writable connection (use DocumentDatabase::new, not new_reader)"@
}

/// What asking a database without a queue for its queue is answered.
pub open spec fn is_query_refused(e: CapsaError, text: Seq<char>) -> bool {
    e matches CapsaError::Database(DatabaseError::QueryFailed(s)) && s@ == text
}

/// A connection to a document database.
#[derive(Debug)]
pub struct DocumentDatabaseConnection {
    /// The connection that searches and fetches.
    pub vconn: VectorDatabaseConnection,
    /// The connection to the queue, where the database is open for writing.
    pub queue: Option<QueueConnection>,
}

impl DocumentDatabaseConnection {
    /// Puts a document into the queue, without a source. It fails only on a connection without a
    /// queue.
    pub fn insert(&self, metadata: &str, text: &str) -> (res: Result<QueueStatement>)
        ensures
            match res {
                Ok(change) => self.queue is Some && change@ == (QueueStatementView::Enqueue {
                    source: ""@,
                    metadata: metadata@,
                    text: text@,
                }),
                Err(e) => self.queue is None && is_insert_refused(e),
            },
    {
        match &self.queue {
            Some(queue) => Ok(queue.enqueue("", metadata, text)),
            None => Err(
                CapsaError::Database(
                    DatabaseError::InsertFailed(
                        "insert requires a writable connection (use DocumentDatabase::new, not new_reader)".to_owned(),
                    ),
                ),
            ),
        }
    }

    /// The queue to ask for the status of the pipeline.
    pub fn pipeline_status(&self) -> (res: Result<&QueueConnection>)
        ensures
            match res {
                Ok(queue) => self.queue == Some(*queue),
                Err(e) => self.queue is None && is_query_refused(
                    e,
                    "pipeline_status requires a writable connection"@,
                ),
            },
    {
        match &self.queue {
            Some(queue) => Ok(queue),
            None => Err(
                CapsaError::Database(
                    DatabaseError::QueryFailed(
                        "pipeline_status requires a writable connection".to_owned(),
                    ),
                ),
            ),
        }
    }

    /// The queue to ask for the documents that have failed.
    pub fn failed_items(&self) -> (res: Result<&QueueConnection>)
        ensures
            match res {
                Ok(queue) => self.queue == Some(*queue),
                Err(e) => self.queue is None && is_query_refused(
                    e,
                    "failed_items requires a writable connection"@,
                ),
            },
    {
        match &self.queue {
            Some(queue) => Ok(queue),
            None => Err(
                CapsaError::Database(
                    DatabaseError::QueryFailed(
                        "failed_items requires a writable connection".to_owned(),
                    ),
                ),
            ),
        }
    }

    /// Searches for the chunks nearest to the embedding of a query, which comes as JSON text.
    pub fn search_topk(&self, query_vector: &str, limit: usize) -> (res: Statement)
        requires
            self.vconn.wf(),
        ensures
            res@ == search_statement(search_topk_sql(self.vconn.dim()), query_vector@, limit),
    {
        self.vconn.search_topk(query_vector, limit)
    }

    /// Searches for the chunks nearest to the embedding of a query, and for their distances.
    pub fn search_topk_with_distance(&self, query_vector: &str, limit: usize) -> (res: Statement)
        requires
            self.vconn.wf(),
        ensures
            res@ == search_statement(
                search_topk_with_distance_sql(self.vconn.dim()),
                query_vector@,
                limit,
            ),
    {
        self.vconn.search_topk_with_distance(query_vector, limit)
    }

    /// Asks for a document by its number.
    pub fn fetch_document(&self, doc_id: i64) -> (res: Statement)
        requires
            self.vconn.wf(),
        ensures
            res@ == stmt(fetch_document_sql(self.vconn.dim()), seq![ParamView::Integer(doc_id)]),
    {
        self.vconn.fetch_document(doc_id)
    }
}

/// A document database: the vector database, the queue where it is open for writing, and the
/// model that the vector database is to be of.
#[derive(Debug)]
pub struct DocumentDatabase {
    pub vdb: VectorDatabase,
    pub queue: Option<Queue>,
    pub model: Option<String>,
}

impl DocumentDatabase {
    /// The database of a configuration, open for writing, given how many components the embedding
    /// of a probe has. The queue lies beside the vector database.
    pub fn new<K>(config: &Config<K>, probe_components: usize) -> (res: Result<Self>)
        ensures
            match res {
                Ok(db) => {
                    &&& probe_components > 0
                    &&& db.vdb.db_path@ == config.db_path@
                    &&& db.vdb.schema.wf()
                    &&& db.vdb.schema.vec_size == probe_components
                    &&& db.vdb.executor == config.executor
                    &&& db.queue matches Some(queue) && queue.path@ == queue_path(config.db_path@)
                    &&& optional_text(db.model) == Some(config.model@)
                },
                Err(e) => probe_components == 0 && e == CapsaError::Embedding(
                    EmbeddingError::NoEmbeddingReturned,
                ),
            },
    {
        match Self::new_reader(config, probe_components) {
            Err(e) => Err(e),
            Ok(reader) => {
                let path = queue_db_path(config.db_path.as_str());
                Ok(
                    DocumentDatabase {
                        vdb: reader.vdb,
                        queue: Some(Queue::new(path.as_str())),
                        model: reader.model,
                    },
                )
            },
        }
    }

    /// The database of a configuration, open for reading.
    pub fn new_reader<K>(config: &Config<K>, probe_components: usize) -> (res: Result<Self>)
        ensures
            match res {
                Ok(db) => {
                    &&& probe_components > 0
                    &&& db.vdb.db_path@ == config.db_path@
                    &&& db.vdb.schema.wf()
                    &&& db.vdb.schema.vec_size == probe_components
                    &&& db.vdb.executor == config.executor
                    &&& db.queue is None
                    &&& optional_text(db.model) == Some(config.model@)
                },
                Err(e) => probe_components == 0 && e == CapsaError::Embedding(
                    EmbeddingError::NoEmbeddingReturned,
                ),
            },
    {
        match Embedder::probed_dimension(probe_components) {
            Err(e) => Err(e),
            Ok(dim) => Ok(
                DocumentDatabase {
                    vdb: VectorDatabase::new(config.db_path.as_str(), dim, config.executor),
                    queue: None,
                    model: Some(copy_of(config.model.as_str())),
                },
            ),
        }
    }

    /// A connection to the database, with the settings to write. It has a queue where the database
    /// has one. It fails where what the vector database stores does not go with its dimension and
    /// the model.
    pub fn connect(&self, stored: StoredSettings) -> (res: Result<
        (DocumentDatabaseConnection, Vec<(String, String)>),
    >)
        ensures
            match (
                validation(
                    self.vdb.schema.vec_size as nat,
                    optional_text(self.model),
                    optional_text(stored.dim),
                    texts(stored.table_names@),
                    optional_text(stored.model),
                ),
                res,
            ) {
                (Ok(settings), Ok((conn, v))) => {
                    &&& conn.vconn.wf()
                    &&& conn.vconn.schema.vec_size == self.vdb.schema.vec_size
                    &&& conn.vconn.executor == self.vdb.executor
                    &&& conn.queue is Some == self.queue is Some
                    &&& setting_views(v@) == settings
                },
                (Err(text), Err(e)) => is_schema_error(e, text),
                _ => false,
            },
    {
        let model: Option<&str> = match &self.model {
            Some(m) => Some(m.as_str()),
            None => None,
        };
        match self.vdb.connect_with_model(model, stored) {
            Err(e) => Err(e),
            Ok((vconn, settings)) => {
                let queue = match &self.queue {
                    Some(_) => Some(QueueConnection {  }),
                    None => None,
                };
                Ok((DocumentDatabaseConnection { vconn, queue }, settings))
            },
        }
    }
}

} // verus!
