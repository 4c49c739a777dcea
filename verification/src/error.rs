//! The errors of the library.

use vstd::prelude::*;

verus! {

/// An error of the database engine.
#[verifier::external_type_specification]
#[verifier::external_body]
pub struct ExLibSqlError(libsql::Error);

/// An error of reading or writing JSON.
#[verifier::external_type_specification]
#[verifier::external_body]
pub struct ExJsonError(serde_json::Error);

/// An error of input or output.
#[verifier::external_type_specification]
#[verifier::external_body]
pub struct ExIoError(std::io::Error);

/// An error of the embedding API.
#[verifier::external_type_specification]
#[verifier::external_body]
pub struct ExOpenAIError(async_openai::error::OpenAIError);

/// An error in the settings of the text splitter.
#[verifier::external_type_specification]
#[verifier::external_body]
pub struct ExChunkConfigError(text_splitter::ChunkConfigError);

/// Any error of the library, by its source.
#[non_exhaustive]
#[derive(Debug)]
pub enum CapsaError {
    /// Making embeddings failed.
    Embedding(EmbeddingError),
    /// The database failed.
    Database(DatabaseError),
    /// Processing or parsing data failed.
    Processing(ProcessingError),
}

/// Errors in making embeddings.
#[non_exhaustive]
#[derive(Debug)]
pub enum EmbeddingError {
    /// The API returned no embedding.
    NoEmbeddingReturned,
    /// The tokenizer could not be loaded.
    TokenizerLoad { model: String, message: String },
    /// A text could not be tokenized.
    TokenizationFailed(String),
    /// The request could not be built.
    RequestBuild(async_openai::error::OpenAIError),
    /// The API could not be reached, or answered with an error.
    ApiError(async_openai::error::OpenAIError),
    /// The input is invalid.
    InvalidInput(String),
    /// The splitter refused its settings.
    ChunkConfigError(text_splitter::ChunkConfigError),
}

/// Errors of the database.
#[non_exhaustive]
#[derive(Debug)]
pub enum DatabaseError {
    /// The engine reported an error.
    LibSql(libsql::Error),
    /// A document could not be stored.
    InsertFailed(String),
    /// A query failed.
    QueryFailed(String),
    /// The schema could not be set up.
    SchemaSetup(String),
}

/// Errors in processing and serializing data.
#[non_exhaustive]
#[derive(Debug)]
pub enum ProcessingError {
    /// JSON could not be read or written.
    Json(serde_json::Error),
    /// Data that is needed is missing or malformed.
    MissingData(String),
    /// Input or output failed.
    Io(std::io::Error),
}

/// The result of an operation of the library.
pub type Result<T> = core::result::Result<T, CapsaError>;

/// The text that `libsql::Error` displays for the database engine's error. The contract claims
/// nothing of it: the text may differ from one call to the next.
#[verifier::external_body]
fn libsql_text(err: &libsql::Error) -> (res: String) {
    err.to_string()
}

/// The text that `serde_json::Error` displays for a JSON error. The contract claims nothing of it:
/// the text may differ from one call to the next.
#[verifier::external_body]
fn json_text(err: &serde_json::Error) -> (res: String) {
    err.to_string()
}

/// The text that `std::io::Error` displays for an I/O error. The contract claims nothing of it: the
/// text may differ from one call to the next.
#[verifier::external_body]
fn io_text(err: &std::io::Error) -> (res: String) {
    err.to_string()
}

/// The text that `async_openai::error::OpenAIError` displays for an API error. The contract claims
/// nothing of it: the text may differ from one call to the next.
#[verifier::external_body]
fn openai_text(err: &async_openai::error::OpenAIError) -> (res: String) {
    err.to_string()
}

/// The text that `text_splitter::ChunkConfigError` displays. The claim is that it is this one:
/// there is one kind of such an error.
#[verifier::external_body]
fn chunk_config_text(err: &text_splitter::ChunkConfigError) -> (res: String)
    ensures
        res@ == overlap_text(),
{
    err.to_string()
}

/// What the splitter says of settings that it refuses.
pub open spec fn overlap_text() -> Seq<char> {
    "The overlap is larger than or equal to the desired chunk capacity"@
}

/// Whether `text` is one that the error of the database engine displays when it is asked.
pub closed spec fn libsql_displays(err: libsql::Error, text: Seq<char>) -> bool {
    exists|s: String| #[trigger] call_ensures(libsql_text, (&err,), s) && s@ == text
}

/// Whether `text` is one that the JSON error displays when it is asked.
pub closed spec fn json_displays(err: serde_json::Error, text: Seq<char>) -> bool {
    exists|s: String| #[trigger] call_ensures(json_text, (&err,), s) && s@ == text
}

/// Whether `text` is one that the I/O error displays when it is asked.
pub closed spec fn io_displays(err: std::io::Error, text: Seq<char>) -> bool {
    exists|s: String| #[trigger] call_ensures(io_text, (&err,), s) && s@ == text
}

/// Whether `text` is one that the API error displays when it is asked.
pub closed spec fn openai_displays(err: async_openai::error::OpenAIError, text: Seq<char>) -> bool {
    exists|s: String| #[trigger] call_ensures(openai_text, (&err,), s) && s@ == text
}

/// `prefix` followed by `rest`.
fn joined(prefix: &str, rest: &str) -> (res: String)
    ensures
        res@ == prefix@ + rest@,
{
    let mut res = prefix.to_owned();
    res.append(rest);
    res
}

impl EmbeddingError {
    /// Whether `text` is what the error displays. Where the error holds one of another crate, the
    /// text ends in what that one displays when it is asked.
    pub open spec fn displays(&self, text: Seq<char>) -> bool {
        match self {
            EmbeddingError::NoEmbeddingReturned => text == "No embedding returned from API"@,
            EmbeddingError::TokenizerLoad { model, message } => text
                == "Failed to load tokenizer '"@ + model@ + "': "@ + message@,
            EmbeddingError::TokenizationFailed(s) => text == "Failed to tokenize text: "@ + s@,
            EmbeddingError::RequestBuild(e) => exists|tail: Seq<char>| #[trigger]
                openai_displays(*e, tail) && text == "Failed to build embedding request: "@ + tail,
            EmbeddingError::ApiError(e) => exists|tail: Seq<char>| #[trigger]
                openai_displays(*e, tail) && text == "Embedding API error: "@ + tail,
            EmbeddingError::InvalidInput(s) => text == "Invalid input: "@ + s@,
            EmbeddingError::ChunkConfigError(_) => text == "Failed to configure text chunking: "@
                + overlap_text(),
        }
    }

    /// The text that the error displays.
    pub fn message(&self) -> (res: String)
        ensures
            self.displays(res@),
    {
        match self {
            EmbeddingError::NoEmbeddingReturned => "No embedding returned from API".to_owned(),
            EmbeddingError::TokenizerLoad { model, message } => {
                let mut res = joined("Failed to load tokenizer '", model.as_str());
                res.append("': ");
                res.append(message.as_str());
                res
            },
            EmbeddingError::TokenizationFailed(s) => joined("Failed to tokenize text: ", s.as_str()),
            EmbeddingError::RequestBuild(e) => {
                let tail = openai_text(e);
                assert(openai_displays(*e, tail@));
                joined("Failed to build embedding request: ", tail.as_str())
            },
            EmbeddingError::ApiError(e) => {
                let tail = openai_text(e);
                assert(openai_displays(*e, tail@));
                joined("Embedding API error: ", tail.as_str())
            },
            EmbeddingError::InvalidInput(s) => joined("Invalid input: ", s.as_str()),
            EmbeddingError::ChunkConfigError(e) => joined(
                "Failed to configure text chunking: ",
                chunk_config_text(e).as_str(),
            ),
        }
    }
}

impl DatabaseError {
    /// Whether `text` is what the error displays.
    pub open spec fn displays(&self, text: Seq<char>) -> bool {
        match self {
            DatabaseError::LibSql(e) => exists|tail: Seq<char>| #[trigger]
                libsql_displays(*e, tail) && text == "Database operation failed: "@ + tail,
            DatabaseError::InsertFailed(s) => text == "Failed to insert document: "@ + s@,
            DatabaseError::QueryFailed(s) => text == "Failed to query database: "@ + s@,
            DatabaseError::SchemaSetup(s) => text == "Failed to setup database schema: "@ + s@,
        }
    }

    /// The text that the error displays.
    pub fn message(&self) -> (res: String)
        ensures
            self.displays(res@),
    {
        match self {
            DatabaseError::LibSql(e) => {
                let tail = libsql_text(e);
                assert(libsql_displays(*e, tail@));
                joined("Database operation failed: ", tail.as_str())
            },
            DatabaseError::InsertFailed(s) => joined("Failed to insert document: ", s.as_str()),
            DatabaseError::QueryFailed(s) => joined("Failed to query database: ", s.as_str()),
            DatabaseError::SchemaSetup(s) => joined("Failed to setup database schema: ", s.as_str()),
        }
    }
}

impl ProcessingError {
    /// Whether `text` is what the error displays.
    pub open spec fn displays(&self, text: Seq<char>) -> bool {
        match self {
            ProcessingError::Json(e) => exists|tail: Seq<char>| #[trigger]
                json_displays(*e, tail) && text == "JSON processing error: "@ + tail,
            ProcessingError::MissingData(s) => text == "Missing required data: "@ + s@,
            ProcessingError::Io(e) => exists|tail: Seq<char>| #[trigger]
                io_displays(*e, tail) && text == "I/O error: "@ + tail,
        }
    }

    /// The text that the error displays.
    pub fn message(&self) -> (res: String)
        ensures
            self.displays(res@),
    {
        match self {
            ProcessingError::Json(e) => {
                let tail = json_text(e);
                assert(json_displays(*e, tail@));
                joined("JSON processing error: ", tail.as_str())
            },
            ProcessingError::MissingData(s) => joined("Missing required data: ", s.as_str()),
            ProcessingError::Io(e) => {
                let tail = io_text(e);
                assert(io_displays(*e, tail@));
                joined("I/O error: ", tail.as_str())
            },
        }
    }
}

impl CapsaError {
    /// Whether `text` is what the error displays: its source, then the error itself.
    pub open spec fn displays(&self, text: Seq<char>) -> bool {
        match self {
            CapsaError::Embedding(e) => exists|inner: Seq<char>| #[trigger]
                e.displays(inner) && text == "Embedding error: "@ + inner,
            CapsaError::Database(e) => exists|inner: Seq<char>| #[trigger]
                e.displays(inner) && text == "Database error: "@ + inner,
            CapsaError::Processing(e) => exists|inner: Seq<char>| #[trigger]
                e.displays(inner) && text == "Processing error: "@ + inner,
        }
    }

    /// The text that the error displays.
    pub fn message(&self) -> (res: String)
        ensures
            self.displays(res@),
    {
        match self {
            CapsaError::Embedding(e) => {
                let inner = e.message();
                assert(e.displays(inner@));
                joined("Embedding error: ", inner.as_str())
            },
            CapsaError::Database(e) => {
                let inner = e.message();
                assert(e.displays(inner@));
                joined("Database error: ", inner.as_str())
            },
            CapsaError::Processing(e) => {
                let inner = e.message();
                assert(e.displays(inner@));
                joined("Processing error: ", inner.as_str())
            },
        }
    }
}

impl From<EmbeddingError> for CapsaError {
    fn from(err: EmbeddingError) -> (res: Self) {
        CapsaError::Embedding(err)
    }
}

impl vstd::std_specs::convert::FromSpecImpl<EmbeddingError> for CapsaError {
    open spec fn obeys_from_spec() -> bool {
        true
    }

    open spec fn from_spec(err: EmbeddingError) -> Self {
        CapsaError::Embedding(err)
    }
}

impl From<DatabaseError> for CapsaError {
    fn from(err: DatabaseError) -> (res: Self) {
        CapsaError::Database(err)
    }
}

impl vstd::std_specs::convert::FromSpecImpl<DatabaseError> for CapsaError {
    open spec fn obeys_from_spec() -> bool {
        true
    }

    open spec fn from_spec(err: DatabaseError) -> Self {
        CapsaError::Database(err)
    }
}

impl From<ProcessingError> for CapsaError {
    fn from(err: ProcessingError) -> (res: Self) {
        CapsaError::Processing(err)
    }
}

impl vstd::std_specs::convert::FromSpecImpl<ProcessingError> for CapsaError {
    open spec fn obeys_from_spec() -> bool {
        true
    }

    open spec fn from_spec(err: ProcessingError) -> Self {
        CapsaError::Processing(err)
    }
}

impl From<text_splitter::ChunkConfigError> for EmbeddingError {
    fn from(err: text_splitter::ChunkConfigError) -> (res: Self) {
        EmbeddingError::ChunkConfigError(err)
    }
}

impl vstd::std_specs::convert::FromSpecImpl<text_splitter::ChunkConfigError> for EmbeddingError {
    open spec fn obeys_from_spec() -> bool {
        true
    }

    open spec fn from_spec(err: text_splitter::ChunkConfigError) -> Self {
        EmbeddingError::ChunkConfigError(err)
    }
}

impl From<libsql::Error> for DatabaseError {
    fn from(err: libsql::Error) -> (res: Self) {
        DatabaseError::LibSql(err)
    }
}

impl vstd::std_specs::convert::FromSpecImpl<libsql::Error> for DatabaseError {
    open spec fn obeys_from_spec() -> bool {
        true
    }

    open spec fn from_spec(err: libsql::Error) -> Self {
        DatabaseError::LibSql(err)
    }
}

impl From<serde_json::Error> for ProcessingError {
    fn from(err: serde_json::Error) -> (res: Self) {
        ProcessingError::Json(err)
    }
}

impl vstd::std_specs::convert::FromSpecImpl<serde_json::Error> for ProcessingError {
    open spec fn obeys_from_spec() -> bool {
        true
    }

    open spec fn from_spec(err: serde_json::Error) -> Self {
        ProcessingError::Json(err)
    }
}

impl From<std::io::Error> for ProcessingError {
    fn from(err: std::io::Error) -> (res: Self) {
        ProcessingError::Io(err)
    }
}

impl vstd::std_specs::convert::FromSpecImpl<std::io::Error> for ProcessingError {
    open spec fn obeys_from_spec() -> bool {
        true
    }

    open spec fn from_spec(err: std::io::Error) -> Self {
        ProcessingError::Io(err)
    }
}

impl From<libsql::Error> for CapsaError {
    fn from(err: libsql::Error) -> (res: Self) {
        CapsaError::Database(DatabaseError::LibSql(err))
    }
}

impl vstd::std_specs::convert::FromSpecImpl<libsql::Error> for CapsaError {
    open spec fn obeys_from_spec() -> bool {
        true
    }

    open spec fn from_spec(err: libsql::Error) -> Self {
        CapsaError::Database(DatabaseError::LibSql(err))
    }
}

impl From<serde_json::Error> for CapsaError {
    fn from(err: serde_json::Error) -> (res: Self) {
        CapsaError::Processing(ProcessingError::Json(err))
    }
}

impl vstd::std_specs::convert::FromSpecImpl<serde_json::Error> for CapsaError {
    open spec fn obeys_from_spec() -> bool {
        true
    }

    open spec fn from_spec(err: serde_json::Error) -> Self {
        CapsaError::Processing(ProcessingError::Json(err))
    }
}

impl From<text_splitter::ChunkConfigError> for CapsaError {
    fn from(err: text_splitter::ChunkConfigError) -> (res: Self) {
        CapsaError::Embedding(EmbeddingError::ChunkConfigError(err))
    }
}

impl vstd::std_specs::convert::FromSpecImpl<text_splitter::ChunkConfigError> for CapsaError {
    open spec fn obeys_from_spec() -> bool {
        true
    }

    open spec fn from_spec(err: text_splitter::ChunkConfigError) -> Self {
        CapsaError::Embedding(EmbeddingError::ChunkConfigError(err))
    }
}

impl From<async_openai::error::OpenAIError> for CapsaError {
    fn from(err: async_openai::error::OpenAIError) -> (res: Self) {
        CapsaError::Embedding(EmbeddingError::ApiError(err))
    }
}

impl vstd::std_specs::convert::FromSpecImpl<async_openai::error::OpenAIError> for CapsaError {
    open spec fn obeys_from_spec() -> bool {
        true
    }

    open spec fn from_spec(err: async_openai::error::OpenAIError) -> Self {
        CapsaError::Embedding(EmbeddingError::ApiError(err))
    }
}

impl From<std::io::Error> for CapsaError {
    fn from(err: std::io::Error) -> (res: Self) {
        CapsaError::Processing(ProcessingError::Io(err))
    }
}

impl vstd::std_specs::convert::FromSpecImpl<std::io::Error> for CapsaError {
    open spec fn obeys_from_spec() -> bool {
        true
    }

    open spec fn from_spec(err: std::io::Error) -> Self {
        CapsaError::Processing(ProcessingError::Io(err))
    }
}

/// The values of all results, or the first error among them.
pub fn collect_results<T>(results: Vec<Result<T>>) -> (res: Result<Vec<T>>)
    ensures
        match res {
            Ok(values) => values@.len() == results@.len() && forall|i: int|
                0 <= i < results@.len() ==> (#[trigger] results@[i]) == Ok::<T, CapsaError>(
                    values@[i],
                ),
            Err(e) => exists|i: int|
                0 <= i < results@.len() && (#[trigger] results@[i]) == Err::<T, CapsaError>(e)
                    && forall|k: int| 0 <= k < i ==> (#[trigger] results@[k]) is Ok,
        },
{
    let ghost all = results@;
    let mut values: Vec<T> = Vec::new();
    for result in it: results
        invariant
            it.seq() == all,
            values@.len() == it.index(),
            forall|i: int|
                0 <= i < it.index() ==> (#[trigger] all[i]) == Ok::<T, CapsaError>(values@[i]),
    {
        match result {
            Ok(value) => {
                values.push(value);
            },
            Err(e) => {
                assert(all[it.index()] == Err::<T, CapsaError>(e));
                return Err(e);
            },
        }
    }
    Ok(values)
}

/// An error names its source first. What it was given stands at the end.
pub proof fn law_error_texts(
    text: String,
    insert: String,
    query: String,
    schema: String,
    missing: String,
    input: String,
)
    requires
        call_ensures(
            CapsaError::message,
            (&CapsaError::Database(DatabaseError::InsertFailed(text)),),
            insert,
        ),
        call_ensures(
            CapsaError::message,
            (&CapsaError::Database(DatabaseError::QueryFailed(text)),),
            query,
        ),
        call_ensures(
            CapsaError::message,
            (&CapsaError::Database(DatabaseError::SchemaSetup(text)),),
            schema,
        ),
        call_ensures(
            CapsaError::message,
            (&CapsaError::Processing(ProcessingError::MissingData(text)),),
            missing,
        ),
        call_ensures(
            CapsaError::message,
            (&CapsaError::Embedding(EmbeddingError::InvalidInput(text)),),
            input,
        ),
    ensures
        insert@ == "Database error: "@ + ("Failed to insert document: "@ + text@),
        query@ == "Database error: "@ + ("Failed to query database: "@ + text@),
        schema@ == "Database error: "@ + ("Failed to setup database schema: "@ + text@),
        missing@ == "Processing error: "@ + ("Missing required data: "@ + text@),
        input@ == "Embedding error: "@ + ("Invalid input: "@ + text@),
{
}

/// An error of the embedding says what was wrong: nothing returned, a tokenizer that cannot be
/// loaded, or a text that cannot be split into tokens.
pub proof fn law_embedding_error_texts(
    model: String,
    text: String,
    empty: String,
    load: String,
    tokens: String,
)
    requires
        call_ensures(EmbeddingError::message, (&EmbeddingError::NoEmbeddingReturned,), empty),
        call_ensures(
            EmbeddingError::message,
            (&EmbeddingError::TokenizerLoad { model, message: text },),
            load,
        ),
        call_ensures(
            EmbeddingError::message,
            (&EmbeddingError::TokenizationFailed(text),),
            tokens,
        ),
    ensures
        empty@ == "No embedding returned from API"@,
        load@ == "Failed to load tokenizer '"@ + model@ + "': "@ + text@,
        tokens@ == "Failed to tokenize text: "@ + text@,
{
}

/// Results are collected where none of them is an error, in their order. Otherwise the first error
/// is passed on.
pub proof fn law_collected<T>(results: Vec<Result<T>>, res: Result<Vec<T>>, i: int)
    requires
        call_ensures(collect_results::<T>, (results,), res),
        0 <= i < results@.len(),
    ensures
        res matches Ok(values) ==> values@.len() == results@.len() && results@[i] == Ok::<
            T,
            CapsaError,
        >(values@[i]),
        (forall|k: int| 0 <= k < results@.len() ==> (#[trigger] results@[k]) is Ok) ==> res is Ok,
        results@[i] is Err && (forall|k: int| 0 <= k < i ==> (#[trigger] results@[k]) is Ok)
            ==> res == Err::<Vec<T>, CapsaError>(results@[i]->Err_0),
{
    if res is Err && results@[i] is Err && (forall|k: int|
        0 <= k < i ==> (#[trigger] results@[k]) is Ok) {
        let e = res->Err_0;
        let at = choose|at: int|
            0 <= at < results@.len() && (#[trigger] results@[at]) == Err::<T, CapsaError>(e)
                && forall|k: int| 0 <= k < at ==> (#[trigger] results@[k]) is Ok;
        if at < i {
            assert(results@[at] is Ok);
        } else if i < at {
            assert(results@[i] is Ok);
        }
    }
    if res is Ok {
        assert(results@[i] == Ok::<T, CapsaError>(res->Ok_0@[i]));
    }
}

/// An error of another crate is taken for one of the part of the work that it comes from.
pub proof fn law_conversions(
    database: libsql::Error,
    json: serde_json::Error,
    io: std::io::Error,
    from_database: CapsaError,
    from_json: CapsaError,
    from_io: CapsaError,
)
    requires
        call_ensures(<CapsaError as From<libsql::Error>>::from, (database,), from_database),
        call_ensures(<CapsaError as From<serde_json::Error>>::from, (json,), from_json),
        call_ensures(<CapsaError as From<std::io::Error>>::from, (io,), from_io),
    ensures
        from_database == CapsaError::Database(DatabaseError::LibSql(database)),
        from_json == CapsaError::Processing(ProcessingError::Json(json)),
        from_io == CapsaError::Processing(ProcessingError::Io(io)),
{
}

/// An error of another crate is shown behind what failed.
pub proof fn law_outside_error_texts(
    database: libsql::Error,
    json: serde_json::Error,
    io: std::io::Error,
    from_database: String,
    from_json: String,
    from_io: String,
)
    requires
        call_ensures(DatabaseError::message, (&DatabaseError::LibSql(database),), from_database),
        call_ensures(ProcessingError::message, (&ProcessingError::Json(json),), from_json),
        call_ensures(ProcessingError::message, (&ProcessingError::Io(io),), from_io),
    ensures
        exists|tail: Seq<char>|
            from_database@ == #[trigger] ("Database operation failed: "@ + tail),
        exists|tail: Seq<char>| from_json@ == #[trigger] ("JSON processing error: "@ + tail),
        exists|tail: Seq<char>| from_io@ == #[trigger] ("I/O error: "@ + tail),
{
}

} // verus!
