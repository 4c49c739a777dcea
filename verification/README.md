# Capsa

Document management with embeddings: documents are split into chunks, embedded, stored in a vector
database and found again by similarity. The logic is a library verified with
[Verus](https://github.com/verus-lang/verus); the program around it does the input and output.

## Layout

- `src/` is the library. Its functions carry contracts that Verus proves; those of the few functions
  that call other crates are believed (see below).
  - `text`, `paths`: strings and paths as sequences of characters.
  - `error`: the errors, and the texts that they display.
  - `sql`: statements and the values bound to them.
  - `queue`: the ingestion queue; `queue_model`: what its statements do to the tables, and what
    they keep; `queue_history`: what it answers, and what holds over every series of changes.
  - `pipeline`: the three stages that chunk, embed and write documents.
  - `embeddings`, `codec`: the encodings of embeddings, texts and chunks.
  - `vectordb`, `documentdb`: storage, search, and the check of dimension and model; `storing`: a
    document and its chunks, all or nothing; `table_names`: which tables the statements name.
  - `embedder`: requests for embeddings; `config`, `executor`: settings.
  - `metadata`, `pdf`, `pptx`, `youtube`: documents and their metadata.
  - `report`: what the commands print.
- `app/` is the program: command line, databases, threads, network and files. It executes the
  statements that the library states and hands it the rows.
- `tests/` runs the library, with an in-memory database where one is needed.

## What is trusted

Calls into other crates stand behind small functions whose contracts are believed: LZ4 frames
(`lz4_flex`), JSON (`serde_json`), XML events (`quick-xml`), the cache of fetched documents (`lru`),
the parallel map (`rayon`) and the texts of outside errors. Each says in its doc comment what it
claims.

## Configuration

- `--base-url <url>`: embedding service (default `http://localhost:9000/v1`)
- `--model <name>`: embedding model (default `nomic-ai/nomic-embed-text-v1.5`)
- `--db-path <path>`: vector database (default `./documents.db`); the queue lies beside it
- `EMB_API_KEY`: API key of the embedding service, where one is needed

The embedding context is 128 tokens.

## Commands

- `capsa pdf <path> [--metadata-json <file>]`
- `capsa pptx <path> [--metadata-json <file>]`
- `capsa yt [--lang <code>] <id or URL>`
- `capsa ask [-d] [-k <number>] <query>`
- `capsa serve [--bind <address>] [--rw]`
- `capsa status`
- `capsa retry`
