//! Text-to-memory ingestion: a document is split into sentence chunks by a
//! chunking service, each chunk is tagged and written as a record, and the
//! records are inserted into a memory store one after another.
//!
//! The library holds the rules of that pipeline and proves them. The calls to
//! the two services are made by the caller: it performs each action that an
//! [`ingest::Ingestion`] asks for and reports what came of it.
//!
//! - [`json_text`]: JSON string literals, and why they can be read back.
//! - [`payload`]: the record stored for one chunk.
//! - [`chunk`]: a sentence with its embedding.
//! - [`error`]: the failures and what they say.
//! - [`store_id`]: the address of a memory store.
//! - [`chunking`]: the request to the chunking service and its answer's status.
//! - [`ingest`]: the ingestion as a machine of states, events and actions.
//! - [`trace`]: whole runs of the machine.
//! - [`guarantees`]: what holds of every run.
//! - [`seq_filter`]: facts about filtering a sequence.

pub mod json_text;
pub mod payload;
pub mod chunk;
pub mod error;
pub mod store_id;
pub mod chunking;
pub mod ingest;
pub mod trace;
pub mod guarantees;
pub mod seq_filter;
