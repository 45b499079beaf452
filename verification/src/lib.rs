//! A persistent key-value store and the protocol of its network service.
//!
//! The store is log-structured. Its data file is a header followed by
//! records, each a framed document: a `SET` gives a key a value, a `DELETE`
//! takes it away. An index in memory says for each live key where its
//! latest `SET` record starts. Once the data file reaches a threshold the
//! log is compacted: rewritten with one record for each live key. An index
//! file saves a replay of the data file at the next open, where the last
//! session was closed; after a crash the data file is replayed.
//!
//! The library works on images. [`store::KvStore`] holds the bytes of the
//! data file and is opened on, and closed into, the bytes of both files;
//! [`server::KvsServer`] takes the bytes of a request and hands out the
//! bytes of the reply. Reading and writing files and sockets is left to the
//! program around the library, which keeps the files in step with the
//! images.
//!
//! Every function here is verified against its contract. Documents are
//! written and read by the `bson` crate: the two calls into it are the
//! trusted part of [`codec`], and a record is only appended once it has
//! been read back from its bytes.
//!
//! - [`codec`]: frames and documents.
//! - [`records`]: the header, the data records and the index records.
//! - [`index`]: the index in memory.
//! - [`log`]: what a file of records means, and the facts about it.
//! - [`store`]: the store.
//! - [`laws`]: what holds over several operations of the store.
//! - [`engine`]: what a server asks of a storage engine.
//! - [`protocol`], [`server`], [`client`]: requests and replies, and both
//!   ends of an exchange.
//! - [`errors`], [`text`]: errors and helpers on strings.

pub mod errors;
pub mod codec;
pub mod text;
pub mod records;
pub mod index;
pub mod log;
pub mod store;
pub mod protocol;
pub mod engine;
pub mod server;
pub mod client;
pub mod laws;

pub use crate::engine::{EngineKind, KvsEngine, StoreFiles};
pub use crate::errors::KvsError;
pub use crate::protocol::{KvsCmdRequest, KvsServerReply, KvsServerReplyStatus};
pub use crate::server::KvsServer;
pub use crate::store::KvStore;
