//! Two services around a block explorer.
//!
//! The operation indexer cuts time into intervals, claims them in a database, fetches the
//! operations of each and then the stages of each operation, and retries what fails. Every
//! decision is taken here; what touches the database, the network or a clock is asked for as an
//! effect and answered from outside. The multichain aggregator has its settings here.
pub mod active_value;
pub mod casts;
pub mod claims;
pub mod database_settings;
pub mod fetch;
pub mod indexer;
pub mod interval;
pub mod job;
pub mod operation;
pub mod plan;
pub mod process;
pub mod profiling;
pub mod reply;
pub mod request;
pub mod retry;
pub mod run;
pub mod save;
pub mod server_settings;
pub mod settings;
pub mod statement;
pub mod status;
pub mod stream;
pub mod watermark;

pub use crate::indexer::{Indexer, IndexerSettings};
pub use crate::job::{IndexerJob, Job, OperationJob, OrderDirection};
