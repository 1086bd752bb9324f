//! The logic of a QuestDB sink: how messages become rows, what becomes of a batch that
//! fails, and how a sink is configured.

pub mod array;
pub mod batch;
pub mod batch_laws;
pub mod client;
pub mod columns;
pub mod config_laws;
pub mod consume;
pub mod flush;
pub mod json;
pub mod laws;
pub mod mapping;
pub mod message;
pub mod preview;
pub mod row;
pub mod row_laws;
pub mod sink;
pub mod span;
pub mod text;
pub mod timestamp;
pub mod uuid;
pub mod value_laws;

pub use mapping::Mapping;
pub use message::RowContext;
pub use row::RowError;
pub use sink::{QuestDbSink, QuestDbSinkConfig};
pub use timestamp::{TimestampSource, TimestampUnit};
