//! Splits a stream of newline-delimited byte records into a sequence of
//! bounded-size chunk files, each named by a zero-padded sequential index.
//!
//! The library holds the verified core: the naming scheme, the durability
//! policy selection, the configuration value object, and the chunk-write
//! state machine that decides, record by record, what the caller must do
//! to the file system.  The caller performs the actual file I/O and feeds
//! the machine one source event at a time.

pub mod chunks;
pub mod config;
pub mod durability;
pub mod naming;
pub mod splitter;

pub use config::Config;
pub use config::FILE_SYNC_TYPE_DEFAULT;
pub use config::MAX_LINE_COUNT_PER_FILE_DEFAULT;
pub use config::SHOW_PROGRESS_DEFAULT;
pub use durability::FileSyncType;
pub use durability::UnknownSyncTypeError;
pub use naming::index2basename;
pub use naming::HexNamer;
pub use naming::IndexNamer;
pub use splitter::Action;
pub use splitter::Event;
pub use splitter::Splitter;
