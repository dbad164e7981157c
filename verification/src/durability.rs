//! The durability policy applied to each chunk file before it counts as
//! committed, and the parser that selects one from a configuration string.

use vstd::prelude::*;
use vstd::string::StringExecFns;

verus! {

/// How far a committed chunk file is forced to stable storage:
/// no extra call, file content only, or content and metadata.
#[derive(Clone, Copy, PartialEq, Eq, Structural, Debug)]
pub enum FileSyncType {
    Nop,
    Data,
    All,
}

/// The error for a durability-mode string that is none of the three
/// recognized values.
#[derive(Clone, Copy, PartialEq, Eq, Structural, Debug)]
pub struct UnknownSyncTypeError;

impl FileSyncType {
    /// Selects the durability policy named by `s`: exactly `nop`, `data`
    /// and `all` are recognized; every other string is a configuration
    /// error, raised before any file I/O can begin.
    pub fn from_str(s: &str) -> (r: Result<FileSyncType, UnknownSyncTypeError>)
        ensures
            r == (if s@ == "nop"@ {
                Ok::<FileSyncType, UnknownSyncTypeError>(FileSyncType::Nop)
            } else if s@ == "data"@ {
                Ok::<FileSyncType, UnknownSyncTypeError>(FileSyncType::Data)
            } else if s@ == "all"@ {
                Ok::<FileSyncType, UnknownSyncTypeError>(FileSyncType::All)
            } else {
                Err::<FileSyncType, UnknownSyncTypeError>(UnknownSyncTypeError)
            }),
    {
        let t: String = s.to_owned();
        if t == String::from_str("nop") {
            Ok(FileSyncType::Nop)
        } else if t == String::from_str("data") {
            Ok(FileSyncType::Data)
        } else if t == String::from_str("all") {
            Ok(FileSyncType::All)
        } else {
            Err(UnknownSyncTypeError)
        }
    }
}

} // verus!
