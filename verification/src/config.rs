//! The configuration value object for one split run, and the entry
//! points that start a run from it.

use vstd::prelude::*;

use crate::durability::FileSyncType;
use crate::naming::HexNamer;
use crate::naming::IndexNamer;
use crate::splitter::Splitter;

verus! {

/// The default maximum number of records per chunk file.
pub const MAX_LINE_COUNT_PER_FILE_DEFAULT: usize = 1024;

/// The default progress-reporting flag.
pub const SHOW_PROGRESS_DEFAULT: bool = false;

/// The default durability policy.
pub const FILE_SYNC_TYPE_DEFAULT: FileSyncType = FileSyncType::Nop;

/// The configuration of one split run, immutable for its duration: the
/// output directory, the chunk capacity, the durability policy and the
/// progress-reporting flag.
pub struct Config {
    pub output_dir_name: String,
    pub max_line_per_file: usize,
    pub file_sync_type: FileSyncType,
    pub show_progress: bool,
}

impl Default for Config {
    fn default() -> (r: Self)
        ensures
            r.output_dir_name@ == Seq::<char>::empty(),
            r.max_line_per_file == MAX_LINE_COUNT_PER_FILE_DEFAULT,
            r.file_sync_type == FILE_SYNC_TYPE_DEFAULT,
            r.show_progress == SHOW_PROGRESS_DEFAULT,
    {
        Config {
            output_dir_name: String::new(),
            max_line_per_file: MAX_LINE_COUNT_PER_FILE_DEFAULT,
            file_sync_type: FILE_SYNC_TYPE_DEFAULT,
            show_progress: SHOW_PROGRESS_DEFAULT,
        }
    }
}

impl Config {
    /// Starts a split run under this configuration with the given naming
    /// policy.  The run begins with no file committed and the file at
    /// index 0 empty; the caller drives it by feeding source events to
    /// [`Splitter::step`] and performing the returned file-system
    /// actions.
    pub fn split<N: IndexNamer>(&self, namer: N) -> (r: Splitter<N>)
        requires
            self.max_line_per_file >= 1,
        ensures
            r.inv(),
            r.running(),
            r.cap() == self.max_line_per_file,
            r.naming() == namer,
            r.files() == Seq::<Seq<Seq<u8>>>::empty(),
            r.cur() == Seq::<Seq<u8>>::empty(),
            r.idx() == 0,
    {
        Splitter::new(namer, self.max_line_per_file)
    }

    /// Starts a split run with the default naming policy: the chunk
    /// index as eight-digit zero-padded lowercase hexadecimal, followed
    /// by `.txt`.
    pub fn split_default(&self) -> (r: Splitter<HexNamer>)
        requires
            self.max_line_per_file >= 1,
        ensures
            r.inv(),
            r.running(),
            r.cap() == self.max_line_per_file,
            r.naming() == HexNamer,
            r.files() == Seq::<Seq<Seq<u8>>>::empty(),
            r.cur() == Seq::<Seq<u8>>::empty(),
            r.idx() == 0,
    {
        self.split(HexNamer)
    }
}

} // verus!
