//! The chunk-write state machine.
//!
//! The splitter decides, one source event at a time, what the caller must
//! do to the file system: append a line to the open chunk file, commit it
//! (flush, apply the durability policy, close) and open the next one,
//! delete the final empty file and finish, or abort on a read error.  The
//! caller performs the I/O; the machine carries the mathematical model of
//! the run — which records every committed file holds — and guarantees
//! the chunk invariants over it.

use vstd::prelude::*;

use crate::chunks::feed_end;
use crate::chunks::feed_record;
use crate::chunks::record_line;
use crate::naming::IndexNamer;

verus! {

/// One item pulled from the record source: a record, the end of the
/// source, or a read failure.
pub enum Event {
    Record(Vec<u8>),
    End,
    ReadError,
}

/// What the caller must do to the file system next.
///
/// After `Write` the caller keeps pulling for the same file.  After
/// `WriteCommit` and `Commit` the caller flushes the open file, applies
/// the durability policy, closes it, creates the file named by
/// [`Splitter::current_basename`], and keeps pulling.  `Finish` ends a
/// successful run: the open file holds no record and is deleted.  `Fail`
/// aborts the run: the open file is left exactly as written so far.
pub enum Action {
    Write(Vec<u8>),
    WriteCommit(Vec<u8>),
    Commit,
    Finish,
    Fail,
}

/// The splitter: drives one run of the chunk-write loop.
///
/// At every point `files()` is the model of the committed chunk files,
/// in index order, and `cur()` the records written to the open file.
pub struct Splitter<N: IndexNamer> {
    namer: N,
    capacity: usize,
    index: usize,
    wrote_cnt: usize,
    done: bool,
    committed: Ghost<Seq<Seq<Seq<u8>>>>,
    pending: Ghost<Seq<Seq<u8>>>,
}

impl<N: IndexNamer> Splitter<N> {
    /// The records of each committed chunk file, in index order.
    pub closed spec fn files(self) -> Seq<Seq<Seq<u8>>> {
        self.committed@
    }

    /// The records written to the currently open chunk file.
    pub closed spec fn cur(self) -> Seq<Seq<u8>> {
        self.pending@
    }

    /// The chunk capacity of this run.
    pub closed spec fn cap(self) -> nat {
        self.capacity as nat
    }

    /// The index of the currently open chunk file.
    pub closed spec fn idx(self) -> nat {
        self.index as nat
    }

    /// The naming policy of this run.
    pub closed spec fn naming(self) -> N {
        self.namer
    }

    /// Whether the run still accepts events.
    pub closed spec fn running(self) -> bool {
        !self.done
    }

    /// The per-file write counter.
    pub closed spec fn fill(self) -> nat {
        self.wrote_cnt as nat
    }

    /// The invariant of a run.  Indices are contiguous from zero with no
    /// gaps — the open file's index always equals the number of files
    /// committed before it — and no committed file is empty or holds
    /// more than the capacity.
    pub open spec fn inv(self) -> bool {
        &&& self.cap() >= 1
        &&& self.idx() == self.files().len()
        &&& self.fill() == self.cur().len()
        &&& self.cur().len() < self.cap()
        &&& forall|i: int|
            0 <= i < self.files().len() ==> 1 <= (#[trigger] self.files()[i]).len() <= self.cap()
    }

    /// Starts a run: no file committed yet, the open file (index 0) still
    /// empty.
    pub(crate) fn new(namer: N, capacity: usize) -> (r: Splitter<N>)
        requires
            capacity >= 1,
        ensures
            r.inv(),
            r.running(),
            r.cap() == capacity,
            r.naming() == namer,
            r.files() == Seq::<Seq<Seq<u8>>>::empty(),
            r.cur() == Seq::<Seq<u8>>::empty(),
            r.idx() == 0,
    {
        Splitter {
            namer,
            capacity,
            index: 0,
            wrote_cnt: 0,
            done: false,
            committed: Ghost(Seq::empty()),
            pending: Ghost(Seq::empty()),
        }
    }

    /// Writes the name of the currently open chunk file into `basename`,
    /// replacing its previous contents.
    pub fn current_basename(&self, basename: &mut String)
        ensures
            final(basename)@ == self.naming().name_spec(self.idx()),
    {
        self.namer.index_to_basename(self.index, basename);
    }

    /// The chunk capacity of this run.
    pub fn capacity(&self) -> (r: usize)
        ensures
            r as nat == self.cap(),
    {
        self.capacity
    }

    /// The number of chunk files committed so far, which is also the
    /// index of the currently open file.
    pub fn committed_count(&self) -> (r: usize)
        requires
            self.inv(),
        ensures
            r as nat == self.files().len(),
            r as nat == self.idx(),
    {
        self.index
    }

    /// The number of records written to the currently open file.
    pub fn current_fill(&self) -> (r: usize)
        requires
            self.inv(),
        ensures
            r as nat == self.cur().len(),
    {
        self.wrote_cnt
    }

    /// Whether the run has ended, by a `Finish` or a `Fail` action.
    pub fn is_done(&self) -> (r: bool)
        ensures
            r == !self.running(),
    {
        self.done
    }

    /// Consumes one source event and decides the next file-system action.
    ///
    /// A record is appended to the open file as its bytes plus one
    /// newline, and commits the file the moment it holds `cap()` records.
    /// The end of the source commits a partially filled file, or finishes
    /// the run by discarding an empty one — so no committed file is ever
    /// empty, and a run over `n` records commits exactly `ceil(n / cap())`
    /// files.  A read error aborts the run at once, leaving every
    /// committed file and the partially written open file as they are.
    pub fn step(&mut self, ev: Event) -> (a: Action)
        requires
            old(self).inv(),
            old(self).running(),
            old(self).idx() < usize::MAX as nat,
        ensures
            final(self).inv(),
            final(self).cap() == old(self).cap(),
            final(self).naming() == old(self).naming(),
            (match ev {
                Event::Record(rec) => {
                    &&& final(self).running()
                    &&& final(self).files() == feed_record(
                        old(self).files(),
                        old(self).cur(),
                        rec@,
                        old(self).cap(),
                    ).0
                    &&& final(self).cur() == feed_record(
                        old(self).files(),
                        old(self).cur(),
                        rec@,
                        old(self).cap(),
                    ).1
                    &&& (if old(self).cur().len() + 1 < old(self).cap() {
                        a matches Action::Write(line) && line@ == record_line(rec@)
                    } else {
                        a matches Action::WriteCommit(line) && line@ == record_line(rec@)
                    })
                }
                Event::End => {
                    &&& final(self).files() == feed_end(old(self).files(), old(self).cur())
                    &&& final(self).cur() == Seq::<Seq<u8>>::empty()
                    &&& (old(self).cur().len() == 0 ==> a == Action::Finish
                        && !final(self).running())
                    &&& (old(self).cur().len() > 0 ==> a == Action::Commit && final(self).running())
                }
                Event::ReadError => {
                    &&& a == Action::Fail
                    &&& !final(self).running()
                    &&& final(self).files() == old(self).files()
                    &&& final(self).cur() == old(self).cur()
                }
            }),
    {
        match ev {
            Event::Record(rec) => {
                let ghost r = rec@;
                let mut line = rec;
                line.push(10u8);
                self.wrote_cnt = self.wrote_cnt + 1;
                if self.wrote_cnt < self.capacity {
                    self.pending = Ghost(self.pending@.push(r));
                    Action::Write(line)
                } else {
                    self.committed = Ghost(self.committed@.push(self.pending@.push(r)));
                    self.pending = Ghost(Seq::empty());
                    self.wrote_cnt = 0;
                    self.index = self.index + 1;
                    Action::WriteCommit(line)
                }
            }
            Event::End => {
                if self.wrote_cnt == 0 {
                    self.done = true;
                    Action::Finish
                } else {
                    self.committed = Ghost(self.committed@.push(self.pending@));
                    self.pending = Ghost(Seq::empty());
                    self.wrote_cnt = 0;
                    self.index = self.index + 1;
                    Action::Commit
                }
            }
            Event::ReadError => {
                self.done = true;
                Action::Fail
            }
        }
    }
}

} // verus!
