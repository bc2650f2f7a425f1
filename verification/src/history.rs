//! Bounded command history, newest-first in memory, mirrored by a plain-text
//! file whose physical order is oldest-first. Saving a command when the log
//! has reached the limit first drops a fixed number of the oldest entries and
//! asks the caller to rewrite the file with the retained entries; every save
//! then appends the new line to the file. The caller performs the file I/O
//! that a returned [`FileUpdate`] describes.
//!
//! Failure policy: a failed file write is the caller's to report as a
//! recoverable error rather than a fatal one. The in-memory log is updated
//! before the caller touches the file, so after such a failure it can run
//! ahead of the file until the next successful rewrite.

use vstd::prelude::*;
use vstd::string::StringExecFns;
use crate::text::views;

verus! {

/// Most entries the in-memory log may hold.
pub const HISTORY_LIMIT: usize = 1000;

/// How many of the oldest entries a trim removes (three quarters of the
/// limit, rounded).
pub const TRIM_COUNT: usize = 750;

/// The in-memory history log: entries newest-first.
pub struct HistoryLog {
    entries: Vec<String>,
}

/// What the caller must do to the history file after a save: either only
/// append the new line, or first rewrite the whole file so that it holds
/// exactly `retained` (oldest-first) and then append the new line.
pub enum FileUpdate {
    Append,
    RewriteThenAppend { retained: Vec<String> },
}

/// The log after saving `line`: the new line becomes the newest entry; if the
/// log had reached the limit, the oldest `TRIM_COUNT` entries are dropped
/// first.
pub open spec fn spec_save(log: Seq<Seq<char>>, line: Seq<char>) -> Seq<Seq<char>> {
    if log.len() >= HISTORY_LIMIT {
        seq![line] + log.subrange(0, log.len() - TRIM_COUNT)
    } else {
        seq![line] + log
    }
}

/// The file contents (oldest-first) after a save, given the log and file
/// contents before it.
pub open spec fn spec_file_after_save(
    log: Seq<Seq<char>>,
    file: Seq<Seq<char>>,
    line: Seq<char>,
) -> Seq<Seq<char>> {
    if log.len() >= HISTORY_LIMIT {
        log.subrange(0, log.len() - TRIM_COUNT).reverse().push(line)
    } else {
        file.push(line)
    }
}

impl View for HistoryLog {
    type V = Seq<Seq<char>>;

    closed spec fn view(&self) -> Seq<Seq<char>> {
        views(self.entries@)
    }
}

impl HistoryLog {
    /// The log never exceeds its capacity.
    pub open spec fn wf(self) -> bool {
        self@.len() <= HISTORY_LIMIT
    }

    /// An empty log.
    pub fn new() -> (h: HistoryLog)
        ensures
            h@ == Seq::<Seq<char>>::empty(),
            h.wf(),
    {
        let h = HistoryLog { entries: Vec::new() };
        proof {
            assert(h@ =~= Seq::<Seq<char>>::empty());
        }
        h
    }

    /// The log read from the history file's lines, which are oldest-first:
    /// the file's last line becomes the newest (first) entry.
    pub fn load(lines: Vec<String>) -> (h: HistoryLog)
        ensures
            h@ == views(lines@).reverse(),
            lines@.len() <= HISTORY_LIMIT ==> h.wf(),
    {
        let n = lines.len();
        let mut entries: Vec<String> = Vec::new();
        let mut i: usize = 0;
        while i < n
            invariant
                i <= n,
                n == lines@.len(),
                entries@.len() == i,
                forall|j: int| 0 <= j < i ==> entries@[j]@ == lines@[n - 1 - j]@,
            decreases n - i,
        {
            entries.push(lines[n - 1 - i].clone());
            i += 1;
        }
        let h = HistoryLog { entries };
        proof {
            assert(h@ =~= views(lines@).reverse());
        }
        h
    }

    /// How many entries the log holds.
    pub fn len(&self) -> (n: usize)
        ensures
            n == self@.len(),
    {
        self.entries.len()
    }

    /// The entry at `i`, counting from the newest.
    pub fn entry(&self, i: usize) -> (e: &String)
        requires
            i < self@.len(),
        ensures
            e@ == self@[i as int],
    {
        &self.entries[i]
    }

    /// Record a finalized line as the newest entry, trimming first if the log
    /// has reached the limit, and say what the caller must do to the file.
    pub fn save_command(&mut self, line: &str) -> (u: FileUpdate)
        ensures
            final(self)@ == spec_save(old(self)@, line@),
            final(self)@.len() > 0 && final(self)@[0] == line@,
            old(self).wf() ==> final(self).wf(),
            old(self)@.len() == HISTORY_LIMIT ==> final(self)@.len() == HISTORY_LIMIT - TRIM_COUNT
                + 1,
            old(self)@.len() < HISTORY_LIMIT ==> u is Append,
            old(self)@.len() >= HISTORY_LIMIT ==> (u matches FileUpdate::RewriteThenAppend {
                retained,
            } && views(retained@) == old(self)@.subrange(
                0,
                old(self)@.len() - TRIM_COUNT,
            ).reverse()),
    {
        let n = self.entries.len();
        let u: FileUpdate;
        if n >= HISTORY_LIMIT {
            let keep = n - TRIM_COUNT;
            while self.entries.len() > keep
                invariant
                    keep <= self.entries@.len() <= n,
                    n == old(self).entries@.len(),
                    forall|j: int|
                        0 <= j < self.entries@.len() ==> self.entries@[j] == old(
                            self,
                        ).entries@[j],
                decreases self.entries@.len(),
            {
                self.entries.pop();
            }
            let ghost trimmed = self.entries@;
            let mut retained: Vec<String> = Vec::new();
            let m = self.entries.len();
            let mut i: usize = 0;
            while i < m
                invariant
                    i <= m,
                    m == trimmed.len(),
                    self.entries@ == trimmed,
                    retained@.len() == i,
                    forall|j: int| 0 <= j < i ==> retained@[j]@ == trimmed[m - 1 - j]@,
                decreases m - i,
            {
                retained.push(self.entries[m - 1 - i].clone());
                i += 1;
            }
            proof {
                assert(views(retained@) =~= old(self)@.subrange(
                    0,
                    old(self)@.len() - TRIM_COUNT,
                ).reverse());
            }
            u = FileUpdate::RewriteThenAppend { retained };
        } else {
            u = FileUpdate::Append;
        }
        self.entries.insert(0, String::from_str(line));
        proof {
            assert(self@ =~= spec_save(old(self)@, line@));
        }
        u
    }
}

/// The file mirrors the log: if the file's lines (oldest-first) are exactly
/// the reversed log before a save, then after the save — the log updated by
/// `spec_save`, the file by `spec_file_after_save` — they are again each
/// other's reverse.
pub proof fn lemma_save_preserves_mirror(log: Seq<Seq<char>>, file: Seq<Seq<char>>, line: Seq<char>)
    requires
        file == log.reverse(),
    ensures
        spec_file_after_save(log, file, line) == spec_save(log, line).reverse(),
{
    if log.len() >= HISTORY_LIMIT {
        let retained = log.subrange(0, log.len() - TRIM_COUNT);
        assert(retained.reverse().push(line) =~= (seq![line] + retained).reverse());
    } else {
        assert(file.push(line) =~= (seq![line] + log).reverse());
    }
}

/// Round trip: loading a file that holds the log's entries oldest-first
/// reproduces the log in newest-first order.
pub proof fn lemma_load_round_trip(log: Seq<Seq<char>>)
    ensures
        log.reverse().reverse() == log,
{
    assert(log.reverse().reverse() =~= log);
}

} // verus!
