//! The log of a reference, read anew when its file has changed.
use vstd::prelude::*;

verus! {

/// What a request for the log leads to.
#[derive(Clone, Copy, PartialEq, Eq, Structural, Debug)]
pub enum FetchStatus {
    /// previous fetch still running
    Pending,
    /// no change expected
    NoChange,
    /// new walk was started
    Started,
}

/// A log that was read.
pub struct AsyncReflogResult<E> {
    pub entries: Vec<E>,
    /// How long it took, in nanoseconds.
    pub duration: u128,
}

/// The log of a reference.
pub struct AsyncReflog<E> {
    pub current: AsyncReflogResult<E>,
    /// When the file of the log was last written, in nanoseconds, as far as
    /// it was known when the log was read.
    pub reflog_mtime: Option<i128>,
    pub pending: bool,
}

impl<E> AsyncReflog<E> {
    /// Whether the log has to be read: unless its file is known not to have
    /// been written since.
    pub open spec fn changed(&self, written: Option<i128>) -> bool {
        self.reflog_mtime is None || written is None || written != self.reflog_mtime
    }

    /// What asking for the log does. It is read where it has to be and is not
    /// being read.
    pub open spec fn asked(self, written: Option<i128>) -> (AsyncReflog<E>, FetchStatus) {
        if self.pending {
            (self, FetchStatus::Pending)
        } else if self.changed(written) {
            (AsyncReflog { pending: true, ..self }, FetchStatus::Started)
        } else {
            (self, FetchStatus::NoChange)
        }
    }

    /// What the end of a read does. A log that could not be read changes
    /// nothing that is known.
    pub open spec fn taken(
        self,
        result: Option<AsyncReflogResult<E>>,
        metadata: Option<Option<i128>>,
    ) -> AsyncReflog<E> {
        AsyncReflog {
            current: match result {
                Some(log) => log,
                None => self.current,
            },
            reflog_mtime: match (result, metadata) {
                (Some(_), Some(written)) => written,
                _ => self.reflog_mtime,
            },
            pending: false,
        }
    }

    pub fn new() -> (r: AsyncReflog<E>)
        ensures
            r.current.entries@.len() == 0,
            r.current.duration == 0,
            r.reflog_mtime is None,
            !r.pending,
    {
        AsyncReflog {
            current: AsyncReflogResult { entries: Vec::new(), duration: 0 },
            reflog_mtime: None,
            pending: false,
        }
    }

    pub fn count(&self) -> (r: usize)
        ensures
            r == self.current.entries@.len(),
    {
        self.current.entries.len()
    }

    pub fn get_items(&self) -> (r: &Vec<E>)
        ensures
            r@ == self.current.entries@,
    {
        &self.current.entries
    }

    pub fn is_pending(&self) -> (r: bool)
        ensures
            r == self.pending,
    {
        self.pending
    }

    /// Check if reflog file has been modified since last fetch. `written` is
    /// when it was last written, where that can be told.
    pub fn reflog_changed(&self, written: Option<i128>) -> (r: bool)
        ensures
            r == self.changed(written),
    {
        match self.reflog_mtime {
            Some(stored) => match written {
                Some(current) => current != stored,
                None => true,
            },
            None => true,
        }
    }

    /// Fetch reflog data, only if changed since last fetch. The log is to be
    /// read when a fetch was started.
    pub fn fetch(&mut self, written: Option<i128>) -> (r: FetchStatus)
        ensures
            (*final(self), r) == old(self).asked(written),
    {
        if self.pending {
            return FetchStatus::Pending;
        }
        if !self.reflog_changed(written) {
            return FetchStatus::NoChange;
        }
        self.pending = true;
        FetchStatus::Started
    }

    /// request a refresh, non-blocking
    /// returns the status of a potential prior running request
    pub fn request(&mut self, written: Option<i128>) -> (r: FetchStatus)
        ensures
            (*final(self), r) == old(self).asked(written),
    {
        self.fetch(written)
    }

    /// check if there was a change since last `request()` call
    /// if there was a change, the current data will be updated: the log is to
    /// be read when a fetch was started.
    pub fn check_for_updates(&mut self, written: Option<i128>) -> (r: FetchStatus)
        ensures
            (*final(self), r) == old(self).asked(written),
    {
        self.fetch(written)
    }

    /// Takes over a log that was read. `metadata` is when its file was last
    /// written, where that can be told, and nothing where the file cannot be
    /// looked at. Returns whether everyone is told: only of a log that could be
    /// read.
    pub fn fetched(
        &mut self,
        result: Option<AsyncReflogResult<E>>,
        metadata: Option<Option<i128>>,
    ) -> (r: bool)
        ensures
            r == result is Some,
            *final(self) == old(self).taken(result, metadata),
    {
        self.pending = false;
        match result {
            Some(log) => {
                match metadata {
                    Some(written) => {
                        self.reflog_mtime = written;
                    },
                    None => {},
                }
                self.current = log;
                true
            },
            None => false,
        }
    }
}

// ---------------------------------------------------------------------------
// Where the file of the log is
// ---------------------------------------------------------------------------
/// What is known of the path of a repository.
#[derive(Clone, Copy, PartialEq, Eq, Structural, Debug)]
pub struct PathFacts {
    /// Whether there is a `.git` in it.
    pub has_dot_git: bool,
    /// Whether it is called `.git` itself.
    pub named_dot_git: bool,
    /// Whether its name has an extension.
    pub has_extension: bool,
    /// Whether there is a `logs` in it.
    pub has_logs: bool,
}

/// Where git keeps its files.
#[derive(Clone, Copy, PartialEq, Eq, Structural, Debug)]
pub enum GitDir {
    /// In `.git` inside of the path.
    Inside,
    /// In the path itself.
    Itself,
}

/// Where git keeps its files for the path of a repository: in its `.git`, or
/// in the path itself where that is git's own directory.
pub fn git_dir(facts: PathFacts) -> (r: GitDir)
    ensures
        r == (if !facts.has_dot_git && (facts.named_dot_git || (!facts.has_extension
            && facts.has_logs)) {
            GitDir::Itself
        } else {
            GitDir::Inside
        }),
{
    if facts.has_dot_git {
        GitDir::Inside
    } else if facts.named_dot_git {
        GitDir::Itself
    } else if !facts.has_extension && facts.has_logs {
        GitDir::Itself
    } else {
        GitDir::Inside
    }
}

/// Where git keeps its files for a main work tree.
pub fn main_git_dir(dot_git_is_dir: bool) -> (r: GitDir)
    ensures
        r == if dot_git_is_dir {
            GitDir::Inside
        } else {
            GitDir::Itself
        },
{
    if dot_git_is_dir {
        GitDir::Inside
    } else {
        GitDir::Itself
    }
}

/// Which file holds the log.
#[derive(Clone, Copy, PartialEq, Eq, Structural, Debug)]
pub enum ReflogFile {
    /// The one in git's own directory.
    Own,
    /// The one of the main work tree.
    Main,
}

/// Which file holds the log. A linked work tree without a log of its own has
/// that of the main work tree, where there is one.
pub fn reflog_path(own_exists: bool, linked: bool, main_exists: bool) -> (r: ReflogFile)
    ensures
        r == if !own_exists && linked && main_exists {
            ReflogFile::Main
        } else {
            ReflogFile::Own
        },
{
    if !own_exists && linked && main_exists {
        ReflogFile::Main
    } else {
        ReflogFile::Own
    }
}

// ---------------------------------------------------------------------------
// Laws
// ---------------------------------------------------------------------------
/// A log whose file has not been written since it was read is not read again,
/// and nothing is changed by asking for it.
pub proof fn law_unchanged_log_is_not_read<E>(
    log: AsyncReflog<E>,
    first: AsyncReflogResult<E>,
    written: i128,
)
    ensures
        ({
            let read = log.taken(Some(first), Some(Some(written)));
            read.asked(Some(written)) == (read, FetchStatus::NoChange)
        }),
{
}

/// After a log was read, asking for it starts a read wherever its file was
/// written at another time since, or cannot be looked at now or could not be
/// then; and once that read has come to its end, what is known is the new log.
pub proof fn law_change_is_noticed<E>(
    log: AsyncReflog<E>,
    first: AsyncReflogResult<E>,
    then: Option<i128>,
    now: Option<i128>,
    second: AsyncReflogResult<E>,
    metadata: Option<Option<i128>>,
)
    requires
        then is None || now != then,
    ensures
        ({
            let read = log.taken(Some(first), Some(then));
            let (asked, status) = read.asked(now);
            let updated = asked.taken(Some(second), metadata);
            &&& status is Started
            &&& asked.pending && asked.current == first
            &&& updated.current == second
            &&& !updated.pending
        }),
{
}

/// Asking again while a log is read changes nothing and starts no second read.
pub proof fn law_one_read_at_a_time<E>(
    log: AsyncReflog<E>,
    written: Option<i128>,
    again: Option<i128>,
)
    ensures
        ({
            let (asked, status) = log.asked(written);
            status is NoChange || asked.asked(again) == (asked, FetchStatus::Pending)
        }),
{
}

/// Where git keeps its files: wherever there is a `.git` inside, it is there; where the
/// path is itself a `.git`, or looks like the directory of a bare repository, it is the
/// path; elsewhere it is the `.git` that would stand inside.
pub proof fn law_git_dir(facts: PathFacts, r: GitDir)
    requires
        call_ensures(git_dir, (facts,), r),
    ensures
        facts.has_dot_git ==> r is Inside,
        !facts.has_dot_git && facts.named_dot_git ==> r is Itself,
        !facts.has_dot_git && facts.has_logs && !facts.has_extension ==> r is Itself,
        !facts.named_dot_git && facts.has_extension ==> r is Inside,
        !facts.named_dot_git && !facts.has_logs ==> r is Inside,
{
}

/// A main work tree keeps its files in its `.git` exactly if that is a directory. A log of
/// its own is read before any other, and that of the main work tree only from a linked
/// one.
pub proof fn law_reflog_file(
    dot_git_is_dir: bool,
    dir: GitDir,
    own_exists: bool,
    linked: bool,
    main_exists: bool,
    file: ReflogFile,
)
    requires
        call_ensures(main_git_dir, (dot_git_is_dir,), dir),
        call_ensures(reflog_path, (own_exists, linked, main_exists), file),
    ensures
        dir is Inside <==> dot_git_is_dir,
        own_exists || !linked || !main_exists ==> file is Own,
        !own_exists && linked && main_exists ==> file is Main,
{
}

/// A log that could not be read leaves what is known as it was; one that was read takes
/// its place, and with it the time its file was written. No read is then under way.
pub proof fn law_taken_log<E>(
    log: AsyncReflog<E>,
    result: Option<AsyncReflogResult<E>>,
    metadata: Option<Option<i128>>,
)
    ensures
        !log.taken(result, metadata).pending,
        result is None ==> log.taken(result, metadata).current == log.current && log.taken(
            result,
            metadata,
        ).reflog_mtime == log.reflog_mtime,
        result matches Some(new) ==> log.taken(result, metadata).current == new,
        result is Some ==> (metadata matches Some(written) ==> log.taken(
            result,
            metadata,
        ).reflog_mtime == written),
        metadata is None ==> log.taken(result, metadata).reflog_mtime == log.reflog_mtime,
{
}

} // verus!
