//! Which commit's files are known, which are wanted, and when they are read.
use vstd::prelude::*;

verus! {

/// The name of a commit: the 160 bits of its object id.
#[derive(Clone, Copy, PartialEq, Eq, Structural, Hash, Debug)]
pub struct CommitId {
    pub high: u128,
    pub low: u32,
}

/// Something before and after a change.
#[derive(Clone, Copy, PartialEq, Eq, Structural, Debug)]
pub struct OldNew<T> {
    pub old: T,
    pub new: T,
}

/// Whose files are wanted: those of a commit, against its parent or against
/// another commit.
#[derive(Clone, Copy, PartialEq, Eq, Structural, Debug)]
pub struct CommitFilesParams {
    pub id: CommitId,
    pub other: Option<CommitId>,
}

impl From<CommitId> for CommitFilesParams {
    fn from(id: CommitId) -> (r: CommitFilesParams) {
        CommitFilesParams { id, other: None }
    }
}

impl vstd::std_specs::convert::FromSpecImpl<CommitId> for CommitFilesParams {
    open spec fn obeys_from_spec() -> bool {
        true
    }

    open spec fn from_spec(id: CommitId) -> CommitFilesParams {
        CommitFilesParams { id, other: None }
    }
}

impl From<(CommitId, CommitId)> for CommitFilesParams {
    fn from(ids: (CommitId, CommitId)) -> (r: CommitFilesParams) {
        CommitFilesParams { id: ids.0, other: Some(ids.1) }
    }
}

impl vstd::std_specs::convert::FromSpecImpl<(CommitId, CommitId)> for CommitFilesParams {
    open spec fn obeys_from_spec() -> bool {
        true
    }

    open spec fn from_spec(ids: (CommitId, CommitId)) -> CommitFilesParams {
        CommitFilesParams { id: ids.0, other: Some(ids.1) }
    }
}

impl From<OldNew<CommitId>> for CommitFilesParams {
    fn from(old_new: OldNew<CommitId>) -> (r: CommitFilesParams) {
        CommitFilesParams { id: old_new.new, other: Some(old_new.old) }
    }
}

impl vstd::std_specs::convert::FromSpecImpl<OldNew<CommitId>> for CommitFilesParams {
    open spec fn obeys_from_spec() -> bool {
        true
    }

    open spec fn from_spec(old_new: OldNew<CommitId>) -> CommitFilesParams {
        CommitFilesParams { id: old_new.new, other: Some(old_new.old) }
    }
}

/// What a request leads to.
#[derive(Clone, Copy, PartialEq, Eq, Structural, Debug)]
pub enum FilesRequest {
    /// The files are known.
    Known,
    /// Files are being read; what is wanted is read after them.
    Waiting,
    /// The files are to be read.
    Read(CommitFilesParams),
}

/// What follows once files were read.
#[derive(Clone, Copy, PartialEq, Eq, Structural, Debug)]
pub enum FilesRead {
    /// Everyone is told.
    Notify,
    /// Other files were wanted meanwhile, and are to be read first.
    Read(CommitFilesParams),
}

/// Where the reading of files stands, whatever the files are.
#[verifier::ext_equal]
pub struct FilesState {
    /// Whose files are known.
    pub current: Option<CommitFilesParams>,
    /// Whose files are wanted.
    pub desired: Option<CommitFilesParams>,
    /// How many reads are under way.
    pub pending: int,
}

impl FilesState {
    pub open spec fn start() -> FilesState {
        FilesState { current: None, desired: None, pending: 0 }
    }

    pub open spec fn ask(self, params: CommitFilesParams) -> (FilesState, FilesRequest) {
        if self.current == Some(params) {
            (FilesState { desired: None, ..self }, FilesRequest::Known)
        } else if self.pending > 0 {
            (FilesState { desired: Some(params), ..self }, FilesRequest::Waiting)
        } else {
            (
                FilesState { desired: Some(params), pending: self.pending + 1, ..self },
                FilesRequest::Read(params),
            )
        }
    }

    /// A read came to its end. What was wanted last is read next, unless that
    /// is what was read.
    pub open spec fn read(self, params: CommitFilesParams) -> (FilesState, FilesRead) {
        let known = FilesState { current: Some(params), desired: None, pending: self.pending - 1 };
        match self.desired {
            Some(next) => if next != params {
                (FilesState { pending: self.pending, ..known }, FilesRead::Read(next))
            } else {
                (known, FilesRead::Notify)
            },
            None => (known, FilesRead::Notify),
        }
    }
}

/// The files of a commit, read in the background.
pub struct AsyncCommitFiles<F> {
    pub current: Option<(CommitFilesParams, Vec<F>)>,
    /// The params we want to fetch (may differ from current if pending)
    pub desired: Option<CommitFilesParams>,
    pub pending: usize,
}

impl<F> View for AsyncCommitFiles<F> {
    type V = FilesState;

    open spec fn view(&self) -> FilesState {
        FilesState {
            current: match self.current {
                Some(c) => Some(c.0),
                None => None,
            },
            desired: self.desired,
            pending: self.pending as int,
        }
    }
}

impl<F> AsyncCommitFiles<F> {
    /// The files that are known.
    pub open spec fn files(&self) -> Option<Seq<F>> {
        match self.current {
            Some(c) => Some(c.1@),
            None => None,
        }
    }

    pub fn new() -> (r: AsyncCommitFiles<F>)
        ensures
            r@ == FilesState::start(),
            r.files() is None,
    {
        AsyncCommitFiles { current: None, desired: None, pending: 0 }
    }

    /// The files that are known, and whose they are.
    pub fn current(&self) -> (r: Option<(CommitFilesParams, &Vec<F>)>)
        ensures
            match r {
                Some((params, files)) => self@.current == Some(params) && self.files() == Some(
                    files@,
                ),
                None => self@.current is None,
            },
    {
        match &self.current {
            Some(c) => Some((c.0, &c.1)),
            None => None,
        }
    }

    /// Whether files are being read.
    pub fn is_pending(&self) -> (r: bool)
        ensures
            r == (self@.pending > 0),
    {
        self.pending > 0
    }

    /// Asks for the files of a commit.
    pub fn fetch(&mut self, params: CommitFilesParams) -> (r: FilesRequest)
        ensures
            (final(self)@, r) == old(self)@.ask(params),
            final(self).current == old(self).current,
    {
        match &self.current {
            Some(c) => {
                if c.0 == params {
                    self.desired = None;
                    return FilesRequest::Known;
                }
            },
            None => {},
        }
        self.desired = Some(params);
        if self.pending > 0 {
            return FilesRequest::Waiting;
        }
        self.pending = 1;
        FilesRequest::Read(params)
    }

    /// Takes over files that were read, whether [`AsyncCommitFiles::fetch`] or an
    /// earlier read asked for them. Where other files are wanted meanwhile, they
    /// are to be read next.
    pub fn fetched(&mut self, params: CommitFilesParams, files: Vec<F>) -> (r: FilesRead)
        requires
            old(self)@.pending > 0,
        ensures
            (final(self)@, r) == old(self)@.read(params),
            final(self).files() == Some(files@),
    {
        self.current = Some((params, files));
        let next_params = self.desired;
        self.desired = None;
        match next_params {
            Some(next) => if next != params {
                FilesRead::Read(next)
            } else {
                self.pending = self.pending - 1;
                FilesRead::Notify
            },
            None => {
                self.pending = self.pending - 1;
                FilesRead::Notify
            },
        }
    }
}

// ---------------------------------------------------------------------------
// Laws
// ---------------------------------------------------------------------------
/// What can happen.
pub enum FilesEvent {
    /// Files are asked for.
    Ask(CommitFilesParams),
    /// The read that is under way comes to its end.
    End,
}

/// The state together with the read that is under way.
#[verifier::ext_equal]
pub struct FilesRun {
    pub state: FilesState,
    pub under_way: Option<CommitFilesParams>,
}

impl FilesRun {
    /// One read is counted exactly where one is under way, and nothing else is
    /// wanted where none is.
    pub open spec fn wf(self) -> bool {
        &&& self.state.pending == (if self.under_way is Some {
            1int
        } else {
            0int
        })
        &&& self.under_way is None ==> self.state.desired is None
    }

    pub open spec fn step(self, event: FilesEvent) -> FilesRun {
        match event {
            FilesEvent::Ask(params) => {
                let (state, request) = self.state.ask(params);
                FilesRun {
                    state,
                    under_way: match request {
                        FilesRequest::Read(next) => Some(next),
                        _ => self.under_way,
                    },
                }
            },
            FilesEvent::End => match self.under_way {
                Some(params) => {
                    let (state, then) = self.state.read(params);
                    FilesRun {
                        state,
                        under_way: match then {
                            FilesRead::Read(next) => Some(next),
                            FilesRead::Notify => None,
                        },
                    }
                },
                None => self,
            },
        }
    }

    /// What any number of events leads to.
    pub open spec fn after(events: Seq<FilesEvent>) -> FilesRun
        decreases events.len(),
    {
        if events.len() == 0 {
            FilesRun { state: FilesState::start(), under_way: None }
        } else {
            FilesRun::after(events.drop_last()).step(events.last())
        }
    }
}

/// Whatever happens, there is never more than one read under way, and the count
/// of reads tells whether there is one.
pub proof fn law_one_read_at_a_time(events: Seq<FilesEvent>)
    ensures
        FilesRun::after(events).wf(),
    decreases events.len(),
{
    if events.len() > 0 {
        law_one_read_at_a_time(events.drop_last());
    }
}

/// Whatever happened before, files that are asked for last and not known yet
/// are the ones that are known in the end: after at most the read that was
/// under way and one more, with nothing left to read.
pub proof fn law_last_request_wins(events: Seq<FilesEvent>, last: CommitFilesParams)
    requires
        FilesRun::after(events).state.current != Some(last),
    ensures
        ({
            let asked = FilesRun::after(events).step(FilesEvent::Ask(last));
            let ended = asked.step(FilesEvent::End).step(FilesEvent::End);
            &&& asked.under_way is Some
            &&& ended.state.current == Some(last)
            &&& ended.under_way is None
            &&& ended.state == (FilesState { current: Some(last), desired: None, pending: 0 })
        }),
{
    law_one_read_at_a_time(events);
}

/// What is known and was asked for last is not read again: asking for it
/// changes nothing but that nothing else is wanted.
pub proof fn law_known_files_are_not_read(events: Seq<FilesEvent>, params: CommitFilesParams)
    requires
        FilesRun::after(events).state.current == Some(params),
    ensures
        ({
            let run = FilesRun::after(events);
            &&& run.state.ask(params).1 is Known
            &&& run.step(FilesEvent::Ask(params)).under_way == run.under_way
            &&& run.under_way is None ==> run.step(FilesEvent::Ask(params)) == run
        }),
{
    law_one_read_at_a_time(events);
}

/// The files of one commit are those against its parent; those of two are the files of
/// the first against the second, and of an old and a new one those of the new one against
/// the old one.
pub proof fn law_wanted_files(a: CommitId, b: CommitId)
    ensures
        ({
            let one = <CommitFilesParams as vstd::std_specs::convert::FromSpec<
                CommitId,
            >>::from_spec(a);
            let pair = <CommitFilesParams as vstd::std_specs::convert::FromSpec<
                (CommitId, CommitId),
            >>::from_spec((a, b));
            let old_new = <CommitFilesParams as vstd::std_specs::convert::FromSpec<
                OldNew<CommitId>,
            >>::from_spec(OldNew { old: b, new: a });
            &&& one.id == a && one.other is None
            &&& pair.id == a && pair.other == Some(b)
            &&& old_new == pair
        }),
{
}

/// Files that are asked for while none are read are read at once; while others are read
/// they wait, and take the place of what waited before. What is known meanwhile stays.
pub proof fn law_request(state: FilesState, params: CommitFilesParams)
    requires
        state.current != Some(params),
    ensures
        state.pending == 0 ==> state.ask(params).1 == FilesRequest::Read(params),
        state.pending > 0 ==> state.ask(params).1 is Waiting && state.ask(params).0.pending
            == state.pending,
        state.ask(params).0.desired == Some(params),
        state.ask(params).0.current == state.current,
{
}

/// Files that were read are known from then on. What is wanted meanwhile is read next, and
/// only that; nobody is told before.
pub proof fn law_end_of_read(state: FilesState, params: CommitFilesParams)
    ensures
        state.read(params).0.current == Some(params),
        state.read(params).0.desired is None,
        state.desired is None || state.desired == Some(params) ==> state.read(params).1 is Notify
            && state.read(params).0.pending == state.pending - 1,
        state.desired matches Some(next) ==> next != params ==> state.read(params).1
            == FilesRead::Read(next) && state.read(params).0.pending == state.pending,
{
}

/// Once known files are asked for again, nothing is read after the read that is under way.
pub proof fn law_known_files_end_the_wait(events: Seq<FilesEvent>, params: CommitFilesParams)
    requires
        FilesRun::after(events).state.current == Some(params),
    ensures
        FilesRun::after(events).step(FilesEvent::Ask(params)).step(FilesEvent::End).under_way is None,
{
    law_one_read_at_a_time(events);
}

} // verus!
