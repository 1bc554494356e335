//! One run of the bridge, as a machine of decisions.
//!
//! The caller performs each `Action` the session hands out (open a backing
//! file, create a mapping, release the held mappings, wait for the interrupt,
//! look for a backing file, remove it) and answers with the `Event` that
//! came of it. Startup is all or nothing: when a backing file or a mapping
//! cannot be made, every mapping made so far is released and the run ends
//! with the error, before any other mapping is tried. On the interrupt every
//! mapping is released, and only then are the backing files removed, one
//! name after another; a file that is already gone is recorded as such, and
//! the first removal that fails ends the run.
use vstd::prelude::*;

use crate::path::{backing_path, joined};
use crate::request::Command;

verus! {

/// Where a session stands.
#[derive(Clone, Copy, PartialEq, Eq, Structural, Debug)]
pub enum Phase {
    /// The backing file of the mapping at `pos` is to be opened.
    Opening,
    /// The mapping at `pos` is to be created on its open backing file.
    Mapping,
    /// Every mapping is held; the session waits for the interrupt.
    Running,
    /// The held mappings are to be released.
    Releasing,
    /// The backing file at `pos` is to be looked for.
    Probing,
    /// The backing file at `pos` exists and is to be removed.
    Removing,
    /// The run is over.
    Exited,
}

/// What the caller is asked to do next. Indices refer to the session's names.
#[derive(Clone, Copy, PartialEq, Eq, Structural, Debug)]
pub enum Action {
    /// Open the backing file at `path(index)` for reading and writing,
    /// creating it if absent, as a temporary file.
    OpenBacking { index: usize },
    /// Create the mapping `name(index)` of `size(index)` bytes on the backing
    /// file just opened, then close that file.
    CreateMapping { index: usize },
    /// Release the first `count` mappings, the ones held.
    Release { count: usize },
    /// Wait for the interrupt.
    Suspend,
    /// Look whether the file at `path(index)` exists.
    Probe { index: usize },
    /// Remove the file at `path(index)`.
    Remove { index: usize },
    /// The run is over; `error` tells how it ended.
    Finish,
    /// Nothing is left to do.
    Idle,
}

/// What came of the last action.
#[derive(Clone, Copy, PartialEq, Eq, Structural, Debug)]
pub enum Event {
    Opened,
    OpenFailed,
    MappingCreated,
    MappingFailed,
    Released,
    Interrupted,
    Present,
    Absent,
    Removed,
    RemoveFailed,
}

/// What became of one backing file during cleanup.
#[derive(Clone, Copy, PartialEq, Eq, Structural, Debug)]
pub enum Removal {
    Removed,
    AlreadyAbsent,
}

/// The step that ended a run in failure, with the position of its name.
#[derive(Clone, Copy, PartialEq, Eq, Structural, Debug)]
pub enum Failure {
    IoOpen { index: usize },
    MappingCreation { index: usize },
    CleanupIo { index: usize },
}

/// The error a failed run reports, with the name and path concerned.
#[derive(Debug)]
pub enum BridgeError {
    IoOpen { name: String, path: String },
    MappingCreation { name: String },
    CleanupIo { name: String, path: String },
}

/// `BridgeError` with the characters of its strings.
pub enum Fault {
    IoOpen { name: Seq<char>, path: Seq<char> },
    MappingCreation { name: Seq<char> },
    CleanupIo { name: Seq<char>, path: Seq<char> },
}

impl View for BridgeError {
    type V = Fault;

    open spec fn view(&self) -> Fault {
        match self {
            BridgeError::IoOpen { name, path } => Fault::IoOpen { name: name@, path: path@ },
            BridgeError::MappingCreation { name } => Fault::MappingCreation { name: name@ },
            BridgeError::CleanupIo { name, path } => Fault::CleanupIo { name: name@, path: path@ },
        }
    }
}

/// The position a failure concerns.
pub open spec fn failure_index(f: Failure) -> nat {
    match f {
        Failure::IoOpen { index } => index as nat,
        Failure::MappingCreation { index } => index as nat,
        Failure::CleanupIo { index } => index as nat,
    }
}

/// The state of a session, apart from its names, sizes and directory.
pub struct State {
    pub phase: Phase,
    /// The position being worked on.
    pub pos: nat,
    /// How many mappings are held: always the first `held`.
    pub held: nat,
    pub failure: Option<Failure>,
    /// The outcome for each backing file already handled by cleanup.
    pub report: Seq<Removal>,
    /// How many names the session has.
    pub count: nat,
}

impl State {
    /// The states a session can be in.
    pub open spec fn wf(self) -> bool {
        &&& self.count <= usize::MAX
        &&& self.held <= self.count
        &&& self.report.len() <= self.count
        &&& (self.failure matches Some(f) ==> failure_index(f) < self.count)
        &&& match self.phase {
            Phase::Opening | Phase::Mapping => {
                &&& self.pos < self.count
                &&& self.held == self.pos
                &&& self.failure is None
                &&& self.report.len() == 0
            },
            Phase::Running => {
                &&& self.held == self.count
                &&& self.failure is None
                &&& self.report.len() == 0
            },
            Phase::Releasing => self.report.len() == 0,
            Phase::Probing | Phase::Removing => {
                &&& self.pos < self.count
                &&& self.held == 0
                &&& self.failure is None
                &&& self.report.len() == self.pos
            },
            Phase::Exited => self.held == 0,
        }
    }
}

/// The action a session in state `s` waits to see answered.
pub open spec fn pending(s: State) -> Action {
    match s.phase {
        Phase::Opening => Action::OpenBacking { index: s.pos as usize },
        Phase::Mapping => Action::CreateMapping { index: s.pos as usize },
        Phase::Running => Action::Suspend,
        Phase::Releasing => Action::Release { count: s.held as usize },
        Phase::Probing => Action::Probe { index: s.pos as usize },
        Phase::Removing => Action::Remove { index: s.pos as usize },
        Phase::Exited => Action::Idle,
    }
}

/// Cleanup goes on at position `p`, or ends when no name is left.
pub open spec fn enter_cleanup(s: State, p: nat) -> (State, Action) {
    if p < s.count {
        (State { phase: Phase::Probing, pos: p, ..s }, Action::Probe { index: p as usize })
    } else {
        (State { phase: Phase::Exited, pos: p, ..s }, Action::Finish)
    }
}

/// Startup stops with failure `f`: the mappings held are released.
pub open spec fn abort(s: State, f: Failure) -> (State, Action) {
    (
        State { phase: Phase::Releasing, failure: Some(f), ..s },
        Action::Release { count: s.held as usize },
    )
}

/// The state and action that follow event `e` in state `s`. An event that
/// does not answer the pending action changes nothing, and the pending
/// action is asked again.
pub open spec fn next(s: State, e: Event) -> (State, Action) {
    match (s.phase, e) {
        (Phase::Opening, Event::Opened) => (
            State { phase: Phase::Mapping, ..s },
            Action::CreateMapping { index: s.pos as usize },
        ),
        (Phase::Opening, Event::OpenFailed) => abort(
            s,
            Failure::IoOpen { index: s.pos as usize },
        ),
        (Phase::Mapping, Event::MappingCreated) => if s.pos + 1 < s.count {
            (
                State { phase: Phase::Opening, pos: s.pos + 1, held: s.held + 1, ..s },
                Action::OpenBacking { index: (s.pos + 1) as usize },
            )
        } else {
            (
                State { phase: Phase::Running, pos: s.pos + 1, held: s.held + 1, ..s },
                Action::Suspend,
            )
        },
        (Phase::Mapping, Event::MappingFailed) => abort(
            s,
            Failure::MappingCreation { index: s.pos as usize },
        ),
        (Phase::Running, Event::Interrupted) => (
            State { phase: Phase::Releasing, ..s },
            Action::Release { count: s.held as usize },
        ),
        (Phase::Releasing, Event::Released) => if s.failure is Some {
            (State { phase: Phase::Exited, held: 0, ..s }, Action::Finish)
        } else {
            enter_cleanup(State { held: 0, ..s }, 0)
        },
        (Phase::Probing, Event::Absent) => enter_cleanup(
            State { report: s.report.push(Removal::AlreadyAbsent), ..s },
            s.pos + 1,
        ),
        (Phase::Probing, Event::Present) => (
            State { phase: Phase::Removing, ..s },
            Action::Remove { index: s.pos as usize },
        ),
        (Phase::Removing, Event::Removed) => enter_cleanup(
            State { report: s.report.push(Removal::Removed), ..s },
            s.pos + 1,
        ),
        (Phase::Removing, Event::RemoveFailed) => (
            State {
                phase: Phase::Exited,
                failure: Some(Failure::CleanupIo { index: s.pos as usize }),
                ..s
            },
            Action::Finish,
        ),
        _ => (s, pending(s)),
    }
}

/// The first state of a session that bridges `count` mappings.
pub open spec fn bridge_start(count: nat) -> State {
    State {
        phase: if count > 0 { Phase::Opening } else { Phase::Running },
        pos: 0,
        held: 0,
        failure: None,
        report: Seq::empty(),
        count,
    }
}

/// The first state of a session that only removes the backing files of
/// `count` names.
pub open spec fn cleanup_start(count: nat) -> State {
    State {
        phase: if count > 0 { Phase::Probing } else { Phase::Exited },
        pos: 0,
        held: 0,
        failure: None,
        report: Seq::empty(),
        count,
    }
}

/// A session: its directory, names and sizes, and its state.
pub struct Session {
    dir: String,
    names: Vec<String>,
    sizes: Vec<usize>,
    phase: Phase,
    pos: usize,
    held: usize,
    failure: Option<Failure>,
    report: Vec<Removal>,
}

impl View for Session {
    type V = State;

    closed spec fn view(&self) -> State {
        State {
            phase: self.phase,
            pos: self.pos as nat,
            held: self.held as nat,
            failure: self.failure,
            report: self.report@,
            count: self.names.len() as nat,
        }
    }
}

impl Session {
    /// The directory of the backing files.
    pub closed spec fn dir_spec(&self) -> Seq<char> {
        self.dir@
    }

    /// The names of the mappings, in order.
    pub closed spec fn names_spec(&self) -> Seq<Seq<char>> {
        self.names@.map_values(|s: String| s@)
    }

    /// The size of each mapping, in order; empty when the session only
    /// removes files.
    pub closed spec fn sizes_spec(&self) -> Seq<usize> {
        self.sizes@
    }

    /// The path of the backing file at position `i`.
    pub open spec fn path_spec(&self, i: int) -> Seq<char> {
        joined(self.dir_spec(), self.names_spec()[i])
    }

    pub closed spec fn wf(&self) -> bool {
        &&& self@.wf()
        &&& self.sizes.len() == 0 || self.sizes.len() == self.names.len()
        &&& (self.phase == Phase::Opening || self.phase == Phase::Mapping) ==> self.sizes.len()
            == self.names.len()
    }

    /// A session that opens a backing file in `dir` and creates a mapping
    /// for each name, with the size at the same position.
    pub fn bridge(dir: String, names: Vec<String>, sizes: Vec<usize>) -> (r: Session)
        requires
            names.len() == sizes.len(),
        ensures
            r.wf(),
            r@.wf(),
            r@ == bridge_start(names.len() as nat),
            r.dir_spec() == dir@,
            r.names_spec() == names@.map_values(|s: String| s@),
            r.sizes_spec() == sizes@,
    {
        let phase = if names.len() > 0 {
            Phase::Opening
        } else {
            Phase::Running
        };
        Session { dir, names, sizes, phase, pos: 0, held: 0, failure: None, report: Vec::new() }
    }

    /// A session that only removes the backing files of `names` from `dir`.
    pub fn clean_up(dir: String, names: Vec<String>) -> (r: Session)
        ensures
            r.wf(),
            r@.wf(),
            r@ == cleanup_start(names.len() as nat),
            r.dir_spec() == dir@,
            r.names_spec() == names@.map_values(|s: String| s@),
            r.sizes_spec() == Seq::<usize>::empty(),
    {
        let phase = if names.len() > 0 {
            Phase::Probing
        } else {
            Phase::Exited
        };
        Session {
            dir,
            names,
            sizes: Vec::new(),
            phase,
            pos: 0,
            held: 0,
            failure: None,
            report: Vec::new(),
        }
    }

    /// The session for a checked command.
    pub fn new(dir: String, command: Command) -> (r: Session)
        requires
            command matches Command::Bridge { names, sizes } ==> names.len() == sizes.len(),
        ensures
            r.wf(),
            r.dir_spec() == dir@,
            match command {
                Command::Bridge { names, sizes } => {
                    &&& r@ == bridge_start(names.len() as nat)
                    &&& r.names_spec() == names@.map_values(|s: String| s@)
                    &&& r.sizes_spec() == sizes@
                },
                Command::CleanUp { names } => {
                    &&& r@ == cleanup_start(names.len() as nat)
                    &&& r.names_spec() == names@.map_values(|s: String| s@)
                    &&& r.sizes_spec() == Seq::<usize>::empty()
                },
            },
    {
        match command {
            Command::Bridge { names, sizes } => Session::bridge(dir, names, sizes),
            Command::CleanUp { names } => Session::clean_up(dir, names),
        }
    }

    /// The action the session waits to see answered.
    pub fn pending(&self) -> (r: Action)
        ensures
            r == pending(self@),
    {
        match self.phase {
            Phase::Opening => Action::OpenBacking { index: self.pos },
            Phase::Mapping => Action::CreateMapping { index: self.pos },
            Phase::Running => Action::Suspend,
            Phase::Releasing => Action::Release { count: self.held },
            Phase::Probing => Action::Probe { index: self.pos },
            Phase::Removing => Action::Remove { index: self.pos },
            Phase::Exited => Action::Idle,
        }
    }

    fn enter_cleanup(&mut self, p: usize) -> (r: Action)
        requires
            p <= old(self).names.len(),
        ensures
            (final(self)@, r) == enter_cleanup(old(self)@, p as nat),
            final(self).dir == old(self).dir,
            final(self).names == old(self).names,
            final(self).sizes == old(self).sizes,
    {
        self.pos = p;
        if p < self.names.len() {
            self.phase = Phase::Probing;
            Action::Probe { index: p }
        } else {
            self.phase = Phase::Exited;
            Action::Finish
        }
    }

    /// Takes in what came of the pending action and returns the next one.
    pub fn step(&mut self, e: Event) -> (r: Action)
        requires
            old(self).wf(),
        ensures
            final(self).wf(),
            final(self)@.wf(),
            (final(self)@, r) == next(old(self)@, e),
            final(self).dir_spec() == old(self).dir_spec(),
            final(self).names_spec() == old(self).names_spec(),
            final(self).sizes_spec() == old(self).sizes_spec(),
    {
        match (self.phase, e) {
            (Phase::Opening, Event::Opened) => {
                self.phase = Phase::Mapping;
                Action::CreateMapping { index: self.pos }
            },
            (Phase::Opening, Event::OpenFailed) => {
                self.phase = Phase::Releasing;
                self.failure = Some(Failure::IoOpen { index: self.pos });
                Action::Release { count: self.held }
            },
            (Phase::Mapping, Event::MappingCreated) => {
                self.pos = self.pos + 1;
                self.held = self.held + 1;
                if self.pos < self.names.len() {
                    self.phase = Phase::Opening;
                    Action::OpenBacking { index: self.pos }
                } else {
                    self.phase = Phase::Running;
                    Action::Suspend
                }
            },
            (Phase::Mapping, Event::MappingFailed) => {
                self.phase = Phase::Releasing;
                self.failure = Some(Failure::MappingCreation { index: self.pos });
                Action::Release { count: self.held }
            },
            (Phase::Running, Event::Interrupted) => {
                self.phase = Phase::Releasing;
                Action::Release { count: self.held }
            },
            (Phase::Releasing, Event::Released) => {
                self.held = 0;
                if self.failure.is_some() {
                    self.phase = Phase::Exited;
                    Action::Finish
                } else {
                    self.enter_cleanup(0)
                }
            },
            (Phase::Probing, Event::Absent) => {
                self.report.push(Removal::AlreadyAbsent);
                let p = self.pos + 1;
                self.enter_cleanup(p)
            },
            (Phase::Probing, Event::Present) => {
                self.phase = Phase::Removing;
                Action::Remove { index: self.pos }
            },
            (Phase::Removing, Event::Removed) => {
                self.report.push(Removal::Removed);
                let p = self.pos + 1;
                self.enter_cleanup(p)
            },
            (Phase::Removing, Event::RemoveFailed) => {
                self.phase = Phase::Exited;
                self.failure = Some(Failure::CleanupIo { index: self.pos });
                Action::Finish
            },
            _ => self.pending(),
        }
    }

    /// The name at position `i`.
    pub fn name(&self, i: usize) -> (r: &str)
        requires
            i < self@.count,
        ensures
            r@ == self.names_spec()[i as int],
    {
        self.names[i].as_str()
    }

    /// The size of the mapping at position `i`.
    pub fn size(&self, i: usize) -> (r: usize)
        requires
            i < self.sizes_spec().len(),
        ensures
            r == self.sizes_spec()[i as int],
    {
        self.sizes[i]
    }

    /// The path of the backing file at position `i`.
    pub fn path(&self, i: usize) -> (r: String)
        requires
            i < self@.count,
        ensures
            r@ == self.path_spec(i as int),
    {
        backing_path(self.dir.as_str(), self.names[i].as_str())
    }

    /// The phase the session is in.
    pub fn phase(&self) -> (r: Phase)
        ensures
            r == self@.phase,
    {
        self.phase
    }

    /// How many mappings the session holds.
    pub fn held(&self) -> (r: usize)
        ensures
            r == self@.held,
    {
        self.held
    }

    /// The outcome of cleanup for each name handled so far, in order.
    pub fn report(&self) -> (r: Vec<Removal>)
        ensures
            r@ == self@.report,
    {
        self.report.clone()
    }

    /// The error that `f` stands for in this session.
    pub open spec fn fault_spec(&self, f: Failure) -> Fault {
        match f {
            Failure::IoOpen { index } => Fault::IoOpen {
                name: self.names_spec()[index as int],
                path: self.path_spec(index as int),
            },
            Failure::MappingCreation { index } => Fault::MappingCreation {
                name: self.names_spec()[index as int],
            },
            Failure::CleanupIo { index } => Fault::CleanupIo {
                name: self.names_spec()[index as int],
                path: self.path_spec(index as int),
            },
        }
    }

    /// The error that stopped the run, with the name and path it concerns;
    /// `None` while nothing has failed.
    pub fn error(&self) -> (r: Option<BridgeError>)
        requires
            self.wf(),
        ensures
            r is None <==> self@.failure is None,
            self@.failure matches Some(f) ==> r matches Some(e) && e@ == self.fault_spec(f),
    {
        match self.failure {
            None => None,
            Some(Failure::IoOpen { index }) => Some(
                BridgeError::IoOpen { name: self.names[index].clone(), path: self.path(index) },
            ),
            Some(Failure::MappingCreation { index }) => Some(
                BridgeError::MappingCreation { name: self.names[index].clone() },
            ),
            Some(Failure::CleanupIo { index }) => Some(
                BridgeError::CleanupIo { name: self.names[index].clone(), path: self.path(index) },
            ),
        }
    }
}

} // verus!
