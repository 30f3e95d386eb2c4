//! The scan-and-forward loop as a state machine.
//!
//! The host performs one operation at a time and reports its result as an
//! [`Event`]; the driver answers with the next operation, an [`Action`].
//! Within a scan the driver uploads each candidate as soon as the scanner
//! yields it and has it removed before it asks for the next entry. Every
//! failure is fatal: the driver asks the host to give up, asks for nothing
//! more on the entry at hand, and accepts no further event.

use crate::config::{Config, ConfigView};
use crate::failure::Failure;
use crate::history::run_from;
use crate::scanner::{is_dicom, is_dicom_name};
use crate::uploader::{failure_of, judge, UploadOutcome};
use vstd::prelude::*;

verus! {

/// What the driver is waiting for.
#[derive(Clone, Copy, Debug, PartialEq, Eq, Structural)]
pub enum State {
    /// Scanning: the scanner was asked for its next entry.
    Listing,
    /// Scanning: the upload of the entry last yielded is under way.
    Uploading,
    /// Scanning: the removal of the entry last yielded is under way.
    Unlinking,
    /// Between two scans.
    Sleeping,
    /// An operation failed. The driver accepts nothing more.
    Failed(Failure),
}

/// The two phases of the loop.
#[derive(Clone, Copy, Debug, PartialEq, Eq, Structural)]
pub enum Phase {
    Scanning,
    Sleeping,
}

/// The result of the operation that the driver asked for last.
#[derive(Debug, PartialEq, Eq)]
pub enum Event {
    /// The scanner yielded an entry whose final path component is
    /// `file_name`.
    Entry { file_name: String },
    /// The scanner could not enumerate an entry, `depth` levels below the
    /// root. `not_found` tells whether the entry does not exist.
    EntryFailed { depth: usize, not_found: bool },
    /// The scanner has no more entries.
    Exhausted,
    /// The upload attempt ended.
    UploadFinished { outcome: UploadOutcome },
    /// The entry was removed.
    Unlinked,
    /// The entry could not be removed.
    UnlinkFailed,
    /// The sleep is over.
    Slept,
}

/// An [`Event`] as mathematical values.
pub enum EventView {
    Entry { file_name: Seq<char> },
    EntryFailed { depth: usize, not_found: bool },
    Exhausted,
    UploadFinished { outcome: UploadOutcome },
    Unlinked,
    UnlinkFailed,
    Slept,
}

impl View for Event {
    type V = EventView;

    open spec fn view(&self) -> EventView {
        match *self {
            Event::Entry { file_name } => EventView::Entry { file_name: file_name@ },
            Event::EntryFailed { depth, not_found } => EventView::EntryFailed { depth, not_found },
            Event::Exhausted => EventView::Exhausted,
            Event::UploadFinished { outcome } => EventView::UploadFinished { outcome },
            Event::Unlinked => EventView::Unlinked,
            Event::UnlinkFailed => EventView::UnlinkFailed,
            Event::Slept => EventView::Slept,
        }
    }
}

/// The operation that the host is to perform next.
#[derive(Debug, PartialEq, Eq)]
pub enum Action {
    /// Start a fresh recursive traversal of `root` and report its first
    /// entry.
    BeginScan { root: String },
    /// Report the next entry of the traversal under way.
    NextEntry,
    /// Read the entry last reported and send its bytes as the body of one
    /// POST request to `url`.
    Upload { url: String },
    /// Remove the entry last reported.
    Unlink,
    /// Wait for `seconds` seconds.
    Sleep { seconds: u64 },
    /// Give up and exit: `failure` names the operation that failed.
    Abort { failure: Failure },
}

/// An [`Action`] as mathematical values.
pub enum ActionView {
    BeginScan { root: Seq<char> },
    NextEntry,
    Upload { url: Seq<char> },
    Unlink,
    Sleep { seconds: u64 },
    Abort { failure: Failure },
}

impl View for Action {
    type V = ActionView;

    open spec fn view(&self) -> ActionView {
        match *self {
            Action::BeginScan { root } => ActionView::BeginScan { root: root@ },
            Action::NextEntry => ActionView::NextEntry,
            Action::Upload { url } => ActionView::Upload { url: url@ },
            Action::Unlink => ActionView::Unlink,
            Action::Sleep { seconds } => ActionView::Sleep { seconds },
            Action::Abort { failure } => ActionView::Abort { failure },
        }
    }
}

/// The phase that a state belongs to; a failed driver is in none.
pub open spec fn phase_of(state: State) -> Option<Phase> {
    match state {
        State::Listing | State::Uploading | State::Unlinking => Some(Phase::Scanning),
        State::Sleeping => Some(Phase::Sleeping),
        State::Failed(_) => None,
    }
}

/// The root of the scan does not exist: the one scanner error that is no
/// failure. Such a scan has no entries.
pub open spec fn is_missing_root(depth: usize, not_found: bool) -> bool {
    depth == 0 && not_found
}

/// The transition function: the state that follows `state` when `event`
/// arrives, and the operation asked for next. `None` where `event` is not a
/// result of the operation that `state` waits for.
pub open spec fn next(config: ConfigView, state: State, event: EventView) -> Option<
    (State, ActionView),
> {
    match (state, event) {
        (State::Listing, EventView::Entry { file_name }) => if is_dicom(file_name) {
            Some((State::Uploading, ActionView::Upload { url: config.server_address }))
        } else {
            Some((State::Listing, ActionView::NextEntry))
        },
        (State::Listing, EventView::EntryFailed { depth, not_found }) => if is_missing_root(
            depth,
            not_found,
        ) {
            Some((State::Sleeping, ActionView::Sleep { seconds: config.sleep_seconds }))
        } else {
            Some((State::Failed(Failure::Scan), ActionView::Abort { failure: Failure::Scan }))
        },
        (State::Listing, EventView::Exhausted) => Some(
            (State::Sleeping, ActionView::Sleep { seconds: config.sleep_seconds }),
        ),
        (State::Uploading, EventView::UploadFinished { outcome }) => match failure_of(outcome) {
            None => Some((State::Unlinking, ActionView::Unlink)),
            Some(failure) => Some((State::Failed(failure), ActionView::Abort { failure })),
        },
        (State::Unlinking, EventView::Unlinked) => Some((State::Listing, ActionView::NextEntry)),
        (State::Unlinking, EventView::UnlinkFailed) => Some(
            (State::Failed(Failure::Unlink), ActionView::Abort { failure: Failure::Unlink }),
        ),
        (State::Sleeping, EventView::Slept) => Some(
            (State::Listing, ActionView::BeginScan { root: config.directory_path }),
        ),
        _ => None,
    }
}

/// The operation that opens the first scan.
pub open spec fn first_action(config: ConfigView) -> ActionView {
    ActionView::BeginScan { root: config.directory_path }
}

/// What the driver answered, as mathematical values.
pub open spec fn answer_of(answer: Option<Action>) -> Option<ActionView> {
    match answer {
        Some(action) => Some(action@),
        None => None,
    }
}

/// The driver: a configuration, the state of the loop and, for the proofs
/// only, the events accepted so far.
pub struct Driver {
    config: Config,
    progress: Progress,
}

/// Where the loop stands. State and events change together.
struct Progress {
    state: State,
    events: Ghost<Seq<EventView>>,
}

/// A [`Driver`] as mathematical values.
pub struct DriverView {
    pub config: ConfigView,
    pub state: State,
    /// The events accepted since the start, oldest first.
    pub events: Seq<EventView>,
}

impl DriverView {
    /// The events accepted so far are a run from the start of the first scan
    /// that ends in the present state.
    pub open spec fn is_run(self) -> bool {
        run_from(self.config, State::Listing, self.events) matches Some(run) && run.state
            == self.state
    }
}

impl View for Driver {
    type V = DriverView;

    closed spec fn view(&self) -> DriverView {
        DriverView {
            config: self.config@,
            state: self.progress.state,
            events: self.progress.events@,
        }
    }
}

impl Driver {
    #[verifier::type_invariant]
    spec fn well_formed(&self) -> bool {
        self@.is_run()
    }

    /// Starts the loop. The driver begins in the scanning phase, and the
    /// first operation is the start of a scan of the configured root.
    pub fn start(config: Config) -> (r: (Driver, Action))
        ensures
            r.0@.config == config@,
            r.0@.state == State::Listing,
            r.0@.events == Seq::<EventView>::empty(),
            r.0@.is_run(),
            r.1@ == first_action(config@),
    {
        let root = config.directory_path().to_owned();
        let progress = Progress { state: State::Listing, events: Ghost(Seq::empty()) };
        (Driver { config, progress }, Action::BeginScan { root })
    }

    /// The transition that `event` causes, if the driver accepts it.
    fn decide(&self, event: Event) -> (r: Option<(State, Action)>)
        ensures
            next(self@.config, self@.state, event@) == match r {
                Some((state, action)) => Some((state, action@)),
                None => None,
            },
    {
        match (self.progress.state, event) {
            (State::Listing, Event::Entry { file_name }) => {
                if is_dicom_name(file_name.as_str()) {
                    let url = self.config.server_address().to_owned();
                    Some((State::Uploading, Action::Upload { url }))
                } else {
                    Some((State::Listing, Action::NextEntry))
                }
            },
            (State::Listing, Event::EntryFailed { depth, not_found }) => {
                if depth == 0 && not_found {
                    let seconds: u64 = self.config.sleep_seconds();
                    Some((State::Sleeping, Action::Sleep { seconds }))
                } else {
                    Some((State::Failed(Failure::Scan), Action::Abort { failure: Failure::Scan }))
                }
            },
            (State::Listing, Event::Exhausted) => {
                let seconds: u64 = self.config.sleep_seconds();
                Some((State::Sleeping, Action::Sleep { seconds }))
            },
            (State::Uploading, Event::UploadFinished { outcome }) => {
                match judge(outcome) {
                    Ok(()) => Some((State::Unlinking, Action::Unlink)),
                    Err(failure) => Some((State::Failed(failure), Action::Abort { failure })),
                }
            },
            (State::Unlinking, Event::Unlinked) => Some((State::Listing, Action::NextEntry)),
            (State::Unlinking, Event::UnlinkFailed) => Some(
                (State::Failed(Failure::Unlink), Action::Abort { failure: Failure::Unlink }),
            ),
            (State::Sleeping, Event::Slept) => {
                let root = self.config.directory_path().to_owned();
                Some((State::Listing, Action::BeginScan { root }))
            },
            _ => None,
        }
    }

    /// Takes the result of the operation asked for last and says what to do
    /// next. An event that is no result of that operation is refused: the
    /// driver stays as it is and asks for nothing.
    pub fn step(&mut self, event: Event) -> (r: Option<Action>)
        ensures
            final(self)@.config == old(self)@.config,
            match next(old(self)@.config, old(self)@.state, event@) {
                Some((state, action)) => {
                    &&& answer_of(r) == Some(action)
                    &&& final(self)@.state == state
                    &&& final(self)@.events == old(self)@.events.push(event@)
                },
                None => r is None && final(self)@ == old(self)@,
            },
            final(self)@.is_run(),
    {
        proof {
            use_type_invariant(&*self);
        }
        let ghost seen = event@;
        let ghost before = self.progress.events@;
        match self.decide(event) {
            Some((state, action)) => {
                proof {
                    assert(before.push(seen).drop_last() =~= before);
                }
                self.progress = Progress { state, events: Ghost(before.push(seen)) };
                Some(action)
            },
            None => None,
        }
    }

    /// The state of the loop.
    pub fn state(&self) -> (s: State)
        ensures
            s == self@.state,
    {
        self.progress.state
    }

    /// The phase of the loop, unless the driver has failed.
    pub fn phase(&self) -> (p: Option<Phase>)
        ensures
            p == phase_of(self@.state),
    {
        match self.progress.state {
            State::Listing | State::Uploading | State::Unlinking => Some(Phase::Scanning),
            State::Sleeping => Some(Phase::Sleeping),
            State::Failed(_) => None,
        }
    }

    /// The configuration that the driver was started with.
    pub fn config(&self) -> (c: &Config)
        ensures
            c@ == self@.config,
    {
        &self.config
    }
}

} // verus!
