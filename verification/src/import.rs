//! The import of a list of candidates, one after the other, as a machine that
//! a driver runs: the machine names the next action, the driver carries it
//! out and reports what happened.
//!
//! The machine reads no file and asks no one. What it decides is stated in
//! [`crate::model`]: each method here computes what the model says.

use crate::error::{message_of, Fault, ImportError, ImportErrorView};
use crate::model::{
    begin, current, fail, init, inv, lemma_init_inv, lemma_next_inv, next, pending, registered,
    resolved, ActionView, EventView, ImporterView, Placement, Stage,
};
use crate::paths::{destination_dir_exec, relocated_exec};
use crate::registry::{password_view, Definition, Registry};
use crate::text::{decimal, decimal_exec};
use vstd::prelude::*;

verus! {

/// What the import reads of a container: its public identifier and its
/// unique id.
#[derive(Clone, Debug, PartialEq, Eq)]
pub struct KeyContainer {
    pub pubkey: String,
    pub uuid: String,
}

/// What the driver reports back after carrying out an action.
#[derive(Clone, Debug, PartialEq, Eq)]
pub enum Event {
    /// The action was carried out; for a decryption, the password is right.
    Succeeded,
    /// The action failed, for the cause given.
    Failed(String),
    /// The password is wrong.
    Rejected,
    /// The container's metadata.
    Parsed(KeyContainer),
    /// What the operator typed.
    Entered(String),
    /// Whether the path that was looked for exists.
    Exists(bool),
}

impl View for Event {
    type V = EventView;

    open spec fn view(&self) -> EventView {
        match self {
            Event::Succeeded => EventView::Succeeded,
            Event::Failed(cause) => EventView::Failed(cause@),
            Event::Rejected => EventView::Rejected,
            Event::Parsed(container) => EventView::Parsed {
                pubkey: container.pubkey@,
                uuid: container.uuid@,
            },
            Event::Entered(text) => EventView::Entered(text@),
            Event::Exists(found) => EventView::Exists(*found),
        }
    }
}

/// What the driver is asked to do.
#[derive(Clone, Debug, PartialEq, Eq)]
pub enum Action {
    /// Open the file for reading and writing, without creating it.
    Open(String),
    /// Read the metadata of the container in the file.
    Parse(String),
    /// Show the container's identifiers, unless this is a retry after a wrong
    /// password, and ask the operator for a password. A password that is
    /// given will be stored in the registry: the operator is to be told.
    Ask { pubkey: String, uuid: String, retry: bool },
    /// Try to decrypt the container in the file with the password.
    Decrypt { path: String, password: String },
    /// Tell whether the path exists.
    Probe(String),
    /// Create the directory, and those above it.
    CreateDir(String),
    /// Copy the file.
    Copy { from: String, to: String },
    /// Remove the file.
    Remove(String),
    /// Write the registry to durable storage, all of it or nothing.
    Save,
    /// Nothing is left to do.
    Stop,
}

impl View for Action {
    type V = ActionView;

    open spec fn view(&self) -> ActionView {
        match self {
            Action::Open(path) => ActionView::Open(path@),
            Action::Parse(path) => ActionView::Parse(path@),
            Action::Ask { pubkey, uuid, retry } => ActionView::Ask {
                pubkey: pubkey@,
                uuid: uuid@,
                retry: *retry,
            },
            Action::Decrypt { path, password } => ActionView::Decrypt {
                path: path@,
                password: password@,
            },
            Action::Probe(path) => ActionView::Probe(path@),
            Action::CreateDir(path) => ActionView::CreateDir(path@),
            Action::Copy { from, to } => ActionView::Copy { from: from@, to: to@ },
            Action::Remove(path) => ActionView::Remove(path@),
            Action::Save => ActionView::Save,
            Action::Stop => ActionView::Stop,
        }
    }
}

/// How a run ended.
#[derive(Clone, Debug, PartialEq, Eq)]
pub enum Outcome {
    /// Every candidate was imported.
    Completed { imported: usize },
    /// The run was given up after `imported` candidates.
    Aborted { imported: usize, error: ImportError },
}

/// An [`Outcome`] as a mathematical value.
pub enum OutcomeView {
    Completed { imported: nat },
    Aborted { imported: nat, error: ImportErrorView },
}

impl View for Outcome {
    type V = OutcomeView;

    open spec fn view(&self) -> OutcomeView {
        match self {
            Outcome::Completed { imported } => OutcomeView::Completed { imported: *imported as nat },
            Outcome::Aborted { imported, error } => OutcomeView::Aborted {
                imported: *imported as nat,
                error: error@,
            },
        }
    }
}

/// How the run in state `s` ended, if it has.
pub open spec fn outcome_of(s: ImporterView) -> Option<OutcomeView> {
    match s.stage {
        Stage::Finished => Some(OutcomeView::Completed { imported: s.imported }),
        Stage::Failed => match s.error {
            Some(error) => Some(OutcomeView::Aborted { imported: s.imported, error }),
            None => None,
        },
        _ => None,
    }
}

/// An outcome, if there is one, as a mathematical value.
pub open spec fn outcome_view(out: Option<Outcome>) -> Option<OutcomeView> {
    match out {
        Some(o) => Some(o@),
        None => None,
    }
}

/// An error, if there is one, as a mathematical value.
pub open spec fn error_view(error: Option<ImportError>) -> Option<ImportErrorView> {
    match error {
        Some(e) => Some(e@),
        None => None,
    }
}

/// The line that closes a run in which `count` keys were imported.
pub open spec fn summary_of(count: nat) -> Seq<char> {
    "Successfully imported "@ + decimal(count) + " validators."@
}

/// The line that closes a run in which `count` keys were imported.
pub fn summary(count: usize) -> (line: String)
    ensures
        line@ == summary_of(count as nat),
{
    let mut line: String = String::from_str("Successfully imported ");
    let number: String = decimal_exec(count);
    line.append(number.as_str());
    line.append(" validators.");
    line
}

/// What the operator is told at the end of a run: the count of imports
/// after a run that imported everything, the failure after a run that
/// imported nothing, and both, on a line each, after a run that imported
/// some candidates and then failed.
pub open spec fn report_of(outcome: OutcomeView) -> Seq<char> {
    match outcome {
        OutcomeView::Completed { imported } => summary_of(imported),
        OutcomeView::Aborted { imported, error } => if imported == 0 {
            message_of(error)
        } else {
            summary_of(imported) + "\n"@ + message_of(error)
        },
    }
}

impl Outcome {
    /// What the operator is told at the end of the run.
    pub fn report(&self) -> (text: String)
        ensures
            text@ == report_of(self@),
    {
        match self {
            Outcome::Completed { imported } => summary(*imported),
            Outcome::Aborted { imported, error } => {
                if *imported == 0 {
                    error.message()
                } else {
                    let mut text: String = summary(*imported);
                    let failure: String = error.message();
                    text.append("\n");
                    text.append(failure.as_str());
                    text
                }
            },
        }
    }
}

fn copy_of(text: &Option<String>) -> (out: Option<String>)
    ensures
        password_view(out) == password_view(*text),
{
    match text {
        Some(t) => Some(t.clone()),
        None => None,
    }
}

/// A run of imports.
#[derive(Debug)]
pub struct Importer {
    root: String,
    candidates: Vec<String>,
    registry: Registry,
    imported: usize,
    stage: Stage,
    container: KeyContainer,
    password: Option<String>,
    retry: bool,
    destination: String,
    target: String,
    placement: Placement,
    cause: String,
    error: Option<ImportError>,
}

impl View for Importer {
    type V = ImporterView;

    closed spec fn view(&self) -> ImporterView {
        ImporterView {
            root: self.root@,
            candidates: self.candidates.deep_view(),
            registry: self.registry@,
            imported: self.imported as nat,
            stage: self.stage,
            pubkey: self.container.pubkey@,
            uuid: self.container.uuid@,
            password: password_view(self.password),
            retry: self.retry,
            destination: self.destination@,
            target: self.target@,
            placement: self.placement,
            cause: self.cause@,
            error: error_view(self.error),
        }
    }
}

impl Importer {
    /// The machine's invariant: its state is one that a run can be in.
    pub open spec fn wf(&self) -> bool {
        inv(self@)
    }

    /// A run that imports `candidates`, in order, into the store under
    /// `root`, whose registry is `registry`.
    pub fn new(root: String, registry: Registry, candidates: Vec<String>) -> (m: Importer)
        requires
            registry.wf(),
        ensures
            m@ == init(root@, registry@, candidates.deep_view()),
            m.wf(),
    {
        let stage: Stage = if candidates.len() > 0 {
            Stage::Opening
        } else {
            Stage::Finished
        };
        proof {
            lemma_init_inv(root@, registry@, candidates.deep_view());
        }
        Importer {
            root,
            candidates,
            registry,
            imported: 0,
            stage,
            container: KeyContainer { pubkey: String::new(), uuid: String::new() },
            password: None,
            retry: false,
            destination: String::new(),
            target: String::new(),
            placement: Placement::Source,
            cause: String::new(),
            error: None,
        }
    }

    /// What the run is waiting for.
    pub fn stage(&self) -> (stage: Stage)
        ensures
            stage == self@.stage,
    {
        self.stage
    }

    /// How many candidates have been imported and saved.
    pub fn imported(&self) -> (n: usize)
        ensures
            n == self@.imported,
    {
        self.imported
    }

    /// Where the current candidate's container lies, by what was reported.
    pub fn placement(&self) -> (placement: Placement)
        ensures
            placement == self@.placement,
    {
        self.placement
    }

    /// The registry as it stands in memory: what a `Save` is to write.
    pub fn registry(&self) -> (registry: &Registry)
        ensures
            registry@ == self@.registry,
    {
        &self.registry
    }

    /// Ends the run and hands the registry back.
    pub fn into_registry(self) -> (registry: Registry)
        ensures
            registry@ == self@.registry,
    {
        self.registry
    }

    /// How the run ended, if it has.
    pub fn outcome(&self) -> (out: Option<Outcome>)
        ensures
            outcome_view(out) == outcome_of(self@),
    {
        match self.stage {
            Stage::Finished => Some(Outcome::Completed { imported: self.imported }),
            Stage::Failed => match &self.error {
                Some(e) => Some(
                    Outcome::Aborted {
                        imported: self.imported,
                        error: ImportError::new(e.fault, e.path.as_str(), e.cause.as_str()),
                    },
                ),
                None => None,
            },
            _ => None,
        }
    }

    fn current_path(&self) -> (path: String)
        requires
            self.imported < self.candidates.len(),
        ensures
            path@ == current(self@),
    {
        self.candidates[self.imported].clone()
    }

    fn give_up(&mut self, fault: Fault, path: String, cause: String)
        ensures
            final(self)@ == fail(old(self)@, fault, path@, cause@),
    {
        self.stage = Stage::Failed;
        self.error = Some(ImportError { fault, path, cause });
    }

    fn resolve(&mut self)
        requires
            old(self).imported < old(self).candidates.len(),
        ensures
            final(self)@ == resolved(old(self)@),
    {
        if self.registry.contains(self.container.pubkey.as_str()) {
            let path: String = self.current_path();
            self.give_up(Fault::AlreadyImported, path, String::new());
        } else {
            self.destination = destination_dir_exec(
                self.root.as_str(),
                self.container.pubkey.as_str(),
            );
            self.stage = Stage::ProbingDestination;
        }
    }

    fn register(&mut self)
        requires
            old(self).wf(),
            old(self)@.stage == Stage::Removing,
        ensures
            final(self)@ == registered(old(self)@),
    {
        let definition: Definition = Definition::imported(
            self.container.pubkey.as_str(),
            self.target.as_str(),
            copy_of(&self.password),
        );
        self.registry.push(definition);
        self.placement = Placement::Destination;
        self.stage = Stage::Saving;
    }

    fn advance(&mut self)
        requires
            old(self).imported < old(self).candidates.len(),
        ensures
            final(self)@ == begin(old(self)@, old(self)@.imported + 1),
    {
        self.imported = self.imported + 1;
        self.stage = if self.imported < self.candidates.len() {
            Stage::Opening
        } else {
            Stage::Finished
        };
        self.container = KeyContainer { pubkey: String::new(), uuid: String::new() };
        self.password = None;
        self.retry = false;
        self.destination = String::new();
        self.target = String::new();
        self.placement = Placement::Source;
        self.cause = String::new();
        self.error = None;
    }

    /// What the driver is to do next.
    pub fn pending(&self) -> (action: Action)
        requires
            self.wf(),
        ensures
            action@ == pending(self@),
    {
        match self.stage {
            Stage::Opening => Action::Open(self.current_path()),
            Stage::Parsing => Action::Parse(self.current_path()),
            Stage::Asking => Action::Ask {
                pubkey: self.container.pubkey.clone(),
                uuid: self.container.uuid.clone(),
                retry: self.retry,
            },
            Stage::Decrypting => {
                let password: String = match &self.password {
                    Some(text) => text.clone(),
                    None => String::new(),
                };
                Action::Decrypt { path: self.current_path(), password }
            },
            Stage::ProbingDestination => Action::Probe(self.destination.clone()),
            Stage::CreatingDirectory => Action::CreateDir(self.destination.clone()),
            Stage::Copying => Action::Copy { from: self.current_path(), to: self.target.clone() },
            Stage::Discarding => Action::Remove(self.target.clone()),
            Stage::Removing => Action::Remove(self.current_path()),
            Stage::ProbingOriginal => Action::Probe(self.current_path()),
            Stage::RollingBack => Action::Remove(self.target.clone()),
            Stage::Saving => Action::Save,
            Stage::Finished | Stage::Failed => Action::Stop,
        }
    }

    /// Takes the driver's report of what happened, moves to the state that
    /// follows, and names what is to be done next.
    pub fn step(&mut self, event: Event) -> (action: Action)
        requires
            old(self).wf(),
        ensures
            final(self)@ == next(old(self)@, event@),
            final(self).wf(),
            action@ == pending(final(self)@),
    {
        proof {
            lemma_next_inv(self@, event@);
        }
        match self.stage {
            Stage::Opening => match event {
                Event::Succeeded => {
                    self.stage = Stage::Parsing;
                },
                Event::Failed(cause) => {
                    let path: String = self.current_path();
                    self.give_up(Fault::Unreadable, path, cause);
                },
                _ => {},
            },
            Stage::Parsing => match event {
                Event::Parsed(container) => {
                    self.container = container;
                    self.stage = Stage::Asking;
                },
                Event::Failed(cause) => {
                    let path: String = self.current_path();
                    self.give_up(Fault::Malformed, path, cause);
                },
                _ => {},
            },
            Stage::Asking => match event {
                Event::Entered(text) => {
                    if text.as_str().unicode_len() == 0 {
                        self.password = None;
                        self.resolve();
                    } else {
                        self.password = Some(text);
                        self.stage = Stage::Decrypting;
                    }
                },
                Event::Failed(cause) => {
                    self.give_up(Fault::Unanswered, String::new(), cause);
                },
                _ => {},
            },
            Stage::Decrypting => match event {
                Event::Succeeded => {
                    self.resolve();
                },
                Event::Rejected => {
                    self.password = None;
                    self.retry = true;
                    self.stage = Stage::Asking;
                },
                Event::Failed(cause) => {
                    let path: String = self.current_path();
                    self.give_up(Fault::Undecryptable, path, cause);
                },
                _ => {},
            },
            Stage::ProbingDestination => match event {
                Event::Exists(found) => {
                    if found {
                        let path: String = self.current_path();
                        self.give_up(Fault::AlreadyImported, path, String::new());
                    } else {
                        self.stage = Stage::CreatingDirectory;
                    }
                },
                _ => {},
            },
            Stage::CreatingDirectory => match event {
                Event::Succeeded => {
                    let path: String = self.current_path();
                    match relocated_exec(self.destination.as_str(), path.as_str()) {
                        Some(target) => {
                            self.target = target;
                            self.stage = Stage::Copying;
                        },
                        None => {
                            self.give_up(Fault::NoFileName, path, String::new());
                        },
                    }
                },
                Event::Failed(cause) => {
                    let path: String = self.destination.clone();
                    self.give_up(Fault::DirectoryNotCreated, path, cause);
                },
                _ => {},
            },
            Stage::Copying => match event {
                Event::Succeeded => {
                    self.placement = Placement::Both;
                    self.stage = Stage::Removing;
                },
                Event::Failed(cause) => {
                    self.cause = cause;
                    self.stage = Stage::Discarding;
                },
                _ => {},
            },
            Stage::Discarding => match event {
                Event::Succeeded => {
                    let path: String = self.target.clone();
                    let cause: String = self.cause.clone();
                    self.give_up(Fault::CopyFailed, path, cause);
                },
                Event::Failed(_) => {
                    let path: String = self.target.clone();
                    let cause: String = self.cause.clone();
                    self.give_up(Fault::CopyFailed, path, cause);
                },
                _ => {},
            },
            Stage::Removing => match event {
                Event::Succeeded => {
                    self.register();
                },
                Event::Failed(cause) => {
                    self.cause = cause;
                    self.stage = Stage::ProbingOriginal;
                },
                _ => {},
            },
            Stage::ProbingOriginal => match event {
                Event::Exists(found) => {
                    if found {
                        self.stage = Stage::RollingBack;
                    } else {
                        let path: String = self.current_path();
                        let cause: String = self.cause.clone();
                        self.placement = Placement::Destination;
                        self.give_up(Fault::SourceVanished, path, cause);
                    }
                },
                _ => {},
            },
            Stage::RollingBack => match event {
                Event::Succeeded => {
                    let path: String = self.current_path();
                    let cause: String = self.cause.clone();
                    self.placement = Placement::Source;
                    self.give_up(Fault::RemovalFailed, path, cause);
                },
                Event::Failed(cause) => {
                    let path: String = self.target.clone();
                    self.give_up(Fault::RollbackFailed, path, cause);
                },
                _ => {},
            },
            Stage::Saving => match event {
                Event::Succeeded => {
                    self.advance();
                },
                Event::Failed(cause) => {
                    self.give_up(Fault::SaveFailed, String::new(), cause);
                },
                _ => {},
            },
            Stage::Finished | Stage::Failed => {},
        }
        self.pending()
    }
}

} // verus!
