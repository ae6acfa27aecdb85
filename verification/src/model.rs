//! The import protocol as mathematics: the states of a run, the events that a
//! driver reports, the action that each state asks for, and the transition
//! from a state and an event to the next state.
//!
//! For each candidate the run goes through the stages in order: the file is
//! opened, its metadata read, a password asked for and checked, the key's
//! directory probed and created, the container copied, the original removed,
//! and the registry saved. The first failure ends the run: candidates that
//! were imported before it stay imported.

use crate::error::{Fault, ImportErrorView};
use crate::paths::{destination_dir, relocated};
use crate::registry::{distinct_identities, has_identity, imported_definition, DefinitionView};
use vstd::prelude::*;

verus! {

/// What the run is waiting for.
#[derive(Clone, Copy, Debug, PartialEq, Eq, Structural)]
pub enum Stage {
    /// The candidate is being opened for reading and writing.
    Opening,
    /// The container's metadata is being read.
    Parsing,
    /// The operator is being asked for a password.
    Asking,
    /// The password that the operator gave is being tried.
    Decrypting,
    /// The key's directory is being looked for.
    ProbingDestination,
    /// The key's directory is being created.
    CreatingDirectory,
    /// The container is being copied into the key's directory.
    Copying,
    /// The copy failed, and what it left behind is being removed.
    Discarding,
    /// The original is being removed.
    Removing,
    /// The original could not be removed, and is being looked for.
    ProbingOriginal,
    /// The original is still there, and the copy is being taken back.
    RollingBack,
    /// The key is in the registry, and the registry is being saved.
    Saving,
    /// Every candidate was imported.
    Finished,
    /// The run was given up.
    Failed,
}

/// Where the bytes of the current candidate's container lie, going by what
/// the driver reported. A copy that failed does not count.
#[derive(Clone, Copy, Debug, PartialEq, Eq, Structural)]
pub enum Placement {
    /// Only where the candidate was found.
    Source,
    /// Where the candidate was found and in the key's directory.
    Both,
    /// Only in the key's directory.
    Destination,
}

/// What the driver reports back after carrying out an action.
pub enum EventView {
    /// The action was carried out; for a decryption, the password is right.
    Succeeded,
    /// The action failed, for the cause given.
    Failed(Seq<char>),
    /// The password is wrong.
    Rejected,
    /// The container's metadata.
    Parsed { pubkey: Seq<char>, uuid: Seq<char> },
    /// What the operator typed.
    Entered(Seq<char>),
    /// Whether the path that was looked for exists.
    Exists(bool),
}

/// What the driver is asked to do.
pub enum ActionView {
    /// Open the file for reading and writing, without creating it.
    Open(Seq<char>),
    /// Read the metadata of the container in the file.
    Parse(Seq<char>),
    /// Show the container's identifiers, unless this is a retry after a wrong
    /// password, and ask the operator for a password.
    Ask { pubkey: Seq<char>, uuid: Seq<char>, retry: bool },
    /// Try to decrypt the container in the file with the password.
    Decrypt { path: Seq<char>, password: Seq<char> },
    /// Tell whether the path exists.
    Probe(Seq<char>),
    /// Create the directory, and those above it.
    CreateDir(Seq<char>),
    /// Copy the file.
    Copy { from: Seq<char>, to: Seq<char> },
    /// Remove the file.
    Remove(Seq<char>),
    /// Write the registry to durable storage, all of it or nothing.
    Save,
    /// Nothing is left to do.
    Stop,
}

/// The state of a run.
pub struct ImporterView {
    /// The directory under which each key gets a directory of its own.
    pub root: Seq<char>,
    /// The files to import, in order.
    pub candidates: Seq<Seq<char>>,
    /// The registry as it stands in memory.
    pub registry: Seq<DefinitionView>,
    /// How many candidates have been imported and saved: the index of the
    /// current one.
    pub imported: nat,
    pub stage: Stage,
    /// The current container's public identifier, once it was read.
    pub pubkey: Seq<char>,
    /// The current container's unique id, once it was read.
    pub uuid: Seq<char>,
    /// The password being tried, or the one that was accepted.
    pub password: Option<Seq<char>>,
    /// Whether the operator is asked again after a wrong password.
    pub retry: bool,
    /// The key's directory, once it was computed.
    pub destination: Seq<char>,
    /// The path of the copy, once it was computed.
    pub target: Seq<char>,
    pub placement: Placement,
    /// The cause of a failure that is being cleaned up after.
    pub cause: Seq<char>,
    /// Why the run was given up.
    pub error: Option<ImportErrorView>,
}

/// The candidate that the run is working on.
pub open spec fn current(s: ImporterView) -> Seq<char> {
    s.candidates[s.imported as int]
}

/// The state in which work on the candidate at `index` begins, or in which
/// the run ends if there is none.
pub open spec fn begin(s: ImporterView, index: nat) -> ImporterView {
    ImporterView {
        imported: index,
        stage: if index < s.candidates.len() {
            Stage::Opening
        } else {
            Stage::Finished
        },
        pubkey: Seq::empty(),
        uuid: Seq::empty(),
        password: None,
        retry: false,
        destination: Seq::empty(),
        target: Seq::empty(),
        placement: Placement::Source,
        cause: Seq::empty(),
        error: None,
        ..s
    }
}

/// The state in which a run begins.
pub open spec fn init(
    root: Seq<char>,
    registry: Seq<DefinitionView>,
    candidates: Seq<Seq<char>>,
) -> ImporterView {
    ImporterView {
        root,
        candidates,
        registry,
        imported: 0,
        stage: if candidates.len() > 0 {
            Stage::Opening
        } else {
            Stage::Finished
        },
        pubkey: Seq::empty(),
        uuid: Seq::empty(),
        password: None,
        retry: false,
        destination: Seq::empty(),
        target: Seq::empty(),
        placement: Placement::Source,
        cause: Seq::empty(),
        error: None,
    }
}

/// The run given up at `fault`.
pub open spec fn fail(s: ImporterView, fault: Fault, path: Seq<char>, cause: Seq<char>) -> ImporterView {
    ImporterView {
        stage: Stage::Failed,
        error: Some(ImportErrorView { fault, path, cause }),
        ..s
    }
}

/// The state once the password question is settled: a key that the registry
/// already holds is refused; for any other, its directory is looked for.
pub open spec fn resolved(s: ImporterView) -> ImporterView {
    if has_identity(s.registry, s.pubkey) {
        fail(s, Fault::AlreadyImported, current(s), Seq::empty())
    } else {
        ImporterView {
            stage: Stage::ProbingDestination,
            destination: destination_dir(s.root, s.pubkey),
            ..s
        }
    }
}

/// The state after the original was removed: the key is entered into the
/// registry, which is then to be saved.
pub open spec fn registered(s: ImporterView) -> ImporterView {
    ImporterView {
        stage: Stage::Saving,
        placement: Placement::Destination,
        registry: s.registry.push(imported_definition(s.pubkey, s.target, s.password)),
        ..s
    }
}

/// The state that follows `s` when the driver reports `e`. An event that
/// does not answer what the state asks for changes nothing.
pub open spec fn next(s: ImporterView, e: EventView) -> ImporterView {
    match s.stage {
        Stage::Opening => match e {
            EventView::Succeeded => ImporterView { stage: Stage::Parsing, ..s },
            EventView::Failed(cause) => fail(s, Fault::Unreadable, current(s), cause),
            _ => s,
        },
        Stage::Parsing => match e {
            EventView::Parsed { pubkey, uuid } => ImporterView {
                stage: Stage::Asking,
                pubkey,
                uuid,
                ..s
            },
            EventView::Failed(cause) => fail(s, Fault::Malformed, current(s), cause),
            _ => s,
        },
        Stage::Asking => match e {
            EventView::Entered(text) => if text.len() == 0 {
                resolved(ImporterView { password: None, ..s })
            } else {
                ImporterView { stage: Stage::Decrypting, password: Some(text), ..s }
            },
            EventView::Failed(cause) => fail(s, Fault::Unanswered, Seq::empty(), cause),
            _ => s,
        },
        Stage::Decrypting => match e {
            EventView::Succeeded => resolved(s),
            EventView::Rejected => ImporterView {
                stage: Stage::Asking,
                password: None,
                retry: true,
                ..s
            },
            EventView::Failed(cause) => fail(s, Fault::Undecryptable, current(s), cause),
            _ => s,
        },
        Stage::ProbingDestination => match e {
            EventView::Exists(true) => fail(s, Fault::AlreadyImported, current(s), Seq::empty()),
            EventView::Exists(false) => ImporterView { stage: Stage::CreatingDirectory, ..s },
            _ => s,
        },
        Stage::CreatingDirectory => match e {
            EventView::Succeeded => match relocated(s.destination, current(s)) {
                Some(target) => ImporterView { stage: Stage::Copying, target, ..s },
                None => fail(s, Fault::NoFileName, current(s), Seq::empty()),
            },
            EventView::Failed(cause) => fail(s, Fault::DirectoryNotCreated, s.destination, cause),
            _ => s,
        },
        Stage::Copying => match e {
            EventView::Succeeded => ImporterView {
                stage: Stage::Removing,
                placement: Placement::Both,
                ..s
            },
            EventView::Failed(cause) => ImporterView { stage: Stage::Discarding, cause, ..s },
            _ => s,
        },
        Stage::Discarding => match e {
            EventView::Succeeded | EventView::Failed(_) => fail(
                s,
                Fault::CopyFailed,
                s.target,
                s.cause,
            ),
            _ => s,
        },
        Stage::Removing => match e {
            EventView::Succeeded => registered(s),
            EventView::Failed(cause) => ImporterView { stage: Stage::ProbingOriginal, cause, ..s },
            _ => s,
        },
        Stage::ProbingOriginal => match e {
            EventView::Exists(true) => ImporterView { stage: Stage::RollingBack, ..s },
            EventView::Exists(false) => fail(
                ImporterView { placement: Placement::Destination, ..s },
                Fault::SourceVanished,
                current(s),
                s.cause,
            ),
            _ => s,
        },
        Stage::RollingBack => match e {
            EventView::Succeeded => fail(
                ImporterView { placement: Placement::Source, ..s },
                Fault::RemovalFailed,
                current(s),
                s.cause,
            ),
            EventView::Failed(cause) => fail(s, Fault::RollbackFailed, s.target, cause),
            _ => s,
        },
        Stage::Saving => match e {
            EventView::Succeeded => begin(s, s.imported + 1),
            EventView::Failed(cause) => fail(s, Fault::SaveFailed, Seq::empty(), cause),
            _ => s,
        },
        Stage::Finished | Stage::Failed => s,
    }
}

/// The password that is being tried, as text.
pub open spec fn offered(s: ImporterView) -> Seq<char> {
    match s.password {
        Some(text) => text,
        None => Seq::empty(),
    }
}

/// What the state asks the driver to do.
pub open spec fn pending(s: ImporterView) -> ActionView {
    match s.stage {
        Stage::Opening => ActionView::Open(current(s)),
        Stage::Parsing => ActionView::Parse(current(s)),
        Stage::Asking => ActionView::Ask { pubkey: s.pubkey, uuid: s.uuid, retry: s.retry },
        Stage::Decrypting => ActionView::Decrypt { path: current(s), password: offered(s) },
        Stage::ProbingDestination => ActionView::Probe(s.destination),
        Stage::CreatingDirectory => ActionView::CreateDir(s.destination),
        Stage::Copying => ActionView::Copy { from: current(s), to: s.target },
        Stage::Discarding => ActionView::Remove(s.target),
        Stage::Removing => ActionView::Remove(current(s)),
        Stage::ProbingOriginal => ActionView::Probe(current(s)),
        Stage::RollingBack => ActionView::Remove(s.target),
        Stage::Saving => ActionView::Save,
        Stage::Finished | Stage::Failed => ActionView::Stop,
    }
}

/// The state after a sequence of events, one after the other.
pub open spec fn run(s: ImporterView, events: Seq<EventView>) -> ImporterView
    decreases events.len(),
{
    if events.len() == 0 {
        s
    } else {
        run(next(s, events.first()), events.drop_first())
    }
}

/// The stages in which the key's directory is known.
pub open spec fn knows_destination(stage: Stage) -> bool {
    stage == Stage::ProbingDestination || stage == Stage::CreatingDirectory || knows_target(stage)
}

/// The stages in which the path of the copy is known.
pub open spec fn knows_target(stage: Stage) -> bool {
    stage == Stage::Copying || stage == Stage::Discarding || stage == Stage::Removing || stage
        == Stage::ProbingOriginal || stage == Stage::RollingBack || stage == Stage::Saving
}

/// Where the container lies in each stage, and after each fault.
pub open spec fn placement_of(stage: Stage, error: Option<ImportErrorView>) -> Placement {
    match stage {
        Stage::Removing | Stage::ProbingOriginal | Stage::RollingBack => Placement::Both,
        Stage::Saving => Placement::Destination,
        Stage::Failed => match error {
            Some(e) => match e.fault {
                Fault::RollbackFailed => Placement::Both,
                Fault::SourceVanished | Fault::SaveFailed => Placement::Destination,
                _ => Placement::Source,
            },
            None => Placement::Source,
        },
        _ => Placement::Source,
    }
}

/// What holds of every state of a run.
pub open spec fn inv(s: ImporterView) -> bool {
    &&& distinct_identities(s.registry)
    &&& s.imported <= s.candidates.len()
    &&& (s.stage == Stage::Finished <==> s.imported == s.candidates.len())
    &&& (s.stage == Stage::Failed <==> s.error.is_some())
    &&& (s.stage == Stage::Opening || s.stage == Stage::Parsing || s.stage == Stage::Asking
        ==> s.password.is_none())
    &&& (s.stage == Stage::Decrypting ==> s.password.is_some() && offered(s).len() > 0)
    &&& (knows_destination(s.stage) ==> s.destination == destination_dir(s.root, s.pubkey))
    &&& (knows_destination(s.stage) && s.stage != Stage::Saving ==> !has_identity(
        s.registry,
        s.pubkey,
    ))
    &&& (knows_target(s.stage) ==> relocated(s.destination, current(s)) == Some(s.target))
    &&& s.placement == placement_of(s.stage, s.error)
    &&& (s.stage == Stage::Saving ==> s.registry.len() > 0 && s.registry.last()
        == imported_definition(s.pubkey, s.target, s.password))
}

/// A run begins in a state of which the invariant holds.
pub proof fn lemma_init_inv(
    root: Seq<char>,
    registry: Seq<DefinitionView>,
    candidates: Seq<Seq<char>>,
)
    requires
        distinct_identities(registry),
    ensures
        inv(init(root, registry, candidates)),
{
}

/// Every transition keeps the invariant.
pub proof fn lemma_next_inv(s: ImporterView, e: EventView)
    requires
        inv(s),
    ensures
        inv(next(s, e)),
{
    let t = next(s, e);
    if s.stage == Stage::Removing && e == EventView::Succeeded {
        let d = imported_definition(s.pubkey, s.target, s.password);
        assert(t.registry == s.registry.push(d));
        assert forall|i: int, j: int| 0 <= i < j < t.registry.len() implies t.registry[i].identity
            != t.registry[j].identity by {
            if j == s.registry.len() {
                assert(s.registry[i].identity != s.pubkey);
            }
        }
    }
}

/// Every run keeps the invariant.
pub proof fn lemma_run_inv(s: ImporterView, events: Seq<EventView>)
    requires
        inv(s),
    ensures
        inv(run(s, events)),
    decreases events.len(),
{
    if events.len() > 0 {
        lemma_next_inv(s, events.first());
        lemma_run_inv(next(s, events.first()), events.drop_first());
    }
}

} // verus!
