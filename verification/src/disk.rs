//! The disk as the import changes it, and what holds of the disk when the
//! driver reports truthfully and nothing else writes to it.
//!
//! The disk is taken as the containers that lie on it, each at a path and
//! for a key, and the directories. A copy that fails leaves no container, and
//! only what succeeds changes the disk.

use crate::error::Fault;
use crate::laws::failed_at;
use crate::model::{
    current, init, inv, lemma_init_inv, lemma_next_inv, next, pending, ActionView, EventView,
    ImporterView, Placement, Stage,
};
use crate::paths::{file_name, join, lemma_file_name_plain, plain_name};
use crate::registry::{distinct_identities, DefinitionView};
use vstd::prelude::*;

verus! {

/// What is on disk.
pub struct DiskView {
    /// The containers: for each path that holds one, the public identifier of
    /// the key in it.
    pub files: Map<Seq<char>, Seq<char>>,
    /// The directories.
    pub dirs: Set<Seq<char>>,
}

/// Whether a container lies at `path`.
pub open spec fn holds(d: DiskView, path: Seq<char>) -> bool {
    d.files.dom().contains(path)
}

/// Whether the container of the key `pubkey` lies at `path`.
pub open spec fn holds_key(d: DiskView, path: Seq<char>, pubkey: Seq<char>) -> bool {
    d.files.dom().contains(path) && d.files[path] == pubkey
}

/// Whether no container lies directly in the directory `dir`.
pub open spec fn is_empty_dir(d: DiskView, dir: Seq<char>) -> bool {
    forall|name: Seq<char>| plain_name(name) ==> !holds(d, #[trigger] join(dir, name))
}

/// Whether `path` exists: as a directory, as a container, or as what a
/// container lies in.
pub open spec fn exists_on(d: DiskView, path: Seq<char>) -> bool {
    d.dirs.contains(path) || holds(d, path) || !is_empty_dir(d, path)
}

/// The disk after the driver carried out `action` and reported `e`.
pub open spec fn effect(d: DiskView, action: ActionView, e: EventView) -> DiskView {
    match (action, e) {
        (ActionView::CreateDir(path), EventView::Succeeded) => DiskView {
            dirs: d.dirs.insert(path),
            ..d
        },
        (ActionView::Copy { from, to }, EventView::Succeeded) => if holds(d, from) {
            DiskView { files: d.files.insert(to, d.files[from]), ..d }
        } else {
            d
        },
        (ActionView::Remove(path), EventView::Succeeded) => DiskView {
            files: d.files.remove(path),
            ..d
        },
        _ => d,
    }
}

/// Whether `e` is a report that a truthful driver can give after carrying
/// out `action` on the disk `d`: a file that was opened or copied is there, a
/// container that was read is for the key that is reported, and a path is
/// reported to exist exactly if it does.
pub open spec fn truthful(d: DiskView, action: ActionView, e: EventView) -> bool {
    match (action, e) {
        (ActionView::Open(path), EventView::Succeeded) => holds(d, path),
        (ActionView::Parse(path), EventView::Parsed { pubkey, uuid }) => holds_key(
            d,
            path,
            pubkey,
        ),
        (ActionView::Probe(path), EventView::Exists(found)) => found == exists_on(d, path),
        (ActionView::Copy { from, to }, EventView::Succeeded) => holds(d, from),
        _ => true,
    }
}

/// Every definition of the registry is for the key whose container lies at
/// the definition's path.
pub open spec fn registry_on_disk(registry: Seq<DefinitionView>, d: DiskView) -> bool {
    forall|i: int|
        0 <= i < registry.len() ==> holds_key(
            d,
            (#[trigger] registry[i]).container_path,
            registry[i].identity,
        )
}

/// The stages in which the candidate is known to be on disk.
pub open spec fn source_known(stage: Stage) -> bool {
    stage == Stage::Parsing || key_known(stage)
}

/// The stages in which the candidate's key is known and the candidate still
/// lies where it was found.
pub open spec fn key_known(stage: Stage) -> bool {
    stage == Stage::Asking || stage == Stage::Decrypting || stage == Stage::ProbingDestination
        || stage == Stage::CreatingDirectory || stage == Stage::Copying || stage
        == Stage::Discarding || stage == Stage::Removing || stage == Stage::ProbingOriginal
        || stage == Stage::RollingBack
}

/// The stages in which the copy is on disk beside the original.
pub open spec fn copied(stage: Stage) -> bool {
    stage == Stage::Removing || stage == Stage::ProbingOriginal || stage == Stage::RollingBack
}

/// What the state of a run says of the disk.
pub open spec fn agrees(s: ImporterView, d: DiskView) -> bool {
    &&& registry_on_disk(s.registry, d)
    &&& (source_known(s.stage) ==> holds(d, current(s)))
    &&& (key_known(s.stage) ==> holds_key(d, current(s), s.pubkey))
    &&& (s.stage == Stage::CreatingDirectory ==> is_empty_dir(d, s.destination))
    &&& (s.stage == Stage::Copying || s.stage == Stage::Discarding ==> !holds(d, s.target))
    &&& (copied(s.stage) ==> holds_key(d, s.target, s.pubkey) && s.target != current(s))
    &&& (copied(s.stage) ==> forall|i: int|
        0 <= i < s.registry.len() ==> (#[trigger] s.registry[i]).container_path != s.target)
    &&& (s.stage == Stage::Saving ==> holds_key(d, s.target, s.pubkey) && !holds(d, current(s)))
    &&& (failed_at(s, Fault::RemovalFailed) ==> holds_key(d, current(s), s.pubkey) && !holds(
        d,
        s.target,
    ))
    &&& (failed_at(s, Fault::RollbackFailed) ==> holds_key(d, current(s), s.pubkey) && holds_key(
        d,
        s.target,
        s.pubkey,
    ))
    &&& (failed_at(s, Fault::SaveFailed) ==> holds_key(d, s.target, s.pubkey) && !holds(
        d,
        current(s),
    ))
    &&& (failed_at(s, Fault::SourceVanished) ==> holds_key(d, s.target, s.pubkey) && !holds(
        d,
        current(s),
    ))
}

/// A run begins in agreement with any disk that holds what the registry
/// names.
pub proof fn lemma_init_agrees(
    root: Seq<char>,
    registry: Seq<DefinitionView>,
    candidates: Seq<Seq<char>>,
    d: DiskView,
)
    requires
        registry_on_disk(registry, d),
    ensures
        agrees(init(root, registry, candidates), d),
{
}

/// A step that is reported truthfully keeps state and disk in agreement.
pub proof fn lemma_next_agrees(s: ImporterView, d: DiskView, e: EventView)
    requires
        inv(s),
        agrees(s, d),
        truthful(d, pending(s), e),
    ensures
        agrees(next(s, e), effect(d, pending(s), e)),
{
    let t = next(s, e);
    let after = effect(d, pending(s), e);
    lemma_next_inv(s, e);
    match s.stage {
        Stage::CreatingDirectory => {
            if e == EventView::Succeeded {
                lemma_file_name_plain(current(s));
                match file_name(current(s)) {
                    Some(name) => {
                        assert(!holds(d, join(s.destination, name)));
                    },
                    None => {},
                }
            }
        },
        Stage::Copying => {
            if e == EventView::Succeeded {
                assert(after.files == d.files.insert(s.target, d.files[current(s)]));
                assert forall|i: int| 0 <= i < t.registry.len() implies holds_key(
                    after,
                    (#[trigger] t.registry[i]).container_path,
                    t.registry[i].identity,
                ) && t.registry[i].container_path != t.target by {
                    assert(holds_key(d, s.registry[i].container_path, s.registry[i].identity));
                }
            }
        },
        Stage::Discarding => {
            assert forall|i: int| 0 <= i < t.registry.len() implies holds_key(
                after,
                (#[trigger] t.registry[i]).container_path,
                t.registry[i].identity,
            ) by {
                assert(holds_key(d, s.registry[i].container_path, s.registry[i].identity));
            }
        },
        Stage::Removing => {
            if e == EventView::Succeeded {
                assert(after.files == d.files.remove(current(s)));
                assert forall|i: int| 0 <= i < t.registry.len() implies holds_key(
                    after,
                    (#[trigger] t.registry[i]).container_path,
                    t.registry[i].identity,
                ) by {
                    if i < s.registry.len() {
                        assert(holds_key(d, s.registry[i].container_path, s.registry[i].identity));
                        assert(s.registry[i].identity != s.pubkey);
                    }
                }
            }
        },
        Stage::RollingBack => {
            assert forall|i: int| 0 <= i < t.registry.len() implies holds_key(
                after,
                (#[trigger] t.registry[i]).container_path,
                t.registry[i].identity,
            ) by {
                assert(holds_key(d, s.registry[i].container_path, s.registry[i].identity));
            }
        },
        _ => {},
    }
}

/// Whether the relocation of the current candidate has got as far as the
/// copy, so that the state tells where the container lies.
pub open spec fn relocation_begun(s: ImporterView) -> bool {
    copied(s.stage) || s.stage == Stage::Saving || failed_at(s, Fault::RemovalFailed)
        || failed_at(s, Fault::RollbackFailed) || failed_at(s, Fault::SaveFailed) || failed_at(
        s,
        Fault::SourceVanished,
    )
}

/// What the state tells of where the container lies is what is on disk.
pub proof fn lemma_placement_on_disk(s: ImporterView, d: DiskView)
    requires
        inv(s),
        agrees(s, d),
        relocation_begun(s),
    ensures
        s.placement == Placement::Source <==> holds(d, current(s)) && !holds(d, s.target),
        s.placement == Placement::Both <==> holds(d, current(s)) && holds(d, s.target),
        s.placement == Placement::Destination <==> !holds(d, current(s)) && holds(d, s.target),
{
}

/// Whether each event of `events` is a truthful report of what the driver
/// did on the disk as it then was.
pub open spec fn truthful_run(s: ImporterView, d: DiskView, events: Seq<EventView>) -> bool
    decreases events.len(),
{
    if events.len() == 0 {
        true
    } else {
        truthful(d, pending(s), events.first()) && truthful_run(
            next(s, events.first()),
            effect(d, pending(s), events.first()),
            events.drop_first(),
        )
    }
}

/// The disk after the events of a run.
pub open spec fn disk_after(s: ImporterView, d: DiskView, events: Seq<EventView>) -> DiskView
    decreases events.len(),
{
    if events.len() == 0 {
        d
    } else {
        disk_after(
            next(s, events.first()),
            effect(d, pending(s), events.first()),
            events.drop_first(),
        )
    }
}

/// A run that is reported truthfully keeps state and disk in agreement.
pub proof fn lemma_run_agrees(s: ImporterView, d: DiskView, events: Seq<EventView>)
    requires
        inv(s),
        agrees(s, d),
        truthful_run(s, d, events),
    ensures
        agrees(crate::model::run(s, events), disk_after(s, d, events)),
    decreases events.len(),
{
    if events.len() > 0 {
        lemma_next_inv(s, events.first());
        lemma_next_agrees(s, d, events.first());
        lemma_run_agrees(
            next(s, events.first()),
            effect(d, pending(s), events.first()),
            events.drop_first(),
        );
    }
}

/// On a disk that only the import writes to, with a driver that reports
/// truthfully, a container is never left in two places and the registry never
/// names a path that holds no container. In every state of such a run each
/// definition of the registry is for the key whose container lies at its
/// path; once a key is in the registry its container lies in the key's
/// directory and no longer where it was found; and once an import was taken
/// back the container lies where it was found and not in the key's
/// directory.
pub proof fn lemma_disk_consistent(
    root: Seq<char>,
    registry: Seq<DefinitionView>,
    candidates: Seq<Seq<char>>,
    d: DiskView,
    events: Seq<EventView>,
)
    requires
        distinct_identities(registry),
        registry_on_disk(registry, d),
        truthful_run(init(root, registry, candidates), d, events),
    ensures
        ({
            let s = crate::model::run(init(root, registry, candidates), events);
            let after = disk_after(init(root, registry, candidates), d, events);
            &&& registry_on_disk(s.registry, after)
            &&& s.stage == Stage::Saving ==> holds_key(after, s.target, s.pubkey) && !holds(
                after,
                current(s),
            )
            &&& failed_at(s, Fault::RemovalFailed) ==> holds_key(after, current(s), s.pubkey)
                && !holds(after, s.target)
        }),
{
    lemma_init_inv(root, registry, candidates);
    lemma_init_agrees(root, registry, candidates, d);
    lemma_run_agrees(init(root, registry, candidates), d, events);
}

} // verus!
