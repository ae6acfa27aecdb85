//! What holds of every run of imports, proved from the protocol.

use crate::discovery::{discovered, lemma_nothing_qualifies, qualifies};
use crate::error::{Fault, ImportErrorView};
use crate::model::{
    current, init, inv, lemma_init_inv, lemma_next_inv, lemma_run_inv, next, pending, resolved,
    run, ActionView, EventView, ImporterView, Placement, Stage,
};
use crate::paths::{destination_dir, lemma_destination_dir_injective, relocated};
use crate::registry::{distinct_identities, has_identity, DefinitionView};
use vstd::prelude::*;

verus! {

/// Whether the state has the run given up at `fault`.
pub open spec fn failed_at(s: ImporterView, fault: Fault) -> bool {
    s.stage == Stage::Failed && s.error.is_some() && s.error.unwrap().fault == fault
}

/// The stages between the copy and the removal of the original.
pub open spec fn relocation_in_flight(stage: Stage) -> bool {
    stage == Stage::Removing || stage == Stage::ProbingOriginal || stage == Stage::RollingBack
}

/// A container is never left in two places. In every state of every run:
/// once the key is in the registry, the container lies in the key's directory
/// and nowhere else; once an import was taken back, it lies where it was
/// found and nowhere else. It lies in both places only between the copy and
/// the removal of the original, or after the copy could not be taken back,
/// which ends the run with that fault.
pub proof fn lemma_no_duplication(
    root: Seq<char>,
    registry: Seq<DefinitionView>,
    candidates: Seq<Seq<char>>,
    events: Seq<EventView>,
)
    requires
        distinct_identities(registry),
    ensures
        ({
            let s = run(init(root, registry, candidates), events);
            &&& s.stage == Stage::Saving ==> s.placement == Placement::Destination
            &&& failed_at(s, Fault::RemovalFailed) ==> s.placement == Placement::Source
            &&& s.placement == Placement::Both ==> relocation_in_flight(s.stage) || failed_at(
                s,
                Fault::RollbackFailed,
            )
        }),
{
    lemma_init_inv(root, registry, candidates);
    lemma_run_inv(init(root, registry, candidates), events);
}

/// The container is in two places only after a successful copy, and a step
/// that ends the relocation leaves it in one: with the original removed it is
/// in the key's directory, with the copy taken back it is where it was found.
pub proof fn lemma_relocation_ends_in_one_place(s: ImporterView, e: EventView)
    requires
        inv(s),
    ensures
        ({
            let t = next(s, e);
            &&& t.placement == Placement::Both && s.placement != Placement::Both ==> s.stage
                == Stage::Copying && e == EventView::Succeeded
            &&& s.stage == Stage::Removing && e == EventView::Succeeded ==> t.placement
                == Placement::Destination
            &&& s.stage == Stage::RollingBack && e == EventView::Succeeded ==> t.placement
                == Placement::Source
        }),
{
}

/// How far a run has got with the registry it began with: the definitions
/// that were there stay first and unchanged, and behind them comes one
/// definition for each candidate that was imported, in order, each enabled,
/// for the key that lies in the directory named after it, under the
/// candidate's file name.
pub open spec fn accounted(
    s: ImporterView,
    root: Seq<char>,
    registry: Seq<DefinitionView>,
    candidates: Seq<Seq<char>>,
) -> bool {
    let added = s.imported + if s.stage == Stage::Saving || failed_at(s, Fault::SaveFailed) {
        1nat
    } else {
        0nat
    };
    &&& s.root == root
    &&& s.candidates == candidates
    &&& s.registry.len() == registry.len() + added
    &&& s.registry.take(registry.len() as int) == registry
    &&& forall|k: int|
        0 <= k < added ==> {
            let d = #[trigger] s.registry[registry.len() + k];
            &&& d.enabled
            &&& relocated(destination_dir(root, d.identity), candidates[k]) == Some(
                d.container_path,
            )
        }
}

/// Every transition keeps the account of the registry.
pub proof fn lemma_next_accounted(
    s: ImporterView,
    e: EventView,
    root: Seq<char>,
    registry: Seq<DefinitionView>,
    candidates: Seq<Seq<char>>,
)
    requires
        inv(s),
        accounted(s, root, registry, candidates),
    ensures
        accounted(next(s, e), root, registry, candidates),
{
    let t = next(s, e);
    assert(t.registry.take(registry.len() as int) =~= s.registry.take(registry.len() as int));
}

/// Every run keeps the account of the registry.
pub proof fn lemma_run_accounted(
    s: ImporterView,
    events: Seq<EventView>,
    root: Seq<char>,
    registry: Seq<DefinitionView>,
    candidates: Seq<Seq<char>>,
)
    requires
        inv(s),
        accounted(s, root, registry, candidates),
    ensures
        accounted(run(s, events), root, registry, candidates),
    decreases events.len(),
{
    if events.len() > 0 {
        lemma_next_inv(s, events.first());
        lemma_next_accounted(s, events.first(), root, registry, candidates);
        lemma_run_accounted(next(s, events.first()), events.drop_first(), root, registry, candidates);
    }
}

/// The registry is consistent with what was imported. In every state of
/// every run no identity occurs twice, and the registry is accounted for;
/// after a run that imported all of its candidates the registry holds what it
/// held before and one definition more for each candidate.
pub proof fn lemma_registry_consistent(
    root: Seq<char>,
    registry: Seq<DefinitionView>,
    candidates: Seq<Seq<char>>,
    events: Seq<EventView>,
)
    requires
        distinct_identities(registry),
    ensures
        ({
            let s = run(init(root, registry, candidates), events);
            &&& distinct_identities(s.registry)
            &&& accounted(s, root, registry, candidates)
            &&& s.stage == Stage::Finished ==> s.imported == candidates.len() && s.registry.len()
                == registry.len() + candidates.len()
        }),
{
    let s0 = init(root, registry, candidates);
    lemma_init_inv(root, registry, candidates);
    assert(s0.registry.take(registry.len() as int) =~= registry);
    lemma_run_inv(s0, events);
    lemma_run_accounted(s0, events, root, registry, candidates);
}

/// Two definitions of the registry never name the same directory: the keys'
/// directories are as distinct as their identities.
pub proof fn lemma_directories_distinct(s: ImporterView, i: int, j: int)
    requires
        inv(s),
        0 <= i < j < s.registry.len(),
    ensures
        destination_dir(s.root, s.registry[i].identity) != destination_dir(
            s.root,
            s.registry[j].identity,
        ),
{
    if destination_dir(s.root, s.registry[i].identity) == destination_dir(
        s.root,
        s.registry[j].identity,
    ) {
        lemma_destination_dir_injective(s.root, s.registry[i].identity, s.registry[j].identity);
    }
}

/// Whether carrying out the action changes what is on disk.
pub open spec fn changes_disk(action: ActionView) -> bool {
    match action {
        ActionView::CreateDir(_) => true,
        ActionView::Copy { .. } => true,
        ActionView::Remove(_) => true,
        ActionView::Save => true,
        _ => false,
    }
}

/// A key whose directory exists is refused. The run is given up as a
/// duplicate, the registry stays as it was, nothing is asked of the driver
/// any more, and up to this point nothing on disk was changed for this
/// candidate.
pub proof fn lemma_duplicate_refused(s: ImporterView)
    requires
        inv(s),
        s.stage == Stage::ProbingDestination,
    ensures
        ({
            let t = next(s, EventView::Exists(true));
            &&& t.error == Some(
                ImportErrorView {
                    fault: Fault::AlreadyImported,
                    path: current(s),
                    cause: Seq::empty(),
                },
            )
            &&& t.stage == Stage::Failed
            &&& t.registry == s.registry
            &&& t.imported == s.imported
            &&& pending(t) == ActionView::Stop
            &&& !changes_disk(pending(s))
        }),
{
}

/// A key that the registry already holds is refused as soon as the password
/// question is settled, before its directory is even looked for.
pub proof fn lemma_registered_key_refused(s: ImporterView)
    requires
        inv(s),
        has_identity(s.registry, s.pubkey),
    ensures
        ({
            let t = resolved(s);
            &&& t.stage == Stage::Failed
            &&& t.error == Some(
                ImportErrorView {
                    fault: Fault::AlreadyImported,
                    path: current(s),
                    cause: Seq::empty(),
                },
            )
            &&& t.registry == s.registry
            &&& pending(t) == ActionView::Stop
        }),
{
}

/// Before the key's directory was found to be absent, nothing is asked of
/// the driver that changes the disk.
pub proof fn lemma_nothing_changed_before_probe(s: ImporterView)
    requires
        inv(s),
        changes_disk(pending(s)),
    ensures
        s.stage != Stage::Opening && s.stage != Stage::Parsing && s.stage != Stage::Asking
            && s.stage != Stage::Decrypting && s.stage != Stage::ProbingDestination,
        s.destination == destination_dir(s.root, s.pubkey),
{
}

/// The first failure ends the run: a run that was given up, or that is
/// finished, stays as it is whatever is reported, and asks for nothing.
pub proof fn lemma_ended_run_stays(s: ImporterView, events: Seq<EventView>)
    requires
        s.stage == Stage::Failed || s.stage == Stage::Finished,
    ensures
        run(s, events) == s,
        pending(s) == ActionView::Stop,
    decreases events.len(),
{
    if events.len() > 0 {
        lemma_ended_run_stays(s, events.drop_first());
    }
}

/// A failure leaves the candidates that were imported before it imported:
/// no transition takes a definition out of the registry or changes one, and
/// the count of imported candidates never goes down.
pub proof fn lemma_imports_are_kept(s: ImporterView, e: EventView)
    requires
        inv(s),
    ensures
        ({
            let t = next(s, e);
            &&& t.imported >= s.imported
            &&& t.registry.len() >= s.registry.len()
            &&& t.registry.take(s.registry.len() as int) == s.registry
        }),
{
    let t = next(s, e);
    assert(t.registry.take(s.registry.len() as int) =~= s.registry);
}

/// The registry is saved only after the relocation is done: the only way
/// into the stage that asks for the save is the removal of the original, and
/// the only transition that changes the registry is that one.
pub proof fn lemma_save_follows_relocation(s: ImporterView, e: EventView)
    requires
        inv(s),
    ensures
        ({
            let t = next(s, e);
            &&& pending(t) == ActionView::Save <==> t.stage == Stage::Saving
            &&& t.stage == Stage::Saving && s.stage != Stage::Saving ==> s.stage == Stage::Removing
                && e == EventView::Succeeded && t.placement == Placement::Destination
            &&& t.registry != s.registry ==> s.stage == Stage::Removing && e
                == EventView::Succeeded
        }),
{
}

/// What comes in when the operator offers each password of `wrong` in turn,
/// each found wrong, and then `correct`, found right.
pub open spec fn offers(wrong: Seq<Seq<char>>, correct: Seq<char>) -> Seq<EventView>
    decreases wrong.len(),
{
    if wrong.len() == 0 {
        seq![EventView::Entered(correct), EventView::Succeeded]
    } else {
        seq![EventView::Entered(wrong.first()), EventView::Rejected] + offers(
            wrong.drop_first(),
            correct,
        )
    }
}

/// How many decryptions the driver is asked for while `events` come in: one
/// for each step that leads into the stage that asks for one.
pub open spec fn attempts(s: ImporterView, events: Seq<EventView>) -> nat
    decreases events.len(),
{
    if events.len() == 0 {
        0
    } else {
        let t = next(s, events.first());
        let asked: nat = if s.stage != Stage::Decrypting && t.stage == Stage::Decrypting {
            1
        } else {
            0
        };
        asked + attempts(t, events.drop_first())
    }
}

/// The password loop. An operator who offers wrong passwords and then the
/// right one is asked again after each wrong one; each password that is
/// offered is tried once and no more; and the loop ends with the right one
/// as the password to store.
pub proof fn lemma_password_loop(s: ImporterView, wrong: Seq<Seq<char>>, correct: Seq<char>)
    requires
        inv(s),
        s.stage == Stage::Asking,
        forall|i: int| 0 <= i < wrong.len() ==> (#[trigger] wrong[i]).len() > 0,
        correct.len() > 0,
    ensures
        run(s, offers(wrong, correct)) == resolved(
            ImporterView { password: Some(correct), retry: s.retry || wrong.len() > 0, ..s },
        ),
        attempts(s, offers(wrong, correct)) == wrong.len() + 1,
    decreases wrong.len(),
{
    let events = offers(wrong, correct);
    let first = events.first();
    let s1 = next(s, first);
    let rest = events.drop_first();
    let second = rest.first();
    let s2 = next(s1, second);
    let tail = rest.drop_first();
    assert(events.len() >= 2 && rest.len() >= 1);
    assert(run(s, events) == run(s1, rest));
    assert(run(s1, rest) == run(s2, tail));
    assert(s1.stage == Stage::Decrypting);
    assert(s2.stage != Stage::Decrypting);
    assert(attempts(s, events) == 1 + attempts(s1, rest));
    assert(attempts(s1, rest) == attempts(s2, tail));
    if wrong.len() == 0 {
        assert(tail =~= Seq::<EventView>::empty());
        assert(s2 == resolved(ImporterView { password: Some(correct), retry: s.retry, ..s }));
    } else {
        assert(first == EventView::Entered(wrong[0]));
        assert(second == EventView::Rejected);
        assert(tail =~= offers(wrong.drop_first(), correct));
        assert(s2 == ImporterView { retry: true, ..s });
        lemma_next_inv(s, first);
        lemma_next_inv(s1, second);
        assert forall|i: int| 0 <= i < wrong.drop_first().len() implies (
        #[trigger] wrong.drop_first()[i]).len() > 0 by {
            assert(wrong.drop_first()[i] == wrong[i + 1]);
        }
        lemma_password_loop(s2, wrong.drop_first(), correct);
    }
}

/// An empty answer to the password question settles it without a
/// decryption: the key is imported without a stored password.
pub proof fn lemma_no_password(s: ImporterView)
    requires
        inv(s),
        s.stage == Stage::Asking,
    ensures
        next(s, EventView::Entered(Seq::empty())) == resolved(s),
        next(s, EventView::Entered(Seq::empty())).password.is_none(),
        next(s, EventView::Entered(Seq::empty())).stage != Stage::Decrypting,
{
}

/// A run without candidates is over as it begins: nothing is imported,
/// nothing fails, and the registry is what it was. A directory without a
/// qualifying file gives such a run.
pub proof fn lemma_empty_run(
    root: Seq<char>,
    registry: Seq<DefinitionView>,
    listing: Seq<Seq<char>>,
    events: Seq<EventView>,
)
    requires
        forall|i: int| 0 <= i < listing.len() ==> !qualifies(#[trigger] listing[i]),
    ensures
        ({
            let s = run(init(root, registry, discovered(listing)), events);
            &&& s.stage == Stage::Finished
            &&& s.imported == 0
            &&& s.registry == registry
            &&& s.error.is_none()
            &&& pending(s) == ActionView::Stop
        }),
{
    lemma_nothing_qualifies(listing);
    lemma_ended_run_stays(init(root, registry, discovered(listing)), events);
}

} // verus!
