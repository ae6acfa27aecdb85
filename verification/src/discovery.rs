//! Finding the containers to import: either the one file that the caller
//! names, or every file under a directory whose name marks it as a keystore.
//!
//! The caller lists the files of the directory tree; which of them count, and
//! in what order they are taken, is decided here.

use crate::error::{Fault, ImportError, ImportErrorView};
use crate::paths::{file_name, file_name_exec};
use crate::text::{
    chars_of, contains, contains_exec, ends_with, ends_with_exec, lemma_lex_le_total_order,
    lex_le, lex_le_exec, text_order,
};
use vstd::prelude::*;
use vstd::relations::sorted_by;

verus! {

/// Where the containers come from.
#[derive(Clone, Debug, PartialEq, Eq)]
pub enum Source {
    /// One file, named by the caller.
    Single(String),
    /// Every keystore file below a directory.
    Directory(String),
}

/// A [`Source`] as a mathematical value.
pub enum SourceView {
    Single(Seq<char>),
    Directory(Seq<char>),
}

impl View for Source {
    type V = SourceView;

    open spec fn view(&self) -> SourceView {
        match self {
            Source::Single(path) => SourceView::Single(path@),
            Source::Directory(path) => SourceView::Directory(path@),
        }
    }
}

/// The error for a selection that names no source, or two.
pub open spec fn no_source() -> ImportErrorView {
    ImportErrorView { fault: Fault::NoSource, path: ""@, cause: ""@ }
}

/// The source that a selection stands for: exactly one of the two must be
/// given.
pub open spec fn selected(keystore: Option<Seq<char>>, directory: Option<Seq<char>>) -> Result<
    SourceView,
    ImportErrorView,
> {
    match (keystore, directory) {
        (Some(path), None) => Ok(SourceView::Single(path)),
        (None, Some(path)) => Ok(SourceView::Directory(path)),
        _ => Err(no_source()),
    }
}

/// An optional text as a mathematical value.
pub open spec fn text_view(text: Option<String>) -> Option<Seq<char>> {
    match text {
        Some(t) => Some(t@),
        None => None,
    }
}

/// A result of selecting a source as a mathematical value.
pub open spec fn selection_view(out: Result<Source, ImportError>) -> Result<
    SourceView,
    ImportErrorView,
> {
    match out {
        Ok(source) => Ok(source@),
        Err(e) => Err(e@),
    }
}

/// Decides the source from what the caller selected. Selecting both a file
/// and a directory, or neither, is refused.
pub fn select_source(keystore: Option<String>, directory: Option<String>) -> (out: Result<
    Source,
    ImportError,
>)
    ensures
        selection_view(out) == selected(text_view(keystore), text_view(directory)),
{
    match (keystore, directory) {
        (Some(path), None) => Ok(Source::Single(path)),
        (None, Some(path)) => Ok(Source::Directory(path)),
        _ => Err(ImportError::new(Fault::NoSource, "", "")),
    }
}

/// Whether a file name marks a keystore: it contains `keystore` and ends
/// with `.json`.
pub open spec fn is_keystore_name(name: Seq<char>) -> bool {
    contains(name, "keystore"@) && ends_with(name, ".json"@)
}

/// Whether the file at `path` is a candidate for import: its file name marks
/// a keystore.
pub open spec fn qualifies(path: Seq<char>) -> bool {
    match file_name(path) {
        Some(name) => is_keystore_name(name),
        None => false,
    }
}

/// The candidates among `listing`, in the order of the listing.
pub open spec fn qualifying(listing: Seq<Seq<char>>) -> Seq<Seq<char>>
    decreases listing.len(),
{
    if listing.len() == 0 {
        Seq::empty()
    } else if qualifies(listing.last()) {
        qualifying(listing.drop_last()).push(listing.last())
    } else {
        qualifying(listing.drop_last())
    }
}

/// The candidates among `listing`, in the order in which they are imported:
/// the order of `str`.
pub open spec fn discovered(listing: Seq<Seq<char>>) -> Seq<Seq<char>> {
    qualifying(listing).sort_by(text_order())
}

/// Whether the file at `path` is a candidate for import.
pub fn qualifies_exec(path: &str) -> (yes: bool)
    ensures
        yes == qualifies(path@),
{
    match file_name_exec(path) {
        Some(name) => {
            let text: Vec<char> = chars_of(name.as_str());
            let marker: Vec<char> = chars_of("keystore");
            let extension: Vec<char> = chars_of(".json");
            contains_exec(&text, &marker) && ends_with_exec(&text, &extension)
        },
        None => false,
    }
}

/// Puts `item` into the sorted list `sorted`, after everything that does not
/// come after it.
fn insert_sorted(sorted: &mut Vec<String>, item: String)
    requires
        sorted_by(old(sorted).deep_view(), text_order()),
    ensures
        sorted_by(final(sorted).deep_view(), text_order()),
        final(sorted).deep_view().to_multiset() == old(sorted).deep_view().to_multiset().insert(
            item@,
        ),
{
    let key: Vec<char> = chars_of(item.as_str());
    let mut at: usize = 0;
    while at < sorted.len()
        invariant
            at <= sorted.len(),
            key@ == item@,
            *sorted == *old(sorted),
            forall|k: int| 0 <= k < at ==> lex_le(#[trigger] sorted.deep_view()[k], item@),
        ensures
            at == sorted.len() || !lex_le(sorted.deep_view()[at as int], item@),
        decreases sorted.len() - at,
    {
        let other: Vec<char> = chars_of(sorted[at].as_str());
        if !lex_le_exec(&other, &key) {
            break;
        }
        at = at + 1;
    }
    let ghost before = sorted.deep_view();
    sorted.insert(at, item);
    proof {
        let after = sorted.deep_view();
        lemma_lex_le_total_order();
        assert(after =~= before.insert(at as int, item@));
        vstd::seq_lib::to_multiset_insert(before, at as int, item@);
        assert forall|i: int, j: int| 0 <= i < j < after.len() implies text_order()(
            after[i],
            after[j],
        ) by {
            if j < at {
                assert(text_order()(before[i], before[j]));
            } else if j == at {
                assert(lex_le(before[i], item@));
            } else if i == at {
                assert(at < before.len());
                assert(!lex_le(before[at as int], item@));
                assert(text_order()(before[at as int], item@) || text_order()(
                    item@,
                    before[at as int],
                ));
                if j - 1 > at {
                    assert(text_order()(before[at as int], before[j - 1]));
                    assert(text_order()(item@, before[at as int]) && text_order()(
                        before[at as int],
                        before[j - 1],
                    ) ==> text_order()(item@, before[j - 1]));
                }
            } else if i < at {
                assert(text_order()(before[i], before[j - 1]));
            } else {
                assert(text_order()(before[i - 1], before[j - 1]));
            }
        }
    }
}

/// The candidates among the files of `listing`, in the order in which they
/// are to be imported. The order of `listing` does not matter.
pub fn discover(listing: &Vec<String>) -> (out: Vec<String>)
    ensures
        out.deep_view() == discovered(listing.deep_view()),
{
    let mut out: Vec<String> = Vec::new();
    let mut i: usize = 0;
    assert(listing.deep_view().take(0) =~= Seq::<Seq<char>>::empty());
    assert(out.deep_view() =~= Seq::<Seq<char>>::empty());
    while i < listing.len()
        invariant
            i <= listing.len(),
            sorted_by(out.deep_view(), text_order()),
            out.deep_view().to_multiset() == qualifying(
                listing.deep_view().take(i as int),
            ).to_multiset(),
        decreases listing.len() - i,
    {
        proof {
            let next = listing.deep_view().take(i + 1);
            assert(next.drop_last() =~= listing.deep_view().take(i as int));
            assert(next.last() == listing@[i as int]@);
        }
        if qualifies_exec(listing[i].as_str()) {
            proof {
                vstd::seq_lib::to_multiset_build(
                    qualifying(listing.deep_view().take(i as int)),
                    listing@[i as int]@,
                );
            }
            insert_sorted(&mut out, listing[i].clone());
        }
        i = i + 1;
    }
    proof {
        assert(listing.deep_view().take(i as int) =~= listing.deep_view());
        let wanted = qualifying(listing.deep_view());
        lemma_lex_le_total_order();
        wanted.lemma_sort_by_ensures(text_order());
        vstd::seq_lib::lemma_sorted_unique(
            out.deep_view(),
            wanted.sort_by(text_order()),
            text_order(),
        );
    }
    out
}

/// The candidates of a source: the one file that was named, whether or not
/// it exists, or what is discovered among the files below the directory.
pub open spec fn candidates_of(source: SourceView, listing: Seq<Seq<char>>) -> Seq<Seq<char>> {
    match source {
        SourceView::Single(path) => seq![path],
        SourceView::Directory(_) => discovered(listing),
    }
}

/// The candidates to import from `source`, in order. For a directory,
/// `listing` holds the files below it, in any order; for a single file it is
/// not looked at.
pub fn candidates(source: &Source, listing: &Vec<String>) -> (out: Vec<String>)
    ensures
        out.deep_view() == candidates_of(source@, listing.deep_view()),
{
    match source {
        Source::Single(path) => {
            let mut out: Vec<String> = Vec::new();
            out.push(path.clone());
            assert(out.deep_view() =~= seq![path@]);
            out
        },
        Source::Directory(_) => discover(listing),
    }
}

/// How often a path occurs among the candidates of a listing: as often as in
/// the listing if it qualifies, and never if it does not.
pub proof fn lemma_qualifying_count(listing: Seq<Seq<char>>, path: Seq<char>)
    ensures
        qualifying(listing).to_multiset().count(path) == if qualifies(path) {
            listing.to_multiset().count(path)
        } else {
            0
        },
    decreases listing.len(),
{
    broadcast use vstd::multiset::group_multiset_axioms;

    if listing.len() == 0 {
        listing.to_multiset_ensures();
        qualifying(listing).to_multiset_ensures();
        assert(listing.to_multiset().len() == 0);
        assert(qualifying(listing).to_multiset().len() == 0);
    } else {
        let rest = listing.drop_last();
        let last = listing.last();
        lemma_qualifying_count(rest, path);
        assert(listing =~= rest.push(last));
        vstd::seq_lib::to_multiset_build(rest, last);
        if qualifies(last) {
            vstd::seq_lib::to_multiset_build(qualifying(rest), last);
        }
    }
}

/// Discovery depends on which files the tree holds, not on the order in which
/// they were listed: two listings of the same files give the same candidates
/// in the same order.
pub proof fn lemma_discovery_ignores_listing_order(a: Seq<Seq<char>>, b: Seq<Seq<char>>)
    requires
        a.to_multiset() == b.to_multiset(),
    ensures
        discovered(a) == discovered(b),
{
    assert forall|path: Seq<char>|
        qualifying(a).to_multiset().count(path) == qualifying(b).to_multiset().count(path) by {
        lemma_qualifying_count(a, path);
        lemma_qualifying_count(b, path);
    }
    assert(qualifying(a).to_multiset() =~= qualifying(b).to_multiset());
    lemma_lex_le_total_order();
    qualifying(a).lemma_sort_by_ensures(text_order());
    qualifying(b).lemma_sort_by_ensures(text_order());
    vstd::seq_lib::lemma_sorted_unique(discovered(a), discovered(b), text_order());
}

/// What discovery returns is in the order of `str`, and holds exactly the
/// candidates of the listing, each as often as the listing does.
pub proof fn lemma_discovered_sorted(listing: Seq<Seq<char>>)
    ensures
        sorted_by(discovered(listing), text_order()),
        discovered(listing).to_multiset() == qualifying(listing).to_multiset(),
        discovered(listing).len() == qualifying(listing).len(),
{
    lemma_lex_le_total_order();
    qualifying(listing).lemma_sort_by_ensures(text_order());
    discovered(listing).to_multiset_ensures();
    qualifying(listing).to_multiset_ensures();
}

/// A listing without a qualifying file has no candidates.
pub proof fn lemma_nothing_qualifies(listing: Seq<Seq<char>>)
    requires
        forall|i: int| 0 <= i < listing.len() ==> !qualifies(#[trigger] listing[i]),
    ensures
        discovered(listing) == Seq::<Seq<char>>::empty(),
    decreases listing.len(),
{
    lemma_none_qualifying(listing);
    lemma_discovered_sorted(listing);
    assert(discovered(listing) =~= Seq::<Seq<char>>::empty());
}

proof fn lemma_none_qualifying(listing: Seq<Seq<char>>)
    requires
        forall|i: int| 0 <= i < listing.len() ==> !qualifies(#[trigger] listing[i]),
    ensures
        qualifying(listing).len() == 0,
    decreases listing.len(),
{
    if listing.len() > 0 {
        assert(!qualifies(listing[listing.len() - 1]));
        assert forall|i: int| 0 <= i < listing.drop_last().len() implies !qualifies(
            #[trigger] listing.drop_last()[i],
        ) by {
            assert(listing.drop_last()[i] == listing[i]);
        }
        lemma_none_qualifying(listing.drop_last());
    }
}

} // verus!
