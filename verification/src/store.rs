//! The store of pending changesets, as far as clearing it is decided here.
//!
//! Once a release has folded the changesets into the changelog, every file
//! directly in the store is deleted. What is not a regular file is left
//! where it is.

use crate::text::texts;
use vstd::prelude::*;
use vstd::string::*;

verus! {

/// One entry of the store directory.
#[derive(Clone, Debug, PartialEq, Eq)]
pub struct StoreEntry {
    /// The entry's path.
    pub path: String,
    /// Whether the entry is a regular file.
    pub is_file: bool,
}

/// The model of a [`StoreEntry`].
pub struct StoreEntryModel {
    pub path: Seq<char>,
    pub is_file: bool,
}

impl View for StoreEntry {
    type V = StoreEntryModel;

    open spec fn view(&self) -> StoreEntryModel {
        StoreEntryModel { path: self.path@, is_file: self.is_file }
    }
}

/// The models of a listing.
pub open spec fn entry_models(entries: Seq<StoreEntry>) -> Seq<StoreEntryModel> {
    entries.map_values(|e: StoreEntry| e@)
}

/// The regular files of a listing, in order.
pub open spec fn files_among(entries: Seq<StoreEntryModel>) -> Seq<StoreEntryModel> {
    entries.filter(|e: StoreEntryModel| e.is_file)
}

/// The paths to delete: those of the regular files, in the order of the
/// listing.
pub open spec fn doomed(entries: Seq<StoreEntryModel>) -> Seq<Seq<char>> {
    files_among(entries).map_values(|e: StoreEntryModel| e.path)
}

/// What is left of a listing once its regular files are deleted.
pub open spec fn left_over(entries: Seq<StoreEntryModel>) -> Seq<StoreEntryModel> {
    entries.filter(|e: StoreEntryModel| !e.is_file)
}

/// The paths to delete when the store is cleared, in the order in which
/// they are to be deleted.
pub fn delete_changesets(entries: &Vec<StoreEntry>) -> (paths: Vec<String>)
    ensures
        texts(paths@) == doomed(entry_models(entries@)),
{
    let ghost all = entry_models(entries@);
    let mut paths: Vec<String> = Vec::new();
    let mut at: usize = 0;
    proof {
        reveal(Seq::filter);
        assert(all.take(0) =~= Seq::<StoreEntryModel>::empty());
        assert(texts(paths@) =~= doomed(all.take(0)));
    }
    while at < entries.len()
        invariant
            at <= entries.len(),
            all == entry_models(entries@),
            texts(paths@) == doomed(all.take(at as int)),
        decreases entries.len() - at,
    {
        proof {
            reveal(Seq::filter);
            assert(all.take(at + 1).drop_last() =~= all.take(at as int));
            assert(all.take(at + 1).last() == entries@[at as int]@);
        }
        if entries[at].is_file {
            let ghost before = paths@;
            paths.push(entries[at].path.clone());
            proof {
                assert(texts(paths@) =~= texts(before).push(entries@[at as int]@.path));
                assert(doomed(all.take(at + 1)) =~= doomed(all.take(at as int)).push(
                    entries@[at as int]@.path,
                ));
            }
        }
        at += 1;
    }
    assert(all.take(at as int) =~= all);
    paths
}

/// Clearing a store that holds no regular file deletes nothing.
pub proof fn lemma_nothing_to_delete(entries: Seq<StoreEntryModel>)
    requires
        forall|i: int| 0 <= i < entries.len() ==> !(#[trigger] entries[i]).is_file,
    ensures
        doomed(entries).len() == 0,
    decreases entries.len(),
{
    reveal(Seq::filter);
    if entries.len() > 0 {
        let before = entries.drop_last();
        assert forall|i: int| 0 <= i < before.len() implies !(#[trigger] before[i]).is_file by {
            assert(before[i] == entries[i]);
        }
        lemma_nothing_to_delete(before);
    }
}

/// Once a store is cleared, clearing it again deletes nothing: what is left
/// over holds no regular file.
pub proof fn lemma_cleared_store_stays_clear(entries: Seq<StoreEntryModel>)
    ensures
        doomed(left_over(entries)).len() == 0,
{
    let rest = left_over(entries);
    assert forall|i: int| 0 <= i < rest.len() implies !(#[trigger] rest[i]).is_file by {
        entries.lemma_filter_pred(|e: StoreEntryModel| !e.is_file, i);
    }
    lemma_nothing_to_delete(rest);
}

} // verus!
