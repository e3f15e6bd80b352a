//! The search index over log-group names.
//!
//! The index wraps `indicium`'s `SearchIndex`, keyed by the position of each
//! name in the log-group list. Its contents are modelled by the
//! uninterpreted map `index_entries`; the trusted methods below state, over
//! that map, what `indicium`'s calls do. `aligned` is the positional
//! invariant the rest of the library maintains: the index holds exactly one
//! entry per valid position, and that entry is the name at that position.

use indicium::simple::SearchIndex;
use vstd::prelude::*;

verus! {

/// The incremental text index used for substring and fuzzy filtering of
/// log-group names. The verifier sees it only through `index_entries`.
#[verifier::external_body]
pub struct LogGroupIndex {
    inner: SearchIndex<usize>,
}

/// The records held by a search index: each position is mapped to the one
/// name that was indexed under it.
pub uninterp spec fn index_entries(idx: LogGroupIndex) -> Map<int, Seq<char>>;

/// The positional-consistency invariant: the index holds an entry for
/// exactly the valid positions of `names`, and position `i` is mapped to
/// `names[i]`.
pub open spec fn aligned(entries: Map<int, Seq<char>>, names: Seq<Seq<char>>) -> bool {
    &&& forall|i: int| #[trigger] entries.contains_key(i) <==> 0 <= i < names.len()
    &&& forall|i: int| 0 <= i < names.len() ==> #[trigger] entries[i] == names[i]
}

impl LogGroupIndex {
    /// Relies on indicium's `SearchIndex::default`: a newly built index
    /// holds no records.
    #[verifier::external_body]
    pub(crate) fn new() -> (idx: LogGroupIndex)
        ensures
            forall|k: int| !index_entries(idx).contains_key(k),
    {
        LogGroupIndex { inner: SearchIndex::default() }
    }

    /// Relies on indicium's `SearchIndex::insert`: it indexes `name` under
    /// the key `pos` and leaves every record with another key as it was.
    #[verifier::external_body]
    pub(crate) fn insert(&mut self, pos: usize, name: &String)
        requires
            !index_entries(*old(self)).contains_key(pos as int),
        ensures
            index_entries(*final(self)) == index_entries(*old(self)).insert(pos as int, name@),
    {
        self.inner.insert(&pos, name)
    }

    /// Relies on indicium's `SearchIndex::search`: every key it returns
    /// belongs to a record that was inserted into the index.
    #[verifier::external_body]
    pub fn search(&self, what: &String) -> (keys: Vec<usize>)
        ensures
            forall|i: int|
                0 <= i < keys@.len() ==> index_entries(*self).contains_key(
                    #[trigger] keys@[i] as int,
                ),
    {
        self.inner.search(what).into_iter().copied().collect()
    }

    /// Indexes `entries` under the positions that follow `starting_position`:
    /// the incremental extension used when a later page of the same refresh
    /// is appended to the log-group list. Sound only while every position
    /// already present lies below `starting_position` — that is, while all
    /// pages come from one refresh and arrive in order.
    pub fn append(&mut self, entries: &Vec<String>, starting_position: usize)
        requires
            forall|k: int|
                #[trigger] index_entries(*old(self)).contains_key(k) ==> 0 <= k
                    < starting_position,
            starting_position + entries@.len() <= usize::MAX,
        ensures
            forall|k: int|
                #[trigger] index_entries(*final(self)).contains_key(k) <==> (index_entries(
                    *old(self),
                ).contains_key(k) || starting_position <= k < starting_position
                    + entries@.len()),
            forall|k: int|
                #[trigger] index_entries(*old(self)).contains_key(k) ==> index_entries(
                    *final(self),
                )[k] == index_entries(*old(self))[k],
            forall|j: int|
                0 <= j < entries@.len() ==> #[trigger] index_entries(*final(self))[
                    starting_position + j
                ] == entries.deep_view()[j],
    {
        let mut j: usize = 0;
        while j < entries.len()
            invariant
                j <= entries@.len(),
                starting_position + entries@.len() <= usize::MAX,
                forall|k: int|
                    #[trigger] index_entries(*old(self)).contains_key(k) ==> 0 <= k
                        < starting_position,
                forall|k: int|
                    #[trigger] index_entries(*self).contains_key(k) <==> (index_entries(
                        *old(self),
                    ).contains_key(k) || starting_position <= k < starting_position + j),
                forall|k: int|
                    #[trigger] index_entries(*old(self)).contains_key(k) ==> index_entries(
                        *self,
                    )[k] == index_entries(*old(self))[k],
                forall|jj: int|
                    0 <= jj < j ==> #[trigger] index_entries(*self)[starting_position + jj]
                        == entries.deep_view()[jj],
            decreases entries@.len() - j,
        {
            self.insert(starting_position + j, &entries[j]);
            j += 1;
        }
    }

    /// Builds a fresh index over `names`, keyed by position: the full
    /// reconstruction used on the first page of a listing refresh.
    pub fn rebuild(names: &Vec<String>) -> (idx: LogGroupIndex)
        ensures
            aligned(index_entries(idx), names.deep_view()),
    {
        let mut idx = LogGroupIndex::new();
        let mut i: usize = 0;
        while i < names.len()
            invariant
                i <= names@.len(),
                forall|j: int| #[trigger] index_entries(idx).contains_key(j) <==> 0 <= j < i,
                forall|j: int|
                    0 <= j < i ==> #[trigger] index_entries(idx)[j] == names.deep_view()[j],
            decreases names@.len() - i,
        {
            idx.insert(i, &names[i]);
            i += 1;
        }
        idx
    }
}

} // verus!
