use vstd::prelude::*;
use crate::query::WordQuery;

verus! {

/// A dictionary entry as it is cached and shown.
#[derive(Clone, Debug)]
pub struct SingleEntry {
    pub pronunciation: Vec<(String, String)>,
    pub brief: Vec<String>,
    pub variants: Vec<String>,
    pub authority: Vec<String>,
    pub sentence: Vec<(String, String)>,
}

impl SingleEntry {
    /// All five fields are empty: the word has no entry.
    pub open spec fn spec_not_found(&self) -> bool {
        &&& self.pronunciation@.len() == 0
        &&& self.brief@.len() == 0
        &&& self.variants@.len() == 0
        &&& self.authority@.len() == 0
        &&& self.sentence@.len() == 0
    }

    /// Whether the entry is empty, the one signal that the word was not found.
    pub fn not_found(&self) -> (r: bool)
        ensures
            r == self.spec_not_found(),
    {
        self.pronunciation.len() == 0 && self.brief.len() == 0 && self.variants.len() == 0
            && self.authority.len() == 0 && self.sentence.len() == 0
    }

    /// The entry that holds the fields of an extracted record.
    pub fn from_query(q: WordQuery) -> (r: SingleEntry)
        ensures
            r.pronunciation.deep_view() == q.pronunciation.deep_view(),
            r.brief.deep_view() == q.brief.deep_view(),
            r.variants.deep_view() == q.variants.deep_view(),
            r.authority.deep_view() == q.authority.deep_view(),
            r.sentence.deep_view() == q.sentence.deep_view(),
    {
        SingleEntry {
            pronunciation: q.pronunciation,
            brief: q.brief,
            variants: q.variants,
            authority: q.authority,
            sentence: q.sentence,
        }
    }
}

/// An entry is not found exactly when the record it was built from is empty.
pub proof fn lemma_not_found_iff_empty(q: WordQuery, e: SingleEntry)
    requires
        e.pronunciation.deep_view() == q.pronunciation.deep_view(),
        e.brief.deep_view() == q.brief.deep_view(),
        e.variants.deep_view() == q.variants.deep_view(),
        e.authority.deep_view() == q.authority.deep_view(),
        e.sentence.deep_view() == q.sentence.deep_view(),
    ensures
        e.spec_not_found() == q.spec_is_empty(),
{
    assert(e.pronunciation.deep_view().len() == e.pronunciation@.len());
    assert(q.pronunciation.deep_view().len() == q.pronunciation@.len());
    assert(e.brief.deep_view().len() == e.brief@.len());
    assert(q.brief.deep_view().len() == q.brief@.len());
    assert(e.variants.deep_view().len() == e.variants@.len());
    assert(q.variants.deep_view().len() == q.variants@.len());
    assert(e.authority.deep_view().len() == e.authority@.len());
    assert(q.authority.deep_view().len() == q.authority@.len());
    assert(e.sentence.deep_view().len() == e.sentence@.len());
    assert(q.sentence.deep_view().len() == q.sentence@.len());
}

} // verus!
