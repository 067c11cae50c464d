//! The generic checklist-grid model: static reference data describing
//! which questions exist per inspection type, consumed read-only.

use vstd::prelude::*;

verus! {

/// One checklist grid: identity, presentation, and its ordered sections.
#[derive(Debug)]
pub struct GridInfo {
    pub id: String,
    pub name: String,
    pub code: String,
    pub version: String,
    pub description: String,
    pub icon: String,
    pub color: String,
    pub sections: Vec<Section>,
}

/// One ordered section of a grid.
#[derive(Debug)]
pub struct Section {
    pub id: u32,
    pub title: String,
    pub items: Vec<Criterion>,
}

/// One checklist question, identified by a numeric id scoped to its grid.
#[derive(Debug)]
pub struct Criterion {
    pub id: u32,
    pub reference: String,
    pub description: String,
    pub pre_opening: bool,
}

/// Total number of criteria over the sections.
pub open spec fn total_items(ss: Seq<Section>) -> int
    decreases ss.len(),
{
    if ss.len() == 0 {
        0
    } else {
        total_items(ss.drop_last()) + ss.last().items@.len()
    }
}

/// A prefix never counts more criteria than the whole.
pub proof fn lemma_total_items_prefix(ss: Seq<Section>, i: int)
    requires
        0 <= i <= ss.len(),
    ensures
        total_items(ss.subrange(0, i)) <= total_items(ss),
    decreases ss.len() - i,
{
    if i < ss.len() {
        lemma_total_items_prefix(ss, i + 1);
        assert(ss.subrange(0, i + 1).drop_last() =~= ss.subrange(0, i));
        assert(ss.subrange(0, i + 1).last() == ss[i]);
    } else {
        assert(ss.subrange(0, i) =~= ss);
    }
}

/// Hands out criteria with consecutive ids starting at 1.
pub struct CriterionBuilder {
    pub counter: u32,
}

impl CriterionBuilder {
    pub fn new() -> (r: Self)
        ensures
            r.counter == 0,
    {
        Self { counter: 0 }
    }

    /// The next criterion, numbered one past the previous one.
    pub fn next(&mut self, reference: &str, description: &str, pre_opening: bool) -> (c: Criterion)
        requires
            old(self).counter < u32::MAX,
        ensures
            final(self).counter == old(self).counter + 1,
            c.id == old(self).counter + 1,
            c.reference@ == reference@,
            c.description@ == description@,
            c.pre_opening == pre_opening,
    {
        self.counter = self.counter + 1;
        Criterion {
            id: self.counter,
            reference: reference.to_owned(),
            description: description.to_owned(),
            pre_opening,
        }
    }

    /// Shortcut: a criterion that is not a pre-opening requirement.
    pub fn item(&mut self, reference: &str, description: &str) -> (c: Criterion)
        requires
            old(self).counter < u32::MAX,
        ensures
            final(self).counter == old(self).counter + 1,
            c.id == old(self).counter + 1,
            c.reference@ == reference@,
            c.description@ == description@,
            !c.pre_opening,
    {
        self.next(reference, description, false)
    }

    /// Shortcut: a pre-opening criterion.
    pub fn pre(&mut self, reference: &str, description: &str) -> (c: Criterion)
        requires
            old(self).counter < u32::MAX,
        ensures
            final(self).counter == old(self).counter + 1,
            c.id == old(self).counter + 1,
            c.reference@ == reference@,
            c.description@ == description@,
            c.pre_opening,
    {
        self.next(reference, description, true)
    }
}

} // verus!
