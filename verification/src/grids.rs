//! Registry of the available checklist grids.

use vstd::prelude::*;

pub mod grossiste;

use crate::grid::{total_items, GridInfo};

verus! {

/// The grid identifiers the registry holds.
pub open spec fn known_grid(id: Seq<char>) -> bool {
    id == "grossiste"@
}

/// Returns all available grids.
pub fn all() -> (r: Vec<GridInfo>)
    ensures
        r@.len() == 1,
        r@[0].id@ == "grossiste"@,
        r@[0].code@ == "IP-FO-0002"@,
        r@[0].sections@.len() == 18,
        total_items(r@[0].sections@) == 100,
{
    let mut v: Vec<GridInfo> = Vec::new();
    v.push(grossiste::build());
    v
}

/// Looks a grid up by its identifier.
pub fn find(id: &str) -> (r: Option<GridInfo>)
    ensures
        r is Some <==> known_grid(id@),
        r matches Some(g) ==> g.id@ == id@ && g.sections@.len() == 18 && total_items(g.sections@)
            == 100,
{
    let key = id.to_owned();
    let mut grids = all();
    let mut i: usize = 0;
    while i < grids.len()
        invariant
            i <= grids@.len(),
            grids@.len() == 1,
            grids@[0].id@ == "grossiste"@,
            grids@[0].sections@.len() == 18,
            total_items(grids@[0].sections@) == 100,
            key@ == id@,
            forall|k: int| 0 <= k < i ==> grids@[k].id@ != id@,
        decreases grids@.len() - i,
    {
        if grids[i].id == key {
            return Some(grids.remove(i));
        }
        i = i + 1;
    }
    None
}

} // verus!
