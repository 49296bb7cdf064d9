//! What a check has to say about one item, and how its text is put
//! together.

use vstd::prelude::*;
use crate::cpp::common::{Location, LocationView, place_of};
use crate::text::{glue, glued, texts};

verus! {

/// One complaint about an item, with the place where the item is declared.
#[derive(Debug)]
pub struct Finding {
    pub message: String,
    pub location: Option<Location>,
}

/// A finding as plain values.
pub struct FindingView {
    pub message: Seq<char>,
    pub location: Option<LocationView>,
}

impl View for Finding {
    type V = FindingView;

    open spec fn view(&self) -> FindingView {
        FindingView { message: self.message@, location: place_of(self.location) }
    }
}

/// The findings of a list as plain values.
pub open spec fn views(findings: Seq<Finding>) -> Seq<FindingView> {
    findings.map_values(|f: Finding| f@)
}

/// A copy of a place of declaration.
pub fn same_place(location: &Option<Location>) -> (copy: Option<Location>)
    ensures
        place_of(copy) == place_of(*location),
{
    match location {
        Some(l) => Some(Location { file: l.file.clone(), line: l.line }),
        None => None,
    }
}

/// Adds to `out` the finding that says `parts` about the item declared at
/// `location`.
pub fn report(out: &mut Vec<Finding>, parts: &Vec<&str>, location: &Option<Location>)
    ensures
        views(final(out)@) == views(old(out)@).push(
            FindingView { message: glue(texts(parts@)), location: place_of(*location) },
        ),
{
    let finding = Finding { message: glued(parts), location: same_place(location) };
    out.push(finding);
    assert(views(out@) =~= views(old(out)@).push(finding@));
}

} // verus!
