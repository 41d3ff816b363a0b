//! Traits shared by the list providers the palette can page through: a
//! provider turns the current query into an ordered candidate list, and each
//! candidate renders itself as a display string and a completion string.

use vstd::prelude::*;

verus! {

/// One row of a provider's candidate list.
pub trait ListItem {
    /// The text shown for this item in the candidate list.
    fn as_string(&self) -> String;

    /// The text used for tab completion: something that matches this item.
    fn as_matchable_string(&self) -> String;
}

/// A source of candidates for the palette's list view.
pub trait ListContentProvider {
    /// The concrete candidate type of this provider.
    type Item;

    /// The provider's well-formedness condition.
    spec fn inv(&self) -> bool;

    /// The ordered candidates for the current query.
    fn query_for_items(&self) -> Vec<Self::Item>
        requires
            self.inv(),
    ;

    /// The display strings of the current candidates, in the same order.
    fn query_for_names(&self) -> Vec<String>
        requires
            self.inv(),
    ;
}

} // verus!
