//! The navigation bar with its category selector.

use crate::backend::route::{Route, RouteView};
use crate::navigation::Navigator;
use vstd::prelude::*;

verus! {

/// A change of the category selector: the visitor moves to the menu of the
/// category whose value was selected. The value is passed on as it is.
pub fn navbar(value: String, navigator: &mut Navigator)
    ensures
        final(navigator)@ == old(navigator)@.push(
            (RouteView::Menu { category: value@ }).to_path(),
        ),
{
    let route = Route::Menu { category: value };
    navigator.go(&route);
}

} // verus!
