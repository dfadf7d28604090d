//! The navigator: where the visitor is, and where they have been.

use crate::backend::route::{lemma_path_leads_back, Route, RouteView};
use crate::backend::text::string_views;
use vstd::prelude::*;

verus! {

/// The history of one tab: the paths that were visited, of which the newest
/// is the place the visitor is at.
#[derive(Debug, PartialEq, Eq)]
pub struct Navigator {
    past: Vec<String>,
    location: String,
}

impl View for Navigator {
    /// The visited paths, oldest first. There is always at least one.
    type V = Seq<Seq<char>>;

    closed spec fn view(&self) -> Seq<Seq<char>> {
        string_views(self.past@).push(self.location@)
    }
}

impl Navigator {
    /// The navigator of a tab that was opened at `path`.
    pub fn at(path: &str) -> (navigator: Navigator)
        ensures
            navigator@ == seq![path@],
    {
        let navigator = Navigator { past: Vec::new(), location: path.to_owned() };
        assert(navigator@ =~= seq![path@]);
        navigator
    }

    /// Moves to `route`: its path becomes the newest entry of the history.
    /// Every route has a path, so this cannot fail.
    pub fn go(&mut self, route: &Route)
        ensures
            final(self)@ == old(self)@.push(route@.to_path()),
    {
        let mut path = route.to_path();
        core::mem::swap(&mut self.location, &mut path);
        self.past.push(path);
        assert(self@ =~= old(self)@.push(route@.to_path()));
    }

    /// The path the visitor is at.
    pub fn location(&self) -> (path: String)
        ensures
            self@.len() > 0,
            path@ == self@.last(),
    {
        self.location.clone()
    }

    /// The route the visitor is at: the one that the newest path leads to.
    pub fn route(&self) -> (route: Route)
        ensures
            self@.len() > 0,
            route@ == RouteView::recognize(self@.last()),
    {
        Route::recognize(self.location.as_str())
    }
}

/// After a move to a routable route, that route is where the visitor is.
pub proof fn lemma_go_arrives(history: Seq<Seq<char>>, route: RouteView)
    requires
        route.routable(),
    ensures
        RouteView::recognize(history.push(route.to_path()).last()) == route,
{
    lemma_path_leads_back(route);
}

} // verus!
