//! The table of routes: the places a visitor can be at, and the path that
//! leads to each.

use crate::backend::decimal::{
    decimal_digits, lemma_decimal_round_trip, parse_decimal, parse_item_id, push_item_id,
};
use crate::backend::text::{chars_of, has_char_from, same_chars, starts_with};
use vstd::prelude::*;
use vstd::string::*;

verus! {

/// A place a visitor can be at.
#[derive(Debug, PartialEq, Eq)]
pub enum Route {
    /// The entry page, at `/`.
    Root,
    /// The description of one catalogue entry, at `/description/{item_id}`.
    Description { item_id: u16 },
    /// The menu of one category, at `/{category}`. The category is taken as
    /// it comes: what an unknown one shows is up to the menu page.
    Menu { category: String },
    /// The page that asks who orders one catalogue entry, at
    /// `/person-select/{item_id}`.
    Select { item_id: u16 },
    /// The bill, at `/bill`.
    Bill,
    /// The page for every path that leads nowhere else, also at `/404`.
    NotFound,
}

/// The mathematical value of a [`Route`].
pub enum RouteView {
    Root,
    Description { item_id: u16 },
    Menu { category: Seq<char> },
    Select { item_id: u16 },
    Bill,
    NotFound,
}

impl View for Route {
    type V = RouteView;

    open spec fn view(&self) -> RouteView {
        match *self {
            Route::Root => RouteView::Root,
            Route::Description { item_id } => RouteView::Description { item_id },
            Route::Menu { category } => RouteView::Menu { category: category@ },
            Route::Select { item_id } => RouteView::Select { item_id },
            Route::Bill => RouteView::Bill,
            Route::NotFound => RouteView::NotFound,
        }
    }
}

impl Clone for Route {
    fn clone(&self) -> (res: Self)
        ensures
            res@ == self@,
    {
        match self {
            Route::Root => Route::Root,
            Route::Description { item_id } => Route::Description { item_id: *item_id },
            Route::Menu { category } => Route::Menu { category: category.clone() },
            Route::Select { item_id } => Route::Select { item_id: *item_id },
            Route::Bill => Route::Bill,
            Route::NotFound => Route::NotFound,
        }
    }
}

impl RouteView {
    /// The path that leads to the route.
    pub open spec fn to_path(self) -> Seq<char> {
        match self {
            RouteView::Root => "/"@,
            RouteView::Description { item_id } => "/description/"@ + decimal_digits(item_id as nat),
            RouteView::Menu { category } => "/"@ + category,
            RouteView::Select { item_id } => "/person-select/"@ + decimal_digits(item_id as nat),
            RouteView::Bill => "/bill"@,
            RouteView::NotFound => "/404"@,
        }
    }

    /// The route that `path` leads to. A path matches a route as a whole. An
    /// item id that is missing or is no number in sixteen bits leads to
    /// [`RouteView::NotFound`], and so does every path that matches nothing.
    pub open spec fn recognize(path: Seq<char>) -> RouteView {
        if path == "/"@ {
            RouteView::Root
        } else if path == "/bill"@ {
            RouteView::Bill
        } else if path == "/404"@ {
            RouteView::NotFound
        } else if "/description/"@.is_prefix_of(path) {
            match parse_decimal(path.skip("/description/"@.len() as int)) {
                Some(item_id) => RouteView::Description { item_id },
                None => RouteView::NotFound,
            }
        } else if "/person-select/"@.is_prefix_of(path) {
            match parse_decimal(path.skip("/person-select/"@.len() as int)) {
                Some(item_id) => RouteView::Select { item_id },
                None => RouteView::NotFound,
            }
        } else if "/"@.is_prefix_of(path) && !path.skip("/"@.len() as int).contains('/') {
            RouteView::Menu { category: path.skip("/"@.len() as int) }
        } else {
            RouteView::NotFound
        }
    }

    /// Whether the route is the one that its own path leads to. Only a menu
    /// can fail to be: with a category that is empty, holds a slash, or
    /// spells the path of the bill or of the page for lost paths.
    pub open spec fn routable(self) -> bool {
        match self {
            RouteView::Menu { category } => {
                &&& category.len() > 0
                &&& !category.contains('/')
                &&& category != "bill"@
                &&& category != "404"@
            },
            _ => true,
        }
    }
}

impl Route {
    /// The route that `path` leads to.
    pub fn recognize(path: &str) -> (route: Route)
        ensures
            route@ == RouteView::recognize(path@),
    {
        let chars = chars_of(path);
        let slash = chars_of("/");
        let description = chars_of("/description/");
        let select = chars_of("/person-select/");
        if same_chars(&chars, &slash) {
            Route::Root
        } else if same_chars(&chars, &chars_of("/bill")) {
            Route::Bill
        } else if same_chars(&chars, &chars_of("/404")) {
            Route::NotFound
        } else if starts_with(&chars, &description) {
            match parse_item_id(&chars, description.len()) {
                Some(item_id) => Route::Description { item_id },
                None => Route::NotFound,
            }
        } else if starts_with(&chars, &select) {
            match parse_item_id(&chars, select.len()) {
                Some(item_id) => Route::Select { item_id },
                None => Route::NotFound,
            }
        } else if starts_with(&chars, &slash) && !has_char_from(&chars, slash.len(), '/') {
            let category = path.substring_char(slash.len(), chars.len());
            assert(category@ =~= path@.skip(slash.len() as int));
            Route::Menu { category: category.to_owned() }
        } else {
            Route::NotFound
        }
    }

    /// The path that leads to the route.
    pub fn to_path(&self) -> (path: String)
        ensures
            path@ == self@.to_path(),
    {
        match self {
            Route::Root => "/".to_owned(),
            Route::Description { item_id } => {
                let mut path = "/description/".to_owned();
                push_item_id(&mut path, *item_id);
                path
            },
            Route::Menu { category } => {
                let mut path = "/".to_owned();
                path.append(category.as_str());
                path
            },
            Route::Select { item_id } => {
                let mut path = "/person-select/".to_owned();
                push_item_id(&mut path, *item_id);
                path
            },
            Route::Bill => "/bill".to_owned(),
            Route::NotFound => "/404".to_owned(),
        }
    }
}

/// The path of a routable route leads back to that route.
pub proof fn lemma_path_leads_back(route: RouteView)
    requires
        route.routable(),
    ensures
        RouteView::recognize(route.to_path()) == route,
{
    reveal_strlit("/");
    reveal_strlit("/bill");
    reveal_strlit("/404");
    reveal_strlit("/description/");
    reveal_strlit("/person-select/");
    reveal_strlit("bill");
    reveal_strlit("404");
    let path = route.to_path();
    match route {
        RouteView::Description { item_id } => {
            let digits = decimal_digits(item_id as nat);
            lemma_decimal_round_trip(item_id as nat);
            assert(path.skip("/description/"@.len() as int) =~= digits);
            assert("/description/"@ =~= path.subrange(0, "/description/"@.len() as int));
        },
        RouteView::Select { item_id } => {
            let digits = decimal_digits(item_id as nat);
            lemma_decimal_round_trip(item_id as nat);
            assert(path.skip("/person-select/"@.len() as int) =~= digits);
            assert("/person-select/"@ =~= path.subrange(0, "/person-select/"@.len() as int));
            assert(path[1] == 'p');
        },
        RouteView::Menu { category } => {
            assert(path.skip(1) =~= category);
            assert("/"@ =~= path.subrange(0, 1));
            if path == "/bill"@ {
                assert(category =~= "bill"@);
            }
            if path == "/404"@ {
                assert(category =~= "404"@);
            }
            if "/description/"@.is_prefix_of(path) {
                assert(path.subrange(0, 13)[12] == "/description/"@[12]);
                assert(category[11] == '/');
            }
            if "/person-select/"@.is_prefix_of(path) {
                assert(path.subrange(0, 15)[14] == "/person-select/"@[14]);
                assert(category[13] == '/');
            }
        },
        _ => {},
    }
}

/// Every path leads to a routable route: to go where a path led is to
/// arrive where the path led.
pub proof fn lemma_recognized_is_routable(path: Seq<char>)
    ensures
        RouteView::recognize(path).routable(),
        RouteView::recognize(RouteView::recognize(path).to_path()) == RouteView::recognize(path),
{
    reveal_strlit("/");
    reveal_strlit("/bill");
    reveal_strlit("/404");
    reveal_strlit("bill");
    reveal_strlit("404");
    let route = RouteView::recognize(path);
    if let RouteView::Menu { category } = route {
        assert(path =~= "/"@ + category);
        if category.len() == 0 {
            assert(path =~= "/"@);
        }
        if category == "bill"@ {
            assert(path =~= "/bill"@);
        }
        if category == "404"@ {
            assert(path =~= "/404"@);
        }
    }
    lemma_path_leads_back(route);
}

/// A path to an item whose id is missing or is no number in sixteen bits
/// leads to the page for lost paths.
pub proof fn lemma_malformed_item_id_is_not_found(rest: Seq<char>)
    requires
        parse_decimal(rest) is None,
    ensures
        RouteView::recognize("/description/"@ + rest) == RouteView::NotFound,
        RouteView::recognize("/person-select/"@ + rest) == RouteView::NotFound,
{
    reveal_strlit("/");
    reveal_strlit("/bill");
    reveal_strlit("/404");
    reveal_strlit("/description/");
    reveal_strlit("/person-select/");
    let description = "/description/"@ + rest;
    assert(description.skip("/description/"@.len() as int) =~= rest);
    assert("/description/"@ =~= description.subrange(0, "/description/"@.len() as int));
    let select = "/person-select/"@ + rest;
    assert(select.skip("/person-select/"@.len() as int) =~= rest);
    assert("/person-select/"@ =~= select.subrange(0, "/person-select/"@.len() as int));
    assert(select[1] == 'p');
}

} // verus!
