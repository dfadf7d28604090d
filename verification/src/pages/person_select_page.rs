//! The page that asks who orders an item.

use crate::backend::cart::{CartItem, CartItemView};
use crate::backend::route::{Route, RouteView};
use crate::navigation::Navigator;
use crate::stores::cart_store::CartStore;
use vstd::prelude::*;

verus! {

/// What the route hands to the page: the id of the item that is ordered.
#[derive(Debug, Clone, Copy, PartialEq, Eq)]
pub struct Props {
    pub item_id: u16,
}

/// How far one showing of the page has come.
#[derive(Debug, PartialEq, Eq)]
pub enum SelectState {
    /// The page waits for the name of the person who orders `item`.
    AwaitingInput { item: CartItem },
    /// The line was added and the visitor sent to the bill.
    Submitted,
    /// The catalogue holds no item under the id: the page has nothing to ask.
    NotFound,
}

/// The mathematical value of a [`SelectState`].
pub enum SelectStateView {
    AwaitingInput { item: CartItemView },
    Submitted,
    NotFound,
}

impl View for SelectState {
    type V = SelectStateView;

    open spec fn view(&self) -> SelectStateView {
        match *self {
            SelectState::AwaitingInput { item } => SelectStateView::AwaitingInput { item: item@ },
            SelectState::Submitted => SelectStateView::Submitted,
            SelectState::NotFound => SelectStateView::NotFound,
        }
    }
}

/// One showing of the page, bound to the item of its route.
#[derive(Debug, PartialEq, Eq)]
pub struct PersonSelectPage {
    pub item_id: u16,
    pub state: SelectState,
}

/// Why a submitted name added no line.
#[derive(Debug, Clone, Copy, PartialEq, Eq)]
pub enum SubmitError {
    /// The name was empty.
    EmptyPerson,
    /// The catalogue holds no item under the id of the page.
    ItemNotFound,
    /// The page has taken a name before.
    AlreadySubmitted,
}

/// What a submission of `person` to a page in `state` comes to.
pub open spec fn submit_outcome(state: SelectStateView, person: Seq<char>) -> Result<
    CartItemView,
    SubmitError,
> {
    match state {
        SelectStateView::NotFound => Err(SubmitError::ItemNotFound),
        SelectStateView::Submitted => Err(SubmitError::AlreadySubmitted),
        SelectStateView::AwaitingInput { item } => if person.len() == 0 {
            Err(SubmitError::EmptyPerson)
        } else {
            Ok(item)
        },
    }
}

/// Shows the page for `props`. `item` is what the catalogue holds under
/// `props.item_id`: with an item the page waits for a name, without one it
/// shows that nothing was found.
pub fn person_select(props: &Props, item: Option<CartItem>) -> (page: PersonSelectPage)
    ensures
        page.item_id == props.item_id,
        page.state@ == match item {
            Some(item) => SelectStateView::AwaitingInput { item: item@ },
            None => SelectStateView::NotFound,
        },
{
    match item {
        Some(item) => PersonSelectPage {
            item_id: props.item_id,
            state: SelectState::AwaitingInput { item },
        },
        None => PersonSelectPage { item_id: props.item_id, state: SelectState::NotFound },
    }
}

impl PersonSelectPage {
    /// Takes the name of the person who orders. On a waiting page a name
    /// that is not empty adds one line for that person and the page's item
    /// to `cart`, and then moves `navigator` to the bill. Everything else is
    /// turned down, and then nothing changes.
    pub fn submit(
        &mut self,
        person: String,
        cart: &mut CartStore,
        navigator: &mut Navigator,
    ) -> (outcome: Result<(), SubmitError>)
        ensures
            final(self).item_id == old(self).item_id,
            match submit_outcome(old(self).state@, person@) {
                Ok(item) => {
                    &&& outcome is Ok
                    &&& final(cart)@ == old(cart)@.add_line(person@, item)
                    &&& final(cart)@.wf()
                    &&& final(navigator)@ == old(navigator)@.push(RouteView::Bill.to_path())
                    &&& final(self).state@ == SelectStateView::Submitted
                },
                Err(error) => {
                    &&& outcome == Err::<(), SubmitError>(error)
                    &&& final(cart)@ == old(cart)@
                    &&& final(navigator)@ == old(navigator)@
                    &&& final(self).state@ == old(self).state@
                },
            },
    {
        match &self.state {
            SelectState::NotFound => Err(SubmitError::ItemNotFound),
            SelectState::Submitted => Err(SubmitError::AlreadySubmitted),
            SelectState::AwaitingInput { item } => {
                if person.as_str().is_empty() {
                    Err(SubmitError::EmptyPerson)
                } else {
                    cart.add_line(person, item.clone());
                    navigator.go(&Route::Bill);
                    self.state = SelectState::Submitted;
                    Ok(())
                }
            },
        }
    }
}

} // verus!
