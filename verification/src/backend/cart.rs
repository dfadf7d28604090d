//! Catalogue entries and the order lines made from them.

use vstd::prelude::*;

verus! {

/// One entry of the menu catalogue. The catalogue owns these values and
/// never changes one; the cart only carries copies of them.
#[derive(Debug, PartialEq, Eq)]
pub struct CartItem {
    /// The key under which the catalogue holds the entry.
    pub id: u16,
    pub name: String,
    /// The price in the smallest unit of the currency.
    pub price: u32,
}

/// The mathematical value of a [`CartItem`].
pub struct CartItemView {
    pub id: u16,
    pub name: Seq<char>,
    pub price: u32,
}

impl View for CartItem {
    type V = CartItemView;

    open spec fn view(&self) -> CartItemView {
        CartItemView { id: self.id, name: self.name@, price: self.price }
    }
}

impl Clone for CartItem {
    fn clone(&self) -> (res: Self)
        ensures
            res@ == self@,
    {
        CartItem { id: self.id, name: self.name.clone(), price: self.price }
    }
}

/// One ordered item, attributed to the person who ordered it.
#[derive(Debug, PartialEq, Eq)]
pub struct CartLine {
    pub person: String,
    pub item: CartItem,
}

/// The mathematical value of a [`CartLine`].
pub struct CartLineView {
    pub person: Seq<char>,
    pub item: CartItemView,
}

impl View for CartLine {
    type V = CartLineView;

    open spec fn view(&self) -> CartLineView {
        CartLineView { person: self.person@, item: self.item@ }
    }
}

impl Clone for CartLine {
    fn clone(&self) -> (res: Self)
        ensures
            res@ == self@,
    {
        CartLine { person: self.person.clone(), item: self.item.clone() }
    }
}

} // verus!
