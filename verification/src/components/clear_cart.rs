//! The button that clears the cart.

use crate::stores::cart_store::{CartStore, CartView};
use vstd::prelude::*;

verus! {

/// A click on the button: the cart is emptied at once, lines and people
/// together, without asking and without a way back.
pub fn clear_button(cart: &mut CartStore)
    ensures
        final(cart)@ == CartView::empty(),
        final(cart)@.wf(),
{
    cart.clear();
}

} // verus!
