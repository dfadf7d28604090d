//! The cart: the order lines in the order in which they were added, and the
//! names of the people they were added for.

use crate::backend::cart::{CartItem, CartItemView, CartLine, CartLineView};
use crate::backend::text::string_views;
use vstd::prelude::*;

verus! {

/// The mathematical value of a cart.
pub struct CartView {
    /// The order lines, oldest first.
    pub lines: Seq<CartLineView>,
    /// The names under which lines were added.
    pub people: Set<Seq<char>>,
}

impl CartView {
    /// The cart that holds nothing.
    pub open spec fn empty() -> CartView {
        CartView { lines: Seq::empty(), people: Set::empty() }
    }

    /// The cart after one more line for `person`.
    pub open spec fn add_line(self, person: Seq<char>, item: CartItemView) -> CartView {
        CartView {
            lines: self.lines.push(CartLineView { person, item }),
            people: self.people.insert(person),
        }
    }

    /// The cart after it was cleared.
    pub open spec fn clear(self) -> CartView {
        CartView::empty()
    }

    /// The cart after one more line for each entry of `calls`, in their order.
    pub open spec fn add_lines(self, calls: Seq<CartLineView>) -> CartView
        decreases calls.len(),
    {
        if calls.len() == 0 {
            self
        } else {
            self.add_lines(calls.drop_last()).add_line(calls.last().person, calls.last().item)
        }
    }

    /// The names that occur in the lines.
    pub open spec fn persons(self) -> Set<Seq<char>> {
        Set::new(|p: Seq<char>| exists|i: int| 0 <= i < self.lines.len() && #[trigger] self.lines[i].person == p)
    }

    /// What holds of every cart: each line names a person, and the people
    /// are those that the lines name.
    pub open spec fn wf(self) -> bool {
        &&& forall|i: int| 0 <= i < self.lines.len() ==> (#[trigger] self.lines[i]).person.len() > 0
        &&& self.people =~= self.persons()
    }
}

/// The views of the order lines in `lines`.
pub open spec fn line_views(lines: Seq<CartLine>) -> Seq<CartLineView> {
    lines.map_values(|l: CartLine| l@)
}

/// The cart. Only [`CartStore::add_line`] and [`CartStore::clear`] change it.
#[derive(Debug, PartialEq, Eq)]
pub struct CartStore {
    lines: Vec<CartLine>,
    people: Vec<String>,
}

impl View for CartStore {
    type V = CartView;

    closed spec fn view(&self) -> CartView {
        CartView { lines: line_views(self.lines@), people: string_views(self.people@).to_set() }
    }
}

/// What the cart held at one moment, for reading.
#[derive(Debug, PartialEq, Eq)]
pub struct CartSnapshot {
    /// The order lines, oldest first.
    pub lines: Vec<CartLine>,
    /// The names under which lines were added, each once.
    pub people: Vec<String>,
}

impl View for CartSnapshot {
    type V = CartView;

    open spec fn view(&self) -> CartView {
        CartView { lines: line_views(self.lines@), people: string_views(self.people@).to_set() }
    }
}

impl CartStore {
    #[verifier::type_invariant]
    spec fn inv(self) -> bool {
        &&& string_views(self.people@).no_duplicates()
        &&& self@.wf()
    }

    /// A cart that holds nothing.
    pub fn new() -> (store: CartStore)
        ensures
            store@ == CartView::empty(),
            store@.wf(),
    {
        let lines: Vec<CartLine> = Vec::new();
        let people: Vec<String> = Vec::new();
        proof {
            lemma_clear_is_idempotent(CartView::empty());
            assert(line_views(lines@) =~= Seq::empty());
            assert(string_views(people@).to_set() =~= Set::empty());
        }
        CartStore { lines, people }
    }

    /// Appends a line for `person` and `item`, and records `person` among the
    /// people where the name is new.
    pub fn add_line(&mut self, person: String, item: CartItem)
        requires
            person@.len() > 0,
        ensures
            final(self)@ == old(self)@.add_line(person@, item@),
            final(self)@.wf(),
    {
        proof {
            use_type_invariant(&*self);
        }
        let mut taken = CartStore::new();
        core::mem::swap(self, &mut taken);
        let CartStore { mut lines, mut people } = taken;
        let ghost before = CartView { lines: line_views(lines@), people: string_views(people@).to_set() };
        let ghost names = string_views(people@);
        if !contains_name(&people, &person) {
            people.push(person.clone());
            assert(string_views(people@) =~= names.push(person@));
        }
        lines.push(CartLine { person, item });
        proof {
            let after = before.add_line(person@, item@);
            lemma_add_line_wf(before, person@, item@);
            assert(line_views(lines@) =~= after.lines);
            let now = string_views(people@);
            assert forall|p: Seq<char>| now.contains(p) <==> names.contains(p) || p == person@ by {
                if names.contains(p) {
                    let i = choose|i: int| 0 <= i < names.len() && names[i] == p;
                    assert(now[i] == p);
                }
                if p == person@ && !names.contains(p) {
                    assert(now[names.len() as int] == p);
                }
            }
            assert(now.to_set() =~= after.people);
        }
        let store = CartStore { lines, people };
        *self = store;
    }

    /// The lines and the people that the cart holds now. The copy stays as
    /// it is when the cart changes afterwards.
    pub fn snapshot(&self) -> (snap: CartSnapshot)
        ensures
            snap@ == self@,
            snap@.wf(),
            snap.lines@.len() == self@.lines.len(),
            forall|i: int| 0 <= i < snap.lines@.len() ==> (#[trigger] snap.lines@[i])@ == self@.lines[i],
            string_views(snap.people@).no_duplicates(),
            snap.people@.len() == self@.people.len(),
    {
        proof {
            use_type_invariant(self);
            string_views(self.people@).unique_seq_to_set();
        }
        CartSnapshot { lines: copy_lines(&self.lines), people: copy_names(&self.people) }
    }

    /// Empties the cart: the lines and the people go together.
    pub fn clear(&mut self)
        ensures
            final(self)@ == old(self)@.clear(),
            final(self)@.wf(),
    {
        *self = CartStore::new();
    }
}

impl Clone for CartStore {
    fn clone(&self) -> (res: Self)
        ensures
            res@ == self@,
    {
        proof {
            use_type_invariant(self);
        }
        CartStore { lines: copy_lines(&self.lines), people: copy_names(&self.people) }
    }
}

impl Default for CartStore {
    fn default() -> (store: Self)
        ensures
            store@ == CartView::empty(),
    {
        CartStore::new()
    }
}

/// A copy of `lines`.
fn copy_lines(lines: &Vec<CartLine>) -> (copy: Vec<CartLine>)
    ensures
        line_views(copy@) == line_views(lines@),
{
    let mut copy: Vec<CartLine> = Vec::new();
    let mut i: usize = 0;
    while i < lines.len()
        invariant
            i <= lines.len(),
            copy.len() == i,
            forall|k: int| 0 <= k < i ==> copy@[k]@ == lines@[k]@,
        decreases lines.len() - i,
    {
        copy.push(lines[i].clone());
        i += 1;
    }
    assert(line_views(copy@) =~= line_views(lines@));
    copy
}

/// A copy of `names`.
fn copy_names(names: &Vec<String>) -> (copy: Vec<String>)
    ensures
        string_views(copy@) == string_views(names@),
{
    let mut copy: Vec<String> = Vec::new();
    let mut i: usize = 0;
    while i < names.len()
        invariant
            i <= names.len(),
            copy.len() == i,
            forall|k: int| 0 <= k < i ==> copy@[k]@ == names@[k]@,
        decreases names.len() - i,
    {
        copy.push(names[i].clone());
        i += 1;
    }
    assert(string_views(copy@) =~= string_views(names@));
    copy
}

/// Whether `name` is among `names`.
fn contains_name(names: &Vec<String>, name: &String) -> (found: bool)
    ensures
        found == string_views(names@).contains(name@),
{
    let mut i: usize = 0;
    while i < names.len()
        invariant
            i <= names.len(),
            forall|j: int| 0 <= j < i ==> string_views(names@)[j] != name@,
        decreases names.len() - i,
    {
        if names[i] == *name {
            assert(string_views(names@)[i as int] == name@);
            return true;
        }
        i += 1;
    }
    false
}

/// Lines stay in the order in which they were added: after any run of
/// additions the cart holds the lines it had, then one line for each
/// addition, in the order of the additions. On an empty cart the lines are
/// the additions themselves, as many as there were.
pub proof fn lemma_add_lines_in_order(cart: CartView, calls: Seq<CartLineView>)
    ensures
        cart.add_lines(calls).lines == cart.lines + calls,
        cart.add_lines(calls).lines.len() == cart.lines.len() + calls.len(),
        CartView::empty().add_lines(calls).lines == calls,
    decreases calls.len(),
{
    if calls.len() > 0 {
        lemma_add_lines_in_order(cart, calls.drop_last());
        lemma_add_lines_in_order(CartView::empty(), calls.drop_last());
        assert(calls =~= calls.drop_last().push(calls.last()));
        assert(cart.lines + calls =~= (cart.lines + calls.drop_last()).push(calls.last()));
        assert(CartView::empty().lines + calls.drop_last() =~= calls.drop_last());
    } else {
        assert(cart.lines + calls =~= cart.lines);
        assert(CartView::empty().lines =~= calls);
    }
}

/// Additions only append: after any run of them the cart still begins with
/// the lines it had and still knows the people it knew. Where the cart was
/// well formed and every addition names a person, it stays well formed.
pub proof fn lemma_add_lines_only_append(cart: CartView, calls: Seq<CartLineView>)
    ensures
        cart.lines.is_prefix_of(cart.add_lines(calls).lines),
        cart.people.subset_of(cart.add_lines(calls).people),
        cart.wf() && (forall|i: int| 0 <= i < calls.len() ==> (#[trigger] calls[i]).person.len() > 0)
            ==> cart.add_lines(calls).wf(),
    decreases calls.len(),
{
    if calls.len() > 0 {
        let earlier = calls.drop_last();
        lemma_add_lines_only_append(cart, earlier);
        lemma_add_lines_in_order(cart, calls);
        if cart.wf() && (forall|i: int| 0 <= i < calls.len() ==> (#[trigger] calls[i]).person.len() > 0) {
            assert forall|i: int| 0 <= i < earlier.len() implies (#[trigger] earlier[i]).person.len() > 0 by {
                assert(earlier[i] == calls[i]);
            }
            lemma_add_line_wf(cart.add_lines(earlier), calls.last().person, calls.last().item);
        }
    }
}

/// A cleared cart holds no line and no person, whatever it held before; to
/// clear an empty cart, or to clear twice, changes nothing more.
pub proof fn lemma_clear_is_idempotent(cart: CartView)
    ensures
        cart.clear().lines.len() == 0,
        cart.clear().people.is_empty(),
        cart.clear() == CartView::empty(),
        cart.clear().clear() == cart.clear(),
        CartView::empty().clear() == CartView::empty(),
        cart.clear().wf(),
{
    assert(CartView::empty().persons() =~= Set::empty());
}

/// A line that was added is the newest line of the cart, and the cart holds
/// it exactly once more than before: once, where it held no such line. The
/// other lines occur as often as before, and the person is among the people.
pub proof fn lemma_add_line_occurs_once_more(cart: CartView, person: Seq<char>, item: CartItemView)
    ensures
        ({
            let line = CartLineView { person, item };
            let next = cart.add_line(person, item);
            &&& next.lines.last() == line
            &&& next.lines.last().person == person
            &&& next.lines.last().item == item
            &&& next.lines.to_multiset().count(line) == cart.lines.to_multiset().count(line) + 1
            &&& !cart.lines.contains(line) ==> next.lines.to_multiset().count(line) == 1
            &&& forall|other: CartLineView|
                other != line ==> next.lines.to_multiset().count(other)
                    == cart.lines.to_multiset().count(other)
            &&& next.people.contains(person)
        }),
{
    let line = CartLineView { person, item };
    cart.lines.to_multiset_ensures();
    assert(cart.lines.push(line).to_multiset() =~= cart.lines.to_multiset().insert(line));
}

/// Adding a line for a person with a name keeps a cart well formed.
pub proof fn lemma_add_line_wf(cart: CartView, person: Seq<char>, item: CartItemView)
    requires
        cart.wf(),
        person.len() > 0,
    ensures
        cart.add_line(person, item).wf(),
{
    let next = cart.add_line(person, item);
    assert forall|p: Seq<char>| next.people.contains(p) <==> next.persons().contains(p) by {
        if next.persons().contains(p) {
            let i = choose|i: int| 0 <= i < next.lines.len() && #[trigger] next.lines[i].person == p;
            if i < cart.lines.len() {
                assert(cart.lines[i].person == p);
                assert(cart.persons().contains(p));
            }
        }
        if cart.people.contains(p) {
            assert(cart.persons().contains(p));
            let i = choose|i: int| 0 <= i < cart.lines.len() && #[trigger] cart.lines[i].person == p;
            assert(next.lines[i].person == p);
        }
        if p == person {
            assert(next.lines[cart.lines.len() as int].person == p);
        }
    }
}

} // verus!
