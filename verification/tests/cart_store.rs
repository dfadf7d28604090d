use order_cart::backend::cart::{CartItem, CartLine};
use order_cart::components::clear_cart::clear_button;
use order_cart::stores::cart_store::CartStore;

fn item(id: u16, name: &str, price: u32) -> CartItem {
    CartItem { id, name: name.to_string(), price }
}

fn line(person: &str, item: CartItem) -> CartLine {
    CartLine { person: person.to_string(), item }
}

#[test]
fn new_cart_holds_nothing() {
    let cart = CartStore::new();
    let snap = cart.snapshot();
    assert!(snap.lines.is_empty());
    assert!(snap.people.is_empty());
}

#[test]
fn add_line_for_alice_and_soda() {
    let mut cart = CartStore::new();
    cart.add_line("Alice".to_string(), item(3, "Soda", 250));
    let snap = cart.snapshot();
    assert_eq!(snap.lines, vec![line("Alice", item(3, "Soda", 250))]);
    assert_eq!(snap.people, vec!["Alice".to_string()]);
}

#[test]
fn two_lines_for_bob_then_clear() {
    let mut cart = CartStore::new();
    cart.add_line("Bob".to_string(), item(1, "Soup", 600));
    cart.add_line("Bob".to_string(), item(2, "Cake", 450));
    assert_eq!(cart.snapshot().lines.len(), 2);
    assert_eq!(cart.snapshot().people, vec!["Bob".to_string()]);
    cart.clear();
    let snap = cart.snapshot();
    assert_eq!(snap.lines, Vec::<CartLine>::new());
    assert_eq!(snap.people, Vec::<String>::new());
}

#[test]
fn lines_keep_the_order_of_the_calls() {
    let mut cart = CartStore::new();
    let calls = vec![
        ("Ann", item(5, "Tea", 200)),
        ("Ben", item(4, "Pie", 500)),
        ("Ann", item(9, "Rice", 700)),
        ("Cat", item(5, "Tea", 200)),
        ("Ben", item(4, "Pie", 500)),
    ];
    let mut expected = Vec::new();
    for (count, (person, entry)) in calls.into_iter().enumerate() {
        assert_eq!(cart.snapshot().lines.len(), count);
        expected.push(line(person, entry.clone()));
        cart.add_line(person.to_string(), entry);
    }
    let snap = cart.snapshot();
    assert_eq!(snap.lines.len(), 5);
    assert_eq!(snap.lines, expected);
}

#[test]
fn people_hold_each_name_once() {
    let mut cart = CartStore::new();
    cart.add_line("Ann".to_string(), item(5, "Tea", 200));
    cart.add_line("Ben".to_string(), item(4, "Pie", 500));
    cart.add_line("Ann".to_string(), item(9, "Rice", 700));
    let mut people = cart.snapshot().people;
    people.sort();
    assert_eq!(people, vec!["Ann".to_string(), "Ben".to_string()]);
}

#[test]
fn added_line_is_read_back_once() {
    let mut cart = CartStore::new();
    cart.add_line("Ann".to_string(), item(5, "Tea", 200));
    cart.add_line("Dee".to_string(), item(7, "Fish", 1250));
    cart.add_line("Ann".to_string(), item(7, "Fish", 1250));
    let wanted = line("Dee", item(7, "Fish", 1250));
    let snap = cart.snapshot();
    assert_eq!(snap.lines.iter().filter(|l| **l == wanted).count(), 1);
    assert_eq!(snap.lines[1].person, "Dee");
    assert_eq!(snap.lines[1].item, item(7, "Fish", 1250));
}

#[test]
fn the_same_line_twice_is_held_twice() {
    let mut cart = CartStore::new();
    cart.add_line("Ann".to_string(), item(5, "Tea", 200));
    cart.add_line("Ann".to_string(), item(5, "Tea", 200));
    let wanted = line("Ann", item(5, "Tea", 200));
    let snap = cart.snapshot();
    assert_eq!(snap.lines.iter().filter(|l| **l == wanted).count(), 2);
    assert_eq!(snap.people.len(), 1);
}

#[test]
fn clear_on_an_empty_cart_changes_nothing() {
    let mut cart = CartStore::new();
    cart.clear();
    assert!(cart.snapshot().lines.is_empty());
    assert!(cart.snapshot().people.is_empty());
    cart.clear();
    assert_eq!(cart.snapshot(), CartStore::new().snapshot());
}

#[test]
fn cart_takes_lines_again_after_clear() {
    let mut cart = CartStore::new();
    cart.add_line("Ann".to_string(), item(5, "Tea", 200));
    cart.clear();
    cart.add_line("Ben".to_string(), item(4, "Pie", 500));
    let snap = cart.snapshot();
    assert_eq!(snap.lines, vec![line("Ben", item(4, "Pie", 500))]);
    assert_eq!(snap.people, vec!["Ben".to_string()]);
}

#[test]
fn snapshot_stays_when_the_cart_changes() {
    let mut cart = CartStore::new();
    cart.add_line("Ann".to_string(), item(5, "Tea", 200));
    let before = cart.snapshot();
    cart.add_line("Ben".to_string(), item(4, "Pie", 500));
    cart.clear();
    assert_eq!(before.lines, vec![line("Ann", item(5, "Tea", 200))]);
    assert_eq!(before.people, vec!["Ann".to_string()]);
}

#[test]
fn clear_button_empties_the_cart() {
    let mut cart = CartStore::new();
    cart.add_line("Ann".to_string(), item(5, "Tea", 200));
    cart.add_line("Ben".to_string(), item(4, "Pie", 500));
    clear_button(&mut cart);
    let snap = cart.snapshot();
    assert!(snap.lines.is_empty());
    assert!(snap.people.is_empty());
}

#[test]
fn names_are_told_apart_by_every_character() {
    let mut cart = CartStore::new();
    cart.add_line("Zoë".to_string(), item(5, "Tea", 200));
    cart.add_line("Zoe".to_string(), item(5, "Tea", 200));
    cart.add_line("zoe".to_string(), item(5, "Tea", 200));
    assert_eq!(cart.snapshot().people.len(), 3);
}

#[test]
fn cloned_line_equals_the_line() {
    let first = line("Ann", item(5, "Tea", 200));
    let copy = first.clone();
    assert_eq!(copy, first);
    assert_eq!(copy.item.clone(), item(5, "Tea", 200));
}

#[test]
fn cloned_cart_holds_the_same_and_changes_alone() {
    let mut cart = CartStore::new();
    cart.add_line("Ann".to_string(), item(5, "Tea", 200));
    cart.add_line("Ben".to_string(), item(4, "Pie", 500));
    let mut copy = cart.clone();
    assert_eq!(copy, cart);
    assert_eq!(copy.snapshot(), cart.snapshot());
    copy.add_line("Cat".to_string(), item(9, "Rice", 700));
    assert_eq!(copy.snapshot().lines.len(), 3);
    assert_eq!(cart.snapshot().lines.len(), 2);
    assert_eq!(cart.snapshot().people, vec!["Ann".to_string(), "Ben".to_string()]);
}

#[test]
fn default_cart_holds_nothing() {
    let cart = CartStore::default();
    assert_eq!(cart, CartStore::new());
    assert!(cart.snapshot().lines.is_empty());
    assert!(cart.snapshot().people.is_empty());
}
