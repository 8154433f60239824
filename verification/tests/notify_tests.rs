use matcha_watch::notify::{notify, render_message};
use matcha_watch::product::{Matcha, ProductSet};
use matcha_watch::store::SubscriberStore;

fn set_of(entries: &[(&str, &str)]) -> ProductSet {
    ProductSet::from_vec(entries.iter().map(|(n, u)| Matcha::new(n, u)).collect())
}

#[test]
fn message_has_both_sections() {
    let added = set_of(&[("C", "https://shop.example/c")]);
    let removed = set_of(&[("A", "https://shop.example/a")]);
    assert_eq!(
        render_message(&added, &removed),
        "🟢 Now in stock: [C](https://shop.example/c)\n🔴 Out of stock: [A](https://shop.example/a)\n"
    );
}

#[test]
fn message_leaves_out_an_empty_section() {
    let some = set_of(&[("A", "https://shop.example/a")]);
    let none = ProductSet::new();
    assert_eq!(render_message(&some, &none), "🟢 Now in stock: [A](https://shop.example/a)\n");
    assert_eq!(render_message(&none, &some), "🔴 Out of stock: [A](https://shop.example/a)\n");
    assert_eq!(render_message(&none, &none), "");
}

#[test]
fn message_lists_entries_by_name_with_commas() {
    let added = set_of(&[("B", "/b"), ("A", "/a"), ("C", "/c")]);
    let removed = set_of(&[("Z", "/z"), ("Y", "/y")]);
    assert_eq!(
        render_message(&added, &removed),
        "🟢 Now in stock: [A](/a), [B](/b), [C](/c)\n🔴 Out of stock: [Y](/y), [Z](/z)\n"
    );
}

#[test]
fn message_does_not_depend_on_the_order_in_the_sets() {
    let one = set_of(&[("Ummon", "/u"), ("Horai", "/h"), ("Sayaka", "/s")]);
    let other = set_of(&[("Sayaka", "/s"), ("Ummon", "/u"), ("Horai", "/h")]);
    let none = ProductSet::new();
    let text = "🟢 Now in stock: [Horai](/h), [Sayaka](/s), [Ummon](/u)\n";
    assert_eq!(render_message(&one, &none), text);
    assert_eq!(render_message(&other, &none), text);
    assert_eq!(render_message(&none, &one), render_message(&none, &other));
}

#[test]
fn entries_of_one_name_are_listed_by_address() {
    let added = set_of(&[("A", "/2"), ("A", "/10"), ("A", "/1"), ("", "/z")]);
    assert_eq!(
        render_message(&added, &ProductSet::new()),
        "🟢 Now in stock: [](/z), [A](/1), [A](/10), [A](/2)\n"
    );
}

#[test]
fn notification_goes_to_every_subscriber() {
    let subscribers = SubscriberStore::from_ids(&vec![3, 1, 2]);
    let added = set_of(&[("B", "/b"), ("A", "/a")]);
    let notification = notify(&subscribers, &added, &ProductSet::new());
    assert_eq!(notification.message, "🟢 Now in stock: [A](/a), [B](/b)\n");
    let mut recipients = notification.recipients;
    recipients.sort();
    assert_eq!(recipients, vec![1, 2, 3]);
}

#[test]
fn identifier_zero_gets_no_notification() {
    let subscribers = SubscriberStore::from_ids(&vec![0, 5]);
    let added = set_of(&[("A", "/a")]);
    let notification = notify(&subscribers, &added, &ProductSet::new());
    assert_eq!(notification.recipients, vec![5]);
    let only_zero = SubscriberStore::from_ids(&vec![0]);
    assert!(notify(&only_zero, &added, &ProductSet::new()).recipients.is_empty());
}
