use matcha_watch::order::{entry_comes_before, sorted_entries, text_comes_before};
use matcha_watch::product::{Matcha, ProductSet};

#[test]
fn texts_are_ordered_as_in_a_dictionary() {
    assert!(text_comes_before("", "a"));
    assert!(text_comes_before("a", "b"));
    assert!(text_comes_before("a", "ab"));
    assert!(text_comes_before("ab", "b"));
    assert!(text_comes_before("B", "a"));
    assert!(text_comes_before("abc", "abd"));
    assert!(text_comes_before("z", "\u{e9}"));
    assert!(text_comes_before("\u{e9}", "\u{62b9}"));
    assert!(!text_comes_before("", ""));
    assert!(!text_comes_before("a", ""));
    assert!(!text_comes_before("a", "a"));
    assert!(!text_comes_before("b", "a"));
    assert!(!text_comes_before("ab", "a"));
}

#[test]
fn text_order_agrees_with_the_standard_library() {
    let texts = ["", "a", "A", "ab", "b", "10", "2", "\u{e9}", "\u{62b9}\u{8336}", "\u{1f7e2}", "a\u{0}", "~"];
    for a in texts {
        for b in texts {
            assert_eq!(text_comes_before(a, b), a < b, "{:?} {:?}", a, b);
        }
    }
}

#[test]
fn entries_are_ordered_by_name_then_address() {
    let a1 = Matcha::new("a", "1");
    let a2 = Matcha::new("a", "2");
    let b0 = Matcha::new("b", "0");
    assert!(entry_comes_before(&a1, &a2));
    assert!(entry_comes_before(&a2, &b0));
    assert!(entry_comes_before(&a1, &b0));
    assert!(!entry_comes_before(&a2, &a1));
    assert!(!entry_comes_before(&b0, &a2));
    assert!(!entry_comes_before(&a1, &a1));
}

#[test]
fn sorted_entries_lists_a_set_in_order() {
    let entries = vec![
        Matcha::new("Ummon", "/u"),
        Matcha::new("Horai", "/h2"),
        Matcha::new("Sayaka", "/s"),
        Matcha::new("Horai", "/h1"),
        Matcha::new("Aoarashi", "/a"),
    ];
    let set = ProductSet::from_vec(entries.clone());
    let sorted = sorted_entries(&set);
    assert_eq!(
        sorted,
        vec![
            Matcha::new("Aoarashi", "/a"),
            Matcha::new("Horai", "/h1"),
            Matcha::new("Horai", "/h2"),
            Matcha::new("Sayaka", "/s"),
            Matcha::new("Ummon", "/u"),
        ]
    );
    let mut reversed = entries;
    reversed.reverse();
    assert_eq!(sorted_entries(&ProductSet::from_vec(reversed)), sorted);
    assert_eq!(sorted_entries(&ProductSet::new()), Vec::<Matcha>::new());
}
