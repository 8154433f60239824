use matcha_watch::commands::{
    fetch_products, page_of, subscribe, unsubscribe, watch_matcha, write_subscribers, CommandReply,
    CycleError, CycleOutcome, FetchError, FetchOutcome, Persist, Site, StockState, POLL_INTERVAL_SECS,
};
use matcha_watch::extract::{ExtractError, ExtractionRule, MAX_PAGE_BYTES};
use matcha_watch::product::Matcha;
use matcha_watch::store::SubscriberStore;
use matcha_watch::Data;

fn rule() -> ExtractionRule {
    ExtractionRule {
        product_card_selector: "div.product".to_string(),
        out_of_stock_filter: Some(".sold-out".to_string()),
        name_selector: ".product-name a".to_string(),
        href_selector: ".product-name a".to_string(),
    }
}

fn site() -> Site {
    Site::new("https://shop.example/matcha", rule(), "https://shop.example")
}

fn page(names: &[&str]) -> FetchOutcome {
    let cards: Vec<String> = names
        .iter()
        .map(|n| format!("<div class=\"product\"><p class=\"product-name\"><a href=\"/{}\"> {} </a></p></div>", n, n))
        .collect();
    FetchOutcome::Response { status: 200, body: format!("<html><body>{}</body></html>", cards.concat()) }
}

fn entry(name: &str) -> Matcha {
    Matcha::new(name, &format!("https://shop.example/{}", name))
}

fn stock(site: &Site) -> Option<Vec<Matcha>> {
    match &site.matchas_in_stock {
        StockState::Uninitialized => None,
        StockState::Tracking(products) => Some(products.to_vec()),
    }
}

fn sorted(mut ids: Vec<u64>) -> Vec<u64> {
    ids.sort();
    ids
}

#[test]
fn page_of_takes_successful_responses_only() {
    for status in [200u16, 204, 299] {
        let fetched = FetchOutcome::Response { status, body: "x".to_string() };
        assert_eq!(page_of(&fetched), Ok(&"x".to_string()));
    }
    for status in [0u16, 100, 199, 300, 301, 404, 500, 503, 599, 600, u16::MAX] {
        let fetched = FetchOutcome::Response { status, body: "x".to_string() };
        assert_eq!(page_of(&fetched), Err(FetchError::Status(status)));
    }
    assert_eq!(page_of(&FetchOutcome::Unreachable), Err(FetchError::Transport));
}

#[test]
fn fetch_products_reads_the_page() {
    let found = fetch_products(&site(), &page(&["a", "b"])).unwrap();
    assert_eq!(found.to_vec(), vec![entry("a"), entry("b")]);
}

#[test]
fn fetch_products_reports_why_there_is_no_page() {
    let site = site();
    assert_eq!(
        fetch_products(&site, &FetchOutcome::Unreachable).err(),
        Some(CycleError::Fetch(FetchError::Transport))
    );
    let refused = FetchOutcome::Response { status: 403, body: String::new() };
    assert_eq!(fetch_products(&site, &refused).err(), Some(CycleError::Fetch(FetchError::Status(403))));
    let broken = FetchOutcome::Response {
        status: 200,
        body: "<div class=\"product\"><p class=\"product-name\"></p></div>".to_string(),
    };
    assert_eq!(
        fetch_products(&site, &broken).err(),
        Some(CycleError::Extract(ExtractError::MissingLink))
    );
}

#[test]
fn first_page_is_announced_whole() {
    let mut site = site();
    let subscribers = SubscriberStore::from_ids(&vec![11, 12]);
    let action = watch_matcha(&mut site, &subscribers, &page(&["a", "b"]));
    assert_eq!(action.wait_secs, 5);
    assert_eq!(action.outcome, CycleOutcome::Changed);
    assert_eq!(stock(&site), Some(vec![entry("a"), entry("b")]));
    let notification = action.notification.unwrap();
    assert_eq!(
        notification.message,
        "🟢 Now in stock: [a](https://shop.example/a), [b](https://shop.example/b)\n"
    );
    assert_eq!(sorted(notification.recipients), vec![11, 12]);
}

#[test]
fn first_page_without_products_starts_tracking_quietly() {
    let mut site = site();
    let subscribers = SubscriberStore::from_ids(&vec![11]);
    let action = watch_matcha(&mut site, &subscribers, &page(&[]));
    assert!(action.notification.is_none());
    assert_eq!(action.outcome, CycleOutcome::Unchanged);
    assert_eq!(action.wait_secs, POLL_INTERVAL_SECS);
    assert_eq!(stock(&site), Some(Vec::new()));
}

#[test]
fn change_is_announced_with_both_sections() {
    let mut site = site();
    let subscribers = SubscriberStore::from_ids(&vec![11]);
    watch_matcha(&mut site, &subscribers, &page(&["A", "B"]));
    let action = watch_matcha(&mut site, &subscribers, &page(&["B", "C"]));
    assert_eq!(stock(&site), Some(vec![entry("B"), entry("C")]));
    let notification = action.notification.unwrap();
    assert_eq!(
        notification.message,
        "🟢 Now in stock: [C](https://shop.example/C)\n🔴 Out of stock: [A](https://shop.example/A)\n"
    );
    assert_eq!(notification.recipients, vec![11]);
    assert_eq!(action.wait_secs, 5);
}

#[test]
fn same_products_are_not_announced_again() {
    let mut site = site();
    let subscribers = SubscriberStore::from_ids(&vec![11]);
    watch_matcha(&mut site, &subscribers, &page(&["a", "b"]));
    let action = watch_matcha(&mut site, &subscribers, &page(&["b", "a"]));
    assert!(action.notification.is_none());
    assert_eq!(action.outcome, CycleOutcome::Unchanged);
    assert_eq!(action.wait_secs, 5);
    assert_eq!(stock(&site), Some(vec![entry("a"), entry("b")]));
}

#[test]
fn failed_fetch_leaves_the_stock_and_sends_nothing() {
    let mut site = site();
    let subscribers = SubscriberStore::from_ids(&vec![11]);
    watch_matcha(&mut site, &subscribers, &page(&["a", "b"]));
    let failed = FetchOutcome::Response { status: 500, body: page_body(&["c"]) };
    let action = watch_matcha(&mut site, &subscribers, &failed);
    assert!(action.notification.is_none());
    assert_eq!(action.outcome, CycleOutcome::Failed(CycleError::Fetch(FetchError::Status(500))));
    assert_eq!(action.wait_secs, 5);
    assert_eq!(stock(&site), Some(vec![entry("a"), entry("b")]));
    let action = watch_matcha(&mut site, &subscribers, &FetchOutcome::Unreachable);
    assert!(action.notification.is_none());
    assert_eq!(action.outcome, CycleOutcome::Failed(CycleError::Fetch(FetchError::Transport)));
    assert_eq!(action.wait_secs, 5);
    assert_eq!(stock(&site), Some(vec![entry("a"), entry("b")]));
}

fn page_body(names: &[&str]) -> String {
    match page(names) {
        FetchOutcome::Response { body, .. } => body,
        FetchOutcome::Unreachable => unreachable!(),
    }
}

#[test]
fn failed_fetch_before_the_first_page_leaves_the_site_uninitialized() {
    let mut site = site();
    let subscribers = SubscriberStore::new();
    let failed = FetchOutcome::Response { status: 500, body: String::new() };
    let action = watch_matcha(&mut site, &subscribers, &failed);
    assert!(action.notification.is_none());
    assert_eq!(stock(&site), None);
}

#[test]
fn page_that_cannot_be_read_leaves_the_stock_and_sends_nothing() {
    let mut site = site();
    let subscribers = SubscriberStore::from_ids(&vec![11]);
    watch_matcha(&mut site, &subscribers, &page(&["a"]));
    let broken = FetchOutcome::Response {
        status: 200,
        body: "<div class=\"product\"><p class=\"product-name\"><a href=\"/b\">b</a></p></div>\
               <div class=\"product\"><p class=\"product-name\"><a>c</a></p></div>"
            .to_string(),
    };
    let action = watch_matcha(&mut site, &subscribers, &broken);
    assert!(action.notification.is_none());
    assert_eq!(action.outcome, CycleOutcome::Failed(CycleError::Extract(ExtractError::MissingLink)));
    assert_eq!(action.wait_secs, 5);
    assert_eq!(stock(&site), Some(vec![entry("a")]));
}

#[test]
fn cycle_keeps_the_site_as_configured() {
    let mut site = site();
    watch_matcha(&mut site, &SubscriberStore::new(), &page(&["a"]));
    assert_eq!(site.url, "https://shop.example/matcha");
    assert_eq!(site.base_url, "https://shop.example");
    assert_eq!(site.rule, rule());
}

#[test]
fn change_without_subscribers_has_no_recipients() {
    let mut site = site();
    let action = watch_matcha(&mut site, &SubscriberStore::new(), &page(&["a"]));
    let notification = action.notification.unwrap();
    assert!(notification.recipients.is_empty());
}

#[test]
fn subscribing_twice_is_answered_differently() {
    let mut data = Data::new(SubscriberStore::new());
    let first = subscribe(&mut data, 42);
    assert_eq!(first.reply, CommandReply::NowSubscribed);
    assert_eq!(first.persist, Persist::Write("[42]".to_string()));
    assert_eq!(data.subscribers.len(), 1);
    let second = subscribe(&mut data, 42);
    assert_eq!(second.reply, CommandReply::AlreadySubscribed);
    assert_eq!(second.persist, Persist::Unchanged);
    assert_eq!(data.subscribers.len(), 1);
    assert!(data.subscribers.contains(42));
}

#[test]
fn unsubscribing_a_stranger_changes_nothing() {
    let mut data = Data::new(SubscriberStore::from_ids(&vec![1, 2]));
    let outcome = unsubscribe(&mut data, 3);
    assert_eq!(outcome.reply, CommandReply::NotSubscribed);
    assert_eq!(outcome.persist, Persist::Unchanged);
    assert_eq!(sorted(data.subscribers.ids()), vec![1, 2]);
}

#[test]
fn unsubscribing_takes_the_subscriber_out() {
    let mut data = Data::new(SubscriberStore::from_ids(&vec![1, 2]));
    let outcome = unsubscribe(&mut data, 1);
    assert_eq!(outcome.reply, CommandReply::Unsubscribed);
    assert_eq!(outcome.persist, Persist::Write("[2]".to_string()));
    assert_eq!(data.subscribers.ids(), vec![2]);
    let again = unsubscribe(&mut data, 1);
    assert_eq!(again.reply, CommandReply::NotSubscribed);
    assert_eq!(again.persist, Persist::Unchanged);
}

#[test]
fn saved_subscribers_read_back_after_a_command() {
    let mut data = Data::new(SubscriberStore::from_ids(&vec![5, 6]));
    let outcome = subscribe(&mut data, 7);
    let text = match outcome.persist {
        Persist::Write(text) => text,
        other => panic!("nothing to save: {:?}", other),
    };
    let back = SubscriberStore::from_json(&text).unwrap();
    assert_eq!(sorted(back.ids()), vec![5, 6, 7]);
}

#[test]
fn write_subscribers_gives_the_text_to_save() {
    let data = Data::new(SubscriberStore::from_ids(&vec![9]));
    assert_eq!(write_subscribers(&data), Persist::Write("[9]".to_string()));
    let empty = Data::new(SubscriberStore::new());
    assert_eq!(write_subscribers(&empty), Persist::Write("[]".to_string()));
}

#[test]
fn replies_have_their_words() {
    assert_eq!(CommandReply::AlreadySubscribed.text(), "You are already subscribed.");
    assert_eq!(CommandReply::NowSubscribed.text(), "You are now subscribed.");
    assert_eq!(CommandReply::Unsubscribed.text(), "You have been unsubscribed.");
    assert_eq!(CommandReply::NotSubscribed.text(), "You are not currently subscribed.");
}

#[test]
fn message_lists_products_by_name_whatever_the_page_order() {
    let mut site = site();
    let subscribers = SubscriberStore::from_ids(&vec![11]);
    let action = watch_matcha(&mut site, &subscribers, &page(&["c", "a", "b"]));
    assert_eq!(stock(&site), Some(vec![entry("c"), entry("a"), entry("b")]));
    assert_eq!(
        action.notification.unwrap().message,
        "🟢 Now in stock: [a](https://shop.example/a), [b](https://shop.example/b), [c](https://shop.example/c)\n"
    );
    let action = watch_matcha(&mut site, &subscribers, &page(&["d"]));
    assert_eq!(
        action.notification.unwrap().message,
        "🟢 Now in stock: [d](https://shop.example/d)\n🔴 Out of stock: [a](https://shop.example/a), [b](https://shop.example/b), [c](https://shop.example/c)\n"
    );
}

#[test]
fn page_of_too_many_bytes_leaves_the_stock() {
    let mut site = site();
    let subscribers = SubscriberStore::from_ids(&vec![11]);
    watch_matcha(&mut site, &subscribers, &page(&["a"]));
    let huge = FetchOutcome::Response { status: 200, body: " ".repeat(MAX_PAGE_BYTES + 1) };
    let action = watch_matcha(&mut site, &subscribers, &huge);
    assert_eq!(action.outcome, CycleOutcome::Failed(CycleError::Extract(ExtractError::PageTooLarge)));
    assert!(action.notification.is_none());
    assert_eq!(stock(&site), Some(vec![entry("a")]));
}
