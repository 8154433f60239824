//! The two subscription commands and the watch cycle of a site.
//!
//! Nothing here waits, fetches or sends. A command says what to answer and
//! what to save; a cycle takes what a fetch brought and says what the site
//! knows afterwards, what to send to whom, and how long to wait.

use crate::extract::{extract, page_extraction, ExtractError, ExtractionRule};
use crate::notify::{message_text, notify, Notification};
use crate::order::ordered;
use crate::product::{diff, lemma_no_entries_is_empty_set, Entry, ProductSet};
use crate::store::{
    json_of_ids, json_text, lists, saved_as, saved_members, SubscriberStore,
};
use crate::Data;
use vstd::prelude::*;

pub use crate::product::Matcha;

verus! {

/// The seconds to wait after every cycle, whatever its outcome.
pub const POLL_INTERVAL_SECS: u64 = 5;

/// What is known of a site's stock.
#[derive(Debug)]
pub enum StockState {
    /// No page of the site has been read yet.
    Uninitialized,
    /// The products that the last page read had in stock.
    Tracking(ProductSet),
}

impl StockState {
    /// The products known to be in stock, in the order of the page they were
    /// read from; none before the first page was read.
    pub open spec fn entries(&self) -> Seq<Entry> {
        match self {
            StockState::Uninitialized => Seq::empty(),
            StockState::Tracking(products) => products.entries(),
        }
    }
}

impl View for StockState {
    type V = Set<Entry>;

    open spec fn view(&self) -> Set<Entry> {
        self.entries().to_set()
    }
}

/// A monitored catalog page: where it is, how its products are read, and
/// what was last seen in stock there.
#[derive(Debug)]
pub struct Site {
    /// The address of the page.
    pub url: String,
    /// How product entries are found on the page.
    pub rule: ExtractionRule,
    /// What the links on the page are relative to.
    pub base_url: String,
    /// The products last seen in stock.
    pub matchas_in_stock: StockState,
}

impl Site {
    /// A site of which nothing has been seen yet.
    pub fn new(url: &str, rule: ExtractionRule, base_url: &str) -> (site: Site)
        ensures
            site.url@ == url@,
            site.rule == rule,
            site.base_url@ == base_url@,
            site.matchas_in_stock is Uninitialized,
    {
        Site {
            url: url.to_owned(),
            rule,
            base_url: base_url.to_owned(),
            matchas_in_stock: StockState::Uninitialized,
        }
    }
}

/// Whether `after` is the site `before` but for what is in stock.
pub open spec fn same_config(before: Site, after: Site) -> bool {
    &&& after.url == before.url
    &&& after.rule == before.rule
    &&& after.base_url == before.base_url
}

/// What a fetch of a site's page brought.
#[derive(Debug, PartialEq, Eq)]
pub enum FetchOutcome {
    /// No response came.
    Unreachable,
    /// A response came, with this status code and this body.
    Response { status: u16, body: String },
}

/// Why a fetch brought no page.
#[derive(Debug, Clone, Copy, PartialEq, Eq)]
pub enum FetchError {
    /// No response came.
    Transport,
    /// The response had this status code, which is no success.
    Status(u16),
}

/// Why a cycle observed no products.
#[derive(Debug, Clone, Copy, PartialEq, Eq)]
pub enum CycleError {
    Fetch(FetchError),
    Extract(ExtractError),
}

/// Whether `status` is a success: the codes from 200 to 299.
pub open spec fn is_success(status: u16) -> bool {
    200 <= status <= 299
}

/// The page that a fetch brought, or why it brought none.
pub open spec fn fetched_page(fetched: FetchOutcome) -> Result<Seq<char>, FetchError> {
    match fetched {
        FetchOutcome::Unreachable => Err(FetchError::Transport),
        FetchOutcome::Response { status, body } => if is_success(status) {
            Ok(body@)
        } else {
            Err(FetchError::Status(status))
        },
    }
}

/// The products that a cycle observes on `site`, given what the fetch
/// brought.
pub open spec fn observation(site: Site, fetched: FetchOutcome) -> Result<Seq<Entry>, CycleError> {
    match fetched_page(fetched) {
        Err(error) => Err(CycleError::Fetch(error)),
        Ok(page) => match page_extraction(page, site.rule, site.base_url@) {
            Ok(entries) => Ok(entries),
            Err(error) => Err(CycleError::Extract(error)),
        },
    }
}

/// The body of the response, if the fetch brought a successful one.
pub fn page_of(fetched: &FetchOutcome) -> (page: Result<&String, FetchError>)
    ensures
        match fetched_page(*fetched) {
            Ok(text) => page is Ok && page->Ok_0@ == text,
            Err(error) => page is Err && page->Err_0 == error,
        },
{
    match fetched {
        FetchOutcome::Unreachable => Err(FetchError::Transport),
        FetchOutcome::Response { status, body } => {
            if 200 <= *status && *status <= 299 {
                Ok(body)
            } else {
                Err(FetchError::Status(*status))
            }
        },
    }
}

/// The products on the page that `fetched` brought for `site`. A fetch
/// without a successful response gives the fetch's error, a page that
/// cannot be read the extraction's.
pub fn fetch_products(site: &Site, fetched: &FetchOutcome) -> (found: Result<
    ProductSet,
    CycleError,
>)
    ensures
        match observation(*site, *fetched) {
            Ok(entries) => found is Ok && found->Ok_0.entries() == entries,
            Err(error) => found is Err && found->Err_0 == error,
        },
{
    let page = match page_of(fetched) {
        Ok(page) => page,
        Err(error) => {
            return Err(CycleError::Fetch(error));
        },
    };
    match extract(page.as_str(), &site.rule, site.base_url.as_str()) {
        Ok(products) => Ok(products),
        Err(error) => Err(CycleError::Extract(error)),
    }
}

/// How a cycle went.
#[derive(Debug, Clone, Copy, PartialEq, Eq)]
pub enum CycleOutcome {
    /// No products were observed, for this reason.
    Failed(CycleError),
    /// The page shows the products that were known.
    Unchanged,
    /// The page shows other products than were known.
    Changed,
}

/// What to do at the end of a cycle.
#[derive(Debug)]
pub struct CycleAction {
    /// How the cycle went.
    pub outcome: CycleOutcome,
    /// What to send before waiting, if anything.
    pub notification: Option<Notification>,
    /// The seconds to wait before the next cycle.
    pub wait_secs: u64,
}

/// One cycle of the watch on `site`, given what the fetch of its page
/// brought.
///
/// Where the fetch or the extraction failed, the site stays as it was and
/// nothing is sent. Otherwise the site is tracking from now on. Where the
/// page shows the products that were known, they stay as they were known and
/// nothing is sent. Where it shows others, the site knows those of the page
/// from now on, and every subscriber is to get the message of what came and
/// what went. The wait is the same in every case.
pub fn watch_matcha(site: &mut Site, subscribers: &SubscriberStore, fetched: &FetchOutcome) -> (action:
    CycleAction)
    ensures
        action.wait_secs == POLL_INTERVAL_SECS,
        same_config(*old(site), *final(site)),
        match observation(*old(site), *fetched) {
            Err(error) => {
                &&& action.outcome == CycleOutcome::Failed(error)
                &&& final(site).matchas_in_stock == old(site).matchas_in_stock
                &&& action.notification is None
            },
            Ok(entries) => {
                &&& final(site).matchas_in_stock is Tracking
                &&& if entries.to_set() == old(site).matchas_in_stock@ {
                    &&& action.outcome == CycleOutcome::Unchanged
                    &&& final(site).matchas_in_stock.entries() == old(
                        site,
                    ).matchas_in_stock.entries()
                    &&& action.notification is None
                } else {
                    &&& action.outcome == CycleOutcome::Changed
                    &&& final(site).matchas_in_stock.entries() == entries
                    &&& action.notification matches Some(notification)
                    &&& notification.message@ == message_text(
                        ordered(entries.to_set().difference(old(site).matchas_in_stock@)),
                        ordered(old(site).matchas_in_stock@.difference(entries.to_set())),
                    )
                    &&& notification.recipients@.to_set() == subscribers@.remove(0)
                    &&& notification.recipients@.no_duplicates()
                }
            },
        },
{
    let products = match fetch_products(site, fetched) {
        Ok(products) => products,
        Err(error) => {
            return CycleAction {
                outcome: CycleOutcome::Failed(error),
                notification: None,
                wait_secs: POLL_INTERVAL_SECS,
            };
        },
    };
    let change = match &site.matchas_in_stock {
        StockState::Tracking(known) => diff(known, &products),
        StockState::Uninitialized => {
            let known = ProductSet::new();
            diff(&known, &products)
        },
    };
    if change.is_empty() {
        if let StockState::Uninitialized = site.matchas_in_stock {
            proof {
                lemma_no_entries_is_empty_set(products.entries());
            }
            site.matchas_in_stock = StockState::Tracking(products);
        }
        return CycleAction {
            outcome: CycleOutcome::Unchanged,
            notification: None,
            wait_secs: POLL_INTERVAL_SECS,
        };
    }
    let notification = notify(subscribers, &change.added, &change.removed);
    site.matchas_in_stock = StockState::Tracking(products);
    CycleAction {
        outcome: CycleOutcome::Changed,
        notification: Some(notification),
        wait_secs: POLL_INTERVAL_SECS,
    }
}

/// The answer to a command.
#[derive(Debug, Clone, Copy, PartialEq, Eq)]
pub enum CommandReply {
    AlreadySubscribed,
    NowSubscribed,
    Unsubscribed,
    NotSubscribed,
}

impl CommandReply {
    /// The answer in words.
    pub fn text(&self) -> (text: &'static str)
        ensures
            text@ == match *self {
                CommandReply::AlreadySubscribed => "You are already subscribed."@,
                CommandReply::NowSubscribed => "You are now subscribed."@,
                CommandReply::Unsubscribed => "You have been unsubscribed."@,
                CommandReply::NotSubscribed => "You are not currently subscribed."@,
            },
    {
        match self {
            CommandReply::AlreadySubscribed => "You are already subscribed.",
            CommandReply::NowSubscribed => "You are now subscribed.",
            CommandReply::Unsubscribed => "You have been unsubscribed.",
            CommandReply::NotSubscribed => "You are not currently subscribed.",
        }
    }
}

/// What a command leaves to save.
#[derive(Debug, PartialEq, Eq)]
pub enum Persist {
    /// The subscribers are as they were: nothing to save.
    Unchanged,
    /// The subscribers changed: this text is to be saved.
    Write(String),
    /// The subscribers changed but could not be written as text. The store
    /// holds them all the same.
    Failed,
}

/// What a command comes to: the answer, and what to save.
#[derive(Debug, PartialEq, Eq)]
pub struct CommandOutcome {
    pub reply: CommandReply,
    pub persist: Persist,
}

/// Whether `persist` is in order where the subscribers are now `members`
/// and `changed` says whether the command changed them: a change is saved or
/// reported as failed, and a text to save stands for `members`.
pub open spec fn persists(persist: Persist, changed: bool, members: Set<u64>) -> bool {
    match persist {
        Persist::Unchanged => !changed,
        Persist::Write(text) => changed && saved_members(text@) == Some(members),
        Persist::Failed => changed,
    }
}

/// The subscribers and the answer after `id` asked to subscribe.
pub open spec fn after_subscribe(members: Set<u64>, id: u64) -> (Set<u64>, CommandReply) {
    if members.contains(id) {
        (members, CommandReply::AlreadySubscribed)
    } else {
        (members.insert(id), CommandReply::NowSubscribed)
    }
}

/// The subscribers and the answer after `id` asked to unsubscribe.
pub open spec fn after_unsubscribe(members: Set<u64>, id: u64) -> (Set<u64>, CommandReply) {
    if members.contains(id) {
        (members.remove(id), CommandReply::Unsubscribed)
    } else {
        (members, CommandReply::NotSubscribed)
    }
}

/// Whether `persist` is what writing the list `ids` comes to: the text that
/// the writer gives for it, which is the list as a JSON array, is to be
/// saved, and where the writer gives none the writing failed.
pub open spec fn written_as(persist: Persist, ids: Seq<u64>) -> bool {
    match json_of_ids(ids) {
        Some(text) => {
            &&& persist matches Persist::Write(written)
            &&& written@ == text
            &&& text == json_text(ids)
        },
        None => persist is Failed,
    }
}

/// What to save after the subscribers changed: the text that the writer
/// gives for a list of all of them, each once and in an order that is left
/// open, or `Failed` where the writer gives none. A text to save stands for
/// exactly the subscribers.
pub fn write_subscribers(data: &Data) -> (persist: Persist)
    ensures
        exists|ids: Seq<u64>| #[trigger] lists(ids, data.subscribers@) && written_as(persist, ids),
        persists(persist, true, data.subscribers@),
{
    let saved = data.subscribers.to_json();
    proof {
        let ids = choose|ids: Seq<u64>| #[trigger]
            lists(ids, data.subscribers@) && saved_as(saved, ids);
        assert(lists(ids, data.subscribers@));
    }
    match saved {
        Ok(text) => Persist::Write(text),
        Err(_) => Persist::Failed,
    }
}

/// `author` asks to subscribe. One who is subscribed is told so and nothing
/// changes; anyone else is subscribed from now on, and the subscribers are to
/// be saved: what is handed out is the text that the writer gives for a list
/// of them all, and `Failed` only where the writer gives none.
pub fn subscribe(data: &mut Data, author: u64) -> (outcome: CommandOutcome)
    ensures
        (final(data).subscribers@, outcome.reply) == after_subscribe(
            old(data).subscribers@,
            author,
        ),
        persists(
            outcome.persist,
            outcome.reply == CommandReply::NowSubscribed,
            final(data).subscribers@,
        ),
        outcome.reply == CommandReply::NowSubscribed ==> exists|ids: Seq<u64>|
            #[trigger] lists(ids, final(data).subscribers@) && written_as(outcome.persist, ids),
{
    if data.subscribers.contains(author) {
        CommandOutcome { reply: CommandReply::AlreadySubscribed, persist: Persist::Unchanged }
    } else {
        data.subscribers.insert(author);
        let persist = write_subscribers(data);
        CommandOutcome { reply: CommandReply::NowSubscribed, persist }
    }
}

/// `author` asks to unsubscribe. One who is subscribed is taken out, and
/// the subscribers are to be saved: what is handed out is the text that the
/// writer gives for a list of those who are left, and `Failed` only where the
/// writer gives none. Anyone else is told so and nothing changes.
pub fn unsubscribe(data: &mut Data, author: u64) -> (outcome: CommandOutcome)
    ensures
        (final(data).subscribers@, outcome.reply) == after_unsubscribe(
            old(data).subscribers@,
            author,
        ),
        persists(
            outcome.persist,
            outcome.reply == CommandReply::Unsubscribed,
            final(data).subscribers@,
        ),
        outcome.reply == CommandReply::Unsubscribed ==> exists|ids: Seq<u64>|
            #[trigger] lists(ids, final(data).subscribers@) && written_as(outcome.persist, ids),
{
    if data.subscribers.contains(author) {
        data.subscribers.remove(author);
        let persist = write_subscribers(data);
        CommandOutcome { reply: CommandReply::Unsubscribed, persist }
    } else {
        CommandOutcome { reply: CommandReply::NotSubscribed, persist: Persist::Unchanged }
    }
}

/// Whoever subscribes twice in a row is told the second time that they are
/// subscribed already, and the second request leaves the subscribers, and
/// so their number, as the first left them.
pub proof fn lemma_subscribe_twice(members: Set<u64>, id: u64)
    ensures
        after_subscribe(after_subscribe(members, id).0, id) == (
            after_subscribe(members, id).0,
            CommandReply::AlreadySubscribed,
        ),
        after_subscribe(after_subscribe(members, id).0, id).0.len() == after_subscribe(
            members,
            id,
        ).0.len(),
{
}

/// Whoever unsubscribes without being subscribed is told so, and the
/// subscribers stay as they are.
pub proof fn lemma_unsubscribe_stranger(members: Set<u64>, id: u64)
    requires
        !members.contains(id),
    ensures
        after_unsubscribe(members, id) == (members, CommandReply::NotSubscribed),
{
}

} // verus!
