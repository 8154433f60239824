//! The store of subscribers and its saved form.
//!
//! The identifiers live in a `dashmap::DashSet`. They are saved as a JSON
//! array of numbers, which `serde_json` writes and reads.

use dashmap::DashSet;
use std::collections::hash_map::RandomState;
use vstd::prelude::*;

verus! {

/// `dashmap::DashSet`, a concurrent hash set. Nothing is known of a value
/// but what `members` names.
#[verifier::external_type_specification]
#[verifier::external_body]
#[verifier::reject_recursive_types(K)]
#[verifier::reject_recursive_types(S)]
pub struct ExDashSet<K, S>(DashSet<K, S>);

/// `serde_json::Error`, of which nothing is read here.
#[verifier::external_type_specification]
#[verifier::external_body]
pub struct ExJsonError(serde_json::Error);

/// The identifiers that `set` holds.
pub uninterp spec fn members(set: DashSet<u64, RandomState>) -> Set<u64>;

/// What `serde_json::from_str` reads from `text` as a vector of `u64`, if it
/// reads one.
pub uninterp spec fn ids_of_json(text: Seq<char>) -> Option<Seq<u64>>;

/// What `serde_json::to_string` writes for the vector `ids`, if it writes
/// anything.
pub uninterp spec fn json_of_ids(ids: Seq<u64>) -> Option<Seq<char>>;

/// The digit that stands for `value`, which is less than ten.
pub open spec fn digit(value: nat) -> char {
    seq!['0', '1', '2', '3', '4', '5', '6', '7', '8', '9'][value as int]
}

/// The number `value` in decimal digits, without leading zeros.
pub open spec fn decimal(value: nat) -> Seq<char>
    decreases value,
{
    if value < 10 {
        seq![digit(value)]
    } else {
        decimal(value / 10).push(digit(value % 10))
    }
}

/// The numbers of `ids` in decimal digits, with a comma between them.
pub open spec fn numbers_text(ids: Seq<u64>) -> Seq<char>
    decreases ids.len(),
{
    if ids.len() == 0 {
        Seq::empty()
    } else if ids.len() == 1 {
        decimal(ids[0] as nat)
    } else {
        numbers_text(ids.drop_last()) + seq![','] + decimal(ids.last() as nat)
    }
}

/// The list `ids` as a JSON array of numbers, without any space.
pub open spec fn json_text(ids: Seq<u64>) -> Seq<char> {
    seq!['['] + numbers_text(ids) + seq![']']
}

/// Calls `DashSet::new`, which makes a set that holds nothing.
#[verifier::external_body]
fn set_new() -> (set: DashSet<u64, RandomState>)
    ensures
        members(set) == Set::<u64>::empty(),
{
    DashSet::new()
}

/// Calls `DashSet::contains`, which says whether the key is in the set.
#[verifier::external_body]
fn set_contains(set: &DashSet<u64, RandomState>, id: u64) -> (found: bool)
    ensures
        found == members(*set).contains(id),
{
    set.contains(&id)
}

/// Calls `DashSet::insert`, which puts the key in and returns true if the
/// key was not in the set before. The set changes behind a shared
/// reference there; here the caller hands over an exclusive one, so that
/// the contract can tell the set before from the set after.
#[verifier::external_body]
fn set_insert(set: &mut DashSet<u64, RandomState>, id: u64) -> (added: bool)
    ensures
        added == !members(*old(set)).contains(id),
        members(*final(set)) == members(*old(set)).insert(id),
{
    set.insert(id)
}

/// Calls `DashSet::remove`, which takes the key out and returns it if it
/// was in the set. As for `set_insert`, the reference is exclusive.
#[verifier::external_body]
fn set_remove(set: &mut DashSet<u64, RandomState>, id: u64) -> (removed: Option<u64>)
    ensures
        removed == if members(*old(set)).contains(id) {
            Some(id)
        } else {
            None
        },
        members(*final(set)) == members(*old(set)).remove(id),
{
    set.remove(&id)
}

/// Calls `DashSet::len`, which counts the keys.
#[verifier::external_body]
fn set_len(set: &DashSet<u64, RandomState>) -> (count: usize)
    ensures
        count == members(*set).len(),
{
    set.len()
}

/// Calls `DashSet::iter`, which visits each key once, in an order that is
/// left open.
#[verifier::external_body]
fn set_ids(set: &DashSet<u64, RandomState>) -> (ids: Vec<u64>)
    ensures
        ids@.to_set() == members(*set),
        ids@.no_duplicates(),
{
    set.iter().map(|id| *id).collect()
}

/// Calls `serde_json::to_string` on a vector of `u64`. What it writes
/// depends on the vector alone, and is a JSON array without spaces: a
/// bracket, the numbers in decimal digits with commas between them, and a
/// bracket. The contract claims besides that `serde_json::from_str` reads
/// such a text back as the same vector.
#[verifier::external_body]
fn encode_ids(ids: &Vec<u64>) -> (encoded: Result<String, serde_json::Error>)
    ensures
        json_of_ids(ids@) == match encoded {
            Ok(text) => Some(text@),
            Err(_) => None,
        },
        encoded matches Ok(text) ==> text@ == json_text(ids@),
        encoded matches Ok(text) ==> ids_of_json(text@) == Some(ids@),
{
    serde_json::to_string(ids)
}

/// Calls `serde_json::from_str` for a vector of `u64`. What it reads
/// depends on the text alone.
#[verifier::external_body]
fn decode_ids(text: &str) -> (decoded: Result<Vec<u64>, serde_json::Error>)
    ensures
        ids_of_json(text@) == match decoded {
            Ok(ids) => Some(ids@),
            Err(_) => None,
        },
{
    serde_json::from_str(text)
}

/// The characters of a text that may be absent.
pub open spec fn text_of(content: Option<&str>) -> Option<Seq<char>> {
    match content {
        Some(text) => Some(text@),
        None => None,
    }
}

/// Why the store could not be saved or read.
#[derive(Debug, Clone, Copy, PartialEq, Eq)]
pub enum StoreError {
    /// The identifiers could not be written as JSON.
    Unwritable,
    /// The text is no JSON array of identifiers.
    Malformed,
}

/// The set of subscribers that the saved text `text` stands for, if it
/// stands for one.
pub open spec fn saved_members(text: Seq<char>) -> Option<Set<u64>> {
    match ids_of_json(text) {
        Some(ids) => Some(ids.to_set()),
        None => None,
    }
}

/// The set of subscribers to start with, given what the saved file holds
/// (`None` where there is no file): the saved set, or the empty set where
/// nothing usable was saved.
pub open spec fn loaded_members(content: Option<Seq<char>>) -> Set<u64> {
    match content {
        Some(text) => match saved_members(text) {
            Some(saved) => saved,
            None => Set::empty(),
        },
        None => Set::empty(),
    }
}

/// Whether `ids` lists the members of `members`, each once.
pub open spec fn lists(ids: Seq<u64>, members: Set<u64>) -> bool {
    ids.no_duplicates() && ids.to_set() == members
}

/// Whether `saved` is what saving the list `ids` comes to: the text that
/// the writer gives for it, which is the list as a JSON array, or
/// `Unwritable` where the writer gives none.
pub open spec fn saved_as(saved: Result<String, StoreError>, ids: Seq<u64>) -> bool {
    match json_of_ids(ids) {
        Some(text) => saved is Ok && saved->Ok_0@ == text && text == json_text(ids),
        None => saved is Err && saved->Err_0 == StoreError::Unwritable,
    }
}

/// What loading found of the saved file.
#[derive(Debug, Clone, Copy, PartialEq, Eq)]
pub enum LoadReport {
    /// The file held a set of subscribers.
    Loaded,
    /// There was no file.
    Missing,
    /// The file held no set of subscribers.
    Malformed,
}

/// What loading reports, given what the saved file holds (`None` where
/// there is no file).
pub open spec fn load_report(content: Option<Seq<char>>) -> LoadReport {
    match content {
        Some(text) => if saved_members(text) is Some {
            LoadReport::Loaded
        } else {
            LoadReport::Malformed
        },
        None => LoadReport::Missing,
    }
}

/// The set of subscribers.
pub struct SubscriberStore {
    ids: DashSet<u64, RandomState>,
}

impl View for SubscriberStore {
    type V = Set<u64>;

    closed spec fn view(&self) -> Set<u64> {
        members(self.ids)
    }
}

impl SubscriberStore {
    /// A store without subscribers.
    pub fn new() -> (store: SubscriberStore)
        ensures
            store@ == Set::<u64>::empty(),
    {
        SubscriberStore { ids: set_new() }
    }

    /// Whether `id` is subscribed.
    pub fn contains(&self, id: u64) -> (found: bool)
        ensures
            found == self@.contains(id),
    {
        set_contains(&self.ids, id)
    }

    /// Subscribes `id`, and says whether it was newly added.
    pub fn insert(&mut self, id: u64) -> (added: bool)
        ensures
            added == !old(self)@.contains(id),
            final(self)@ == old(self)@.insert(id),
    {
        set_insert(&mut self.ids, id)
    }

    /// Takes `id` out, and says whether it was subscribed.
    pub fn remove(&mut self, id: u64) -> (removed: bool)
        ensures
            removed == old(self)@.contains(id),
            final(self)@ == old(self)@.remove(id),
    {
        set_remove(&mut self.ids, id).is_some()
    }

    /// The number of subscribers.
    pub fn len(&self) -> (count: usize)
        ensures
            count == self@.len(),
    {
        set_len(&self.ids)
    }

    /// The subscribers, each once, in no particular order.
    pub fn ids(&self) -> (ids: Vec<u64>)
        ensures
            ids@.to_set() == self@,
            ids@.no_duplicates(),
            self@.finite(),
            ids@.len() == self@.len(),
    {
        let ids = set_ids(&self.ids);
        proof {
            vstd::seq_lib::seq_to_set_is_finite(ids@);
            ids@.unique_seq_to_set();
        }
        ids
    }

    /// The store that holds exactly the identifiers of `ids`.
    pub fn from_ids(ids: &Vec<u64>) -> (store: SubscriberStore)
        ensures
            store@ == ids@.to_set(),
    {
        let mut store = SubscriberStore::new();
        let mut i: usize = 0;
        while i < ids.len()
            invariant
                i <= ids.len(),
                store@ == ids@.take(i as int).to_set(),
            decreases ids.len() - i,
        {
            proof {
                assert(ids@.take(i + 1) =~= ids@.take(i as int).push(ids@[i as int]));
                ids@.take(i as int).lemma_push_to_set_commute(ids@[i as int]);
            }
            store.insert(ids[i]);
            i += 1;
        }
        assert(ids@.take(ids.len() as int) =~= ids@);
        store
    }

    /// The store as text to save: what the writer gives for a list of the
    /// subscribers that holds each once, in an order that is left open. A
    /// text that comes back stands for exactly the subscribers of the store.
    pub fn to_json(&self) -> (saved: Result<String, StoreError>)
        ensures
            exists|ids: Seq<u64>| #[trigger] lists(ids, self@) && saved_as(saved, ids),
            saved matches Ok(text) ==> saved_members(text@) == Some(self@),
            saved matches Err(error) ==> error == StoreError::Unwritable,
    {
        let ids = self.ids();
        let saved = saved_text(encode_ids(&ids));
        assert(lists(ids@, self@) && saved_as(saved, ids@));
        saved
    }

    /// The store that the saved text `text` stands for. The text is a
    /// JSON array of numbers, as `to_json` writes it; an array that holds the
    /// identifiers as JSON strings is not read, and counts as malformed.
    pub fn from_json(text: &str) -> (read: Result<SubscriberStore, StoreError>)
        ensures
            match saved_members(text@) {
                Some(saved) => read is Ok && read->Ok_0@ == saved,
                None => read is Err && read->Err_0 == StoreError::Malformed,
            },
    {
        match decode_ids(text) {
            Ok(ids) => Ok(SubscriberStore::from_ids(&ids)),
            Err(_) => Err(StoreError::Malformed),
        }
    }

    /// The store to start with, given what the saved file holds (`None`
    /// where there is no file), and what to report of the file. A missing
    /// or malformed file gives a store without subscribers.
    pub fn load(content: Option<&str>) -> (loaded: (SubscriberStore, LoadReport))
        ensures
            loaded.0@ == loaded_members(text_of(content)),
            loaded.1 == load_report(text_of(content)),
    {
        match content {
            Some(text) => match SubscriberStore::from_json(text) {
                Ok(store) => (store, LoadReport::Loaded),
                Err(_) => (SubscriberStore::new(), LoadReport::Malformed),
            },
            None => (SubscriberStore::new(), LoadReport::Missing),
        }
    }
}

/// What was saved of a set of subscribers is the set to start with the
/// next time.
pub proof fn lemma_saved_members_load_back(text: Seq<char>, members: Set<u64>)
    requires
        saved_members(text) == Some(members),
    ensures
        loaded_members(Some(text)) == members,
{
}

/// What an attempt to write the store as JSON leaves to save: the text, or
/// `Unwritable` where the writer failed.
pub fn saved_text(encoded: Result<String, serde_json::Error>) -> (saved: Result<String, StoreError>)
    ensures
        match encoded {
            Ok(text) => saved == Ok::<String, StoreError>(text),
            Err(_) => saved == Err::<String, StoreError>(StoreError::Unwritable),
        },
{
    match encoded {
        Ok(text) => Ok(text),
        Err(_) => Err(StoreError::Unwritable),
    }
}

} // verus!
