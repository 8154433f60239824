//! The text that tells subscribers what changed.

use crate::order::{ordered, sorted_entries};
use crate::product::{entries_of, Entry, Matcha, ProductSet};
use crate::store::SubscriberStore;
use vstd::prelude::*;
use vstd::string::StringExecFns;

verus! {

/// The heading of the entries that came.
pub open spec fn added_title() -> Seq<char> {
    "🟢 Now in stock: "@
}

/// The heading of the entries that went.
pub open spec fn removed_title() -> Seq<char> {
    "🔴 Out of stock: "@
}

/// One entry as a link: the name in square brackets, then the address in
/// round ones.
pub open spec fn entry_text(entry: Entry) -> Seq<char> {
    "["@ + entry.0 + "]("@ + entry.1 + ")"@
}

/// The entries as links, in order, with a comma and a space between them.
pub open spec fn list_text(entries: Seq<Entry>) -> Seq<char>
    decreases entries.len(),
{
    if entries.len() == 0 {
        Seq::empty()
    } else if entries.len() == 1 {
        entry_text(entries[0])
    } else {
        list_text(entries.drop_last()) + ", "@ + entry_text(entries.last())
    }
}

/// One section of the message: nothing where there are no entries, else
/// the title, the entries and a line end.
pub open spec fn section_text(title: Seq<char>, entries: Seq<Entry>) -> Seq<char> {
    if entries.len() == 0 {
        Seq::empty()
    } else {
        title + list_text(entries) + "\n"@
    }
}

/// The message for a change: the section of what came, then the section of
/// what went.
pub open spec fn message_text(added: Seq<Entry>, removed: Seq<Entry>) -> Seq<char> {
    section_text(added_title(), added) + section_text(removed_title(), removed)
}

/// Appends the link of `entry` to `text`.
fn push_entry(text: &mut String, entry: &Matcha)
    ensures
        final(text)@ == old(text)@ + entry_text(entry@),
{
    text.append("[");
    text.append(entry.name.as_str());
    text.append("](");
    text.append(entry.url.as_str());
    text.append(")");
}

/// Appends to `text` the section of `entries` under `title`.
fn push_section(text: &mut String, title: &str, entries: &Vec<Matcha>)
    ensures
        final(text)@ == old(text)@ + section_text(title@, entries_of(entries@)),
{
    let ghost listed = entries_of(entries@);
    let count = entries.len();
    if count == 0 {
        return;
    }
    text.append(title);
    push_entry(text, &entries[0]);
    let mut i: usize = 1;
    while i < count
        invariant
            1 <= i <= count,
            count == entries.len(),
            listed == entries_of(entries@),
            text@ == old(text)@ + title@ + list_text(listed.take(i as int)),
        decreases count - i,
    {
        text.append(", ");
        push_entry(text, &entries[i]);
        proof {
            assert(listed.take(i + 1).drop_last() =~= listed.take(i as int));
        }
        i += 1;
    }
    text.append("\n");
    proof {
        assert(listed.take(count as int) =~= listed);
    }
}

/// The message that tells of the entries that came (`added`) and of those
/// that went (`removed`). Each section lists its entries in order, by name
/// and then by address, whatever the order in which the sets hold them. A
/// section without entries is left out.
pub fn render_message(added: &ProductSet, removed: &ProductSet) -> (message: String)
    ensures
        message@ == message_text(ordered(added@), ordered(removed@)),
{
    let mut message = String::new();
    push_section(&mut message, "🟢 Now in stock: ", &sorted_entries(added));
    push_section(&mut message, "🔴 Out of stock: ", &sorted_entries(removed));
    message
}

/// A message and those who are to get it.
#[derive(Debug)]
pub struct Notification {
    /// The text, the same for every recipient.
    pub message: String,
    /// The subscribers, each once, and none of them 0.
    pub recipients: Vec<u64>,
}

/// Those of `ids` that name someone: all but the identifier 0, which names
/// no one.
fn recipients_among(ids: &Vec<u64>) -> (recipients: Vec<u64>)
    requires
        ids@.no_duplicates(),
    ensures
        recipients@.to_set() == ids@.to_set().remove(0),
        recipients@.no_duplicates(),
{
    let mut recipients: Vec<u64> = Vec::new();
    let mut i: usize = 0;
    assert(recipients@.to_set() =~= ids@.take(0).to_set().remove(0));
    while i < ids.len()
        invariant
            i <= ids.len(),
            ids@.no_duplicates(),
            recipients@.to_set() == ids@.take(i as int).to_set().remove(0),
            recipients@.no_duplicates(),
        decreases ids.len() - i,
    {
        let id = ids[i];
        proof {
            let seen = ids@.take(i as int);
            assert(ids@.take(i + 1) =~= seen.push(id));
            seen.lemma_push_to_set_commute(id);
            if seen.contains(id) {
                let k = choose|k: int| 0 <= k < seen.len() && seen[k] == id;
                assert(ids@[k] == ids@[i as int]);
            }
            assert(!recipients@.to_set().contains(id));
            if id != 0 {
                recipients@.lemma_push_to_set_commute(id);
                assert(recipients@.push(id).to_set() =~= seen.push(id).to_set().remove(0));
            } else {
                assert(recipients@.to_set() =~= seen.push(id).to_set().remove(0));
            }
        }
        if id != 0 {
            recipients.push(id);
        }
        i += 1;
    }
    assert(ids@.take(ids.len() as int) =~= ids@);
    recipients
}

/// The notification of a change: the message of what came and what went,
/// for every subscriber but the identifier 0, which names no one. Each
/// recipient is sent to on its own, so that one who cannot be reached keeps
/// nothing from the others.
pub fn notify(subscribers: &SubscriberStore, added: &ProductSet, removed: &ProductSet) -> (notification:
    Notification)
    ensures
        notification.message@ == message_text(ordered(added@), ordered(removed@)),
        notification.recipients@.to_set() == subscribers@.remove(0),
        notification.recipients@.no_duplicates(),
{
    let ids = subscribers.ids();
    Notification { message: render_message(added, removed), recipients: recipients_among(&ids) }
}

} // verus!
