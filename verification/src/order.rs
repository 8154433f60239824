//! The order in which entries are listed: by name, and among entries of one
//! name by address. Texts are ordered as in a dictionary, character by
//! character.

use crate::product::{entries_of, Entry, Matcha, ProductSet};
use vstd::prelude::*;
use vstd::std_specs::iter::IteratorSpec;

verus! {

/// Whether the text `a` comes before the text `b`: where they first differ,
/// `a` has the smaller character, or `a` ends there and `b` goes on.
pub open spec fn text_before(a: Seq<char>, b: Seq<char>) -> bool
    decreases a.len(),
{
    if b.len() == 0 {
        false
    } else if a.len() == 0 {
        true
    } else if a[0] != b[0] {
        a[0] < b[0]
    } else {
        text_before(a.drop_first(), b.drop_first())
    }
}

/// Whether the entry `a` comes before the entry `b`: by name, and by
/// address where the names are equal.
pub open spec fn entry_before(a: Entry, b: Entry) -> bool {
    text_before(a.0, b.0) || (a.0 == b.0 && text_before(a.1, b.1))
}

/// Whether each entry of `entries` comes before all that follow it.
pub open spec fn is_ordered(entries: Seq<Entry>) -> bool {
    forall|i: int, j: int| 0 <= i < j < entries.len() ==> entry_before(entries[i], entries[j])
}

/// Whether `entries` lists the members of `members` in order.
pub open spec fn orders(entries: Seq<Entry>, members: Set<Entry>) -> bool {
    is_ordered(entries) && entries.to_set() == members
}

/// The members of the finite set `members`, listed in order.
pub open spec fn ordered(members: Set<Entry>) -> Seq<Entry> {
    choose|entries: Seq<Entry>| orders(entries, members)
}

/// No text comes before itself.
pub proof fn lemma_text_not_before_itself(a: Seq<char>)
    ensures
        !text_before(a, a),
    decreases a.len(),
{
    if a.len() > 0 {
        lemma_text_not_before_itself(a.drop_first());
    }
}

/// What comes before a text comes before all that the text comes before.
pub proof fn lemma_text_before_chains(a: Seq<char>, b: Seq<char>, c: Seq<char>)
    requires
        text_before(a, b),
        text_before(b, c),
    ensures
        text_before(a, c),
    decreases a.len(),
{
    if a.len() > 0 && a[0] == b[0] && b[0] == c[0] {
        lemma_text_before_chains(a.drop_first(), b.drop_first(), c.drop_first());
    }
}

/// Of two different texts one comes before the other.
pub proof fn lemma_text_before_decides(a: Seq<char>, b: Seq<char>)
    ensures
        a == b || text_before(a, b) || text_before(b, a),
    decreases a.len(),
{
    if a.len() > 0 && b.len() > 0 && a[0] == b[0] {
        lemma_text_before_decides(a.drop_first(), b.drop_first());
        if a.drop_first() == b.drop_first() {
            assert(a =~= seq![a[0]] + a.drop_first());
            assert(b =~= seq![b[0]] + b.drop_first());
        }
    } else if a.len() == 0 && b.len() == 0 {
        assert(a =~= b);
    }
}

/// No entry comes before itself.
pub proof fn lemma_entry_not_before_itself(a: Entry)
    ensures
        !entry_before(a, a),
{
    lemma_text_not_before_itself(a.0);
    lemma_text_not_before_itself(a.1);
}

/// What comes before an entry comes before all that the entry comes before.
pub proof fn lemma_entry_before_chains(a: Entry, b: Entry, c: Entry)
    requires
        entry_before(a, b),
        entry_before(b, c),
    ensures
        entry_before(a, c),
{
    if text_before(a.0, b.0) && text_before(b.0, c.0) {
        lemma_text_before_chains(a.0, b.0, c.0);
    } else if a.0 == b.0 && b.0 == c.0 {
        lemma_text_before_chains(a.1, b.1, c.1);
    }
}

/// Of two different entries one comes before the other.
pub proof fn lemma_entry_before_decides(a: Entry, b: Entry)
    ensures
        a == b || entry_before(a, b) || entry_before(b, a),
{
    lemma_text_before_decides(a.0, b.0);
    lemma_text_before_decides(a.1, b.1);
}

/// A set has one ordered list of its members at most.
pub proof fn lemma_order_is_unique(first: Seq<Entry>, second: Seq<Entry>)
    requires
        is_ordered(first),
        is_ordered(second),
        first.to_set() == second.to_set(),
    ensures
        first == second,
    decreases first.len(),
{
    if first.len() == 0 {
        if second.len() > 0 {
            assert(second.to_set().contains(second[0]));
        }
        assert(first =~= second);
    } else {
        assert(first.to_set().contains(first[0]));
        let at = choose|at: int| 0 <= at < second.len() && second[at] == first[0];
        assert(second.to_set().contains(second[0]));
        let back = choose|back: int| 0 <= back < first.len() && first[back] == second[0];
        if at > 0 {
            if back > 0 {
                lemma_entry_before_chains(first[0], first[back], second[at]);
            }
            lemma_entry_not_before_itself(first[0]);
        }
        assert(first[0] == second[0]);
        let rest = first.drop_first();
        let other = second.drop_first();
        assert forall|e: Entry| rest.to_set().contains(e) <==> other.to_set().contains(e) by {
            lemma_entry_not_before_itself(first[0]);
            if rest.contains(e) {
                let i = choose|i: int| 0 <= i < rest.len() && rest[i] == e;
                assert(entry_before(first[0], first[i + 1]));
                assert(second.to_set().contains(e));
                let j = choose|j: int| 0 <= j < second.len() && second[j] == e;
                assert(other[j - 1] == e);
            }
            if other.contains(e) {
                let j = choose|j: int| 0 <= j < other.len() && other[j] == e;
                assert(entry_before(second[0], second[j + 1]));
                assert(first.to_set().contains(e));
                let i = choose|i: int| 0 <= i < first.len() && first[i] == e;
                assert(rest[i - 1] == e);
            }
        }
        assert(rest.to_set() =~= other.to_set());
        assert forall|i: int, j: int| 0 <= i < j < rest.len() implies entry_before(
            rest[i],
            rest[j],
        ) by {
            assert(entry_before(first[i + 1], first[j + 1]));
        }
        assert forall|i: int, j: int| 0 <= i < j < other.len() implies entry_before(
            other[i],
            other[j],
        ) by {
            assert(entry_before(second[i + 1], second[j + 1]));
        }
        lemma_order_is_unique(rest, other);
        assert(first =~= seq![first[0]] + rest);
        assert(second =~= seq![second[0]] + other);
    }
}

/// An ordered list of the members of a set is the ordered list of the set.
pub proof fn lemma_ordered_is(entries: Seq<Entry>, members: Set<Entry>)
    requires
        orders(entries, members),
    ensures
        ordered(members) == entries,
{
    lemma_order_is_unique(ordered(members), entries);
}

/// An entry put into an ordered list behind all that come before it and
/// in front of all that it comes before leaves the list ordered, with the
/// entry as one more member.
proof fn lemma_insert_in_order(entries: Seq<Entry>, at: int, entry: Entry)
    requires
        is_ordered(entries),
        0 <= at <= entries.len(),
        forall|k: int| 0 <= k < at ==> entry_before(entries[k], entry),
        forall|k: int| at <= k < entries.len() ==> entry_before(entry, entries[k]),
    ensures
        is_ordered(entries.insert(at, entry)),
        entries.insert(at, entry).to_set() == entries.to_set().insert(entry),
{
    let grown = entries.insert(at, entry);
    assert forall|i: int, j: int| 0 <= i < j < grown.len() implies entry_before(
        grown[i],
        grown[j],
    ) by {
        if j < at {
            assert(grown[i] == entries[i] && grown[j] == entries[j]);
        } else if j == at {
            assert(grown[i] == entries[i]);
        } else if i < at {
            assert(grown[i] == entries[i] && grown[j] == entries[j - 1]);
        } else if i == at {
            assert(grown[j] == entries[j - 1]);
        } else {
            assert(grown[i] == entries[i - 1] && grown[j] == entries[j - 1]);
        }
    }
    assert forall|e: Entry| grown.to_set().contains(e) <==> entries.to_set().insert(
        entry,
    ).contains(e) by {
        if grown.contains(e) {
            let i = choose|i: int| 0 <= i < grown.len() && grown[i] == e;
            if i < at {
                assert(entries[i] == e);
            } else if i > at {
                assert(entries[i - 1] == e);
            }
        }
        if entries.contains(e) {
            let i = choose|i: int| 0 <= i < entries.len() && entries[i] == e;
            if i < at {
                assert(grown[i] == e);
            } else {
                assert(grown[i + 1] == e);
            }
        }
        if e == entry {
            assert(grown[at] == e);
        }
    }
    assert(grown.to_set() =~= entries.to_set().insert(entry));
}

/// Where `entry` belongs in the ordered list `entries`: in front of the
/// first entry that it comes before, or at the end.
pub open spec fn place(entries: Seq<Entry>, entry: Entry) -> int
    decreases entries.len(),
{
    if entries.len() == 0 || entry_before(entry, entries[0]) {
        0
    } else {
        1 + place(entries.drop_first(), entry)
    }
}

/// In an ordered list that does not hold `entry`, all in front of its
/// place come before it, and it comes before all from its place on.
pub proof fn lemma_place_divides(entries: Seq<Entry>, entry: Entry)
    requires
        is_ordered(entries),
        !entries.contains(entry),
    ensures
        0 <= place(entries, entry) <= entries.len(),
        forall|k: int| 0 <= k < place(entries, entry) ==> entry_before(entries[k], entry),
        forall|k: int|
            place(entries, entry) <= k < entries.len() ==> entry_before(entry, entries[k]),
    decreases entries.len(),
{
    if entries.len() > 0 {
        if entry_before(entry, entries[0]) {
            assert forall|k: int| 0 <= k < entries.len() implies entry_before(
                entry,
                entries[k],
            ) by {
                if k > 0 {
                    lemma_entry_before_chains(entry, entries[0], entries[k]);
                }
            }
        } else {
            let rest = entries.drop_first();
            assert(entries.contains(entries[0]));
            lemma_entry_before_decides(entries[0], entry);
            assert forall|i: int, j: int| 0 <= i < j < rest.len() implies entry_before(
                rest[i],
                rest[j],
            ) by {
                assert(entry_before(entries[i + 1], entries[j + 1]));
            }
            if rest.contains(entry) {
                let i = choose|i: int| 0 <= i < rest.len() && rest[i] == entry;
                assert(entries[i + 1] == entry);
            }
            lemma_place_divides(rest, entry);
            assert forall|k: int| 0 <= k < place(entries, entry) implies entry_before(
                entries[k],
                entry,
            ) by {
                if k > 0 {
                    assert(entries[k] == rest[k - 1]);
                }
            }
            assert forall|k: int| place(entries, entry) <= k < entries.len() implies entry_before(
                entry,
                entries[k],
            ) by {
                assert(entries[k] == rest[k - 1]);
            }
        }
    }
}

/// The ordered list of a finite set lists the members of the set, each
/// once and in order.
pub proof fn lemma_ordered_lists_the_set(members: Set<Entry>)
    requires
        members.finite(),
    ensures
        orders(ordered(members), members),
        ordered(members).no_duplicates(),
        ordered(members).len() == members.len(),
    decreases members.len(),
{
    if members.len() == 0 {
        assert(orders(Seq::<Entry>::empty(), members)) by {
            assert(Seq::<Entry>::empty().to_set() =~= members);
        }
    } else {
        let entry = members.choose();
        let rest = members.remove(entry);
        lemma_ordered_lists_the_set(rest);
        let listed = ordered(rest);
        if listed.contains(entry) {
            assert(listed.to_set().contains(entry));
        }
        lemma_place_divides(listed, entry);
        lemma_insert_in_order(listed, place(listed, entry), entry);
        assert(rest.insert(entry) =~= members);
        assert(orders(listed.insert(place(listed, entry), entry), members));
    }
    let entries = ordered(members);
    assert forall|i: int, j: int| 0 <= i < j < entries.len() implies entries[i] != entries[j] by {
        lemma_entry_not_before_itself(entries[i]);
    }
    entries.unique_seq_to_set();
}

/// The characters of `text`.
pub fn chars_of(text: &str) -> (chars: Vec<char>)
    ensures
        chars@ == text@,
{
    let mut chars: Vec<char> = Vec::new();
    for c in it: text.chars()
        invariant
            it.seq() == text@,
            chars@ == text@.take(it.index() as int),
    {
        assert(text@.take(it.index() + 1) =~= text@.take(it.index() as int).push(c));
        chars.push(c);
    }
    assert(text@.take(text@.len() as int) =~= text@);
    chars
}

/// Whether the text `a` comes before the text `b`.
pub fn text_comes_before(a: &str, b: &str) -> (before: bool)
    ensures
        before == text_before(a@, b@),
{
    let first = chars_of(a);
    let second = chars_of(b);
    let mut i: usize = 0;
    assert(a@.skip(0) =~= a@ && b@.skip(0) =~= b@);
    loop
        invariant
            first@ == a@,
            second@ == b@,
            i <= first.len(),
            i <= second.len(),
            text_before(a@, b@) == text_before(a@.skip(i as int), b@.skip(i as int)),
        decreases first.len() - i,
    {
        if i == second.len() {
            return false;
        }
        if i == first.len() {
            return true;
        }
        assert(a@.skip(i as int)[0] == a@[i as int] && b@.skip(i as int)[0] == b@[i as int]);
        if first[i] != second[i] {
            return first[i] < second[i];
        }
        assert(a@.skip(i as int).drop_first() =~= a@.skip(i + 1));
        assert(b@.skip(i as int).drop_first() =~= b@.skip(i + 1));
        i += 1;
    }
}

/// Whether the entry `a` comes before the entry `b`.
pub fn entry_comes_before(a: &Matcha, b: &Matcha) -> (before: bool)
    ensures
        before == entry_before(a@, b@),
{
    text_comes_before(a.name.as_str(), b.name.as_str()) || (a.name == b.name && text_comes_before(
        a.url.as_str(),
        b.url.as_str(),
    ))
}

/// The members of `set`, listed in order.
pub fn sorted_entries(set: &ProductSet) -> (sorted: Vec<Matcha>)
    ensures
        entries_of(sorted@) == ordered(set@),
        orders(entries_of(sorted@), set@),
{
    let mut sorted: Vec<Matcha> = Vec::new();
    let count = set.len();
    let mut i: usize = 0;
    assert(set.entries().take(0).to_set() =~= entries_of(sorted@).to_set());
    while i < count
        invariant
            i <= count,
            count == set.entries().len(),
            set.entries().no_duplicates(),
            is_ordered(entries_of(sorted@)),
            entries_of(sorted@).to_set() == set.entries().take(i as int).to_set(),
        decreases count - i,
    {
        let entry = set.get(i);
        let ghost listed = entries_of(sorted@);
        proof {
            let seen = set.entries().take(i as int);
            if listed.contains(entry@) {
                assert(listed.to_set().contains(entry@));
                assert(seen.contains(entry@));
                let k = choose|k: int| 0 <= k < seen.len() && seen[k] == entry@;
                assert(set.entries()[k] == set.entries()[i as int]);
            }
        }
        let mut at: usize = 0;
        while at < sorted.len() && !entry_comes_before(entry, &sorted[at])
            invariant
                at <= sorted.len(),
                listed == entries_of(sorted@),
                !listed.contains(entry@),
                forall|k: int| 0 <= k < at ==> entry_before(listed[k], entry@),
            decreases sorted.len() - at,
        {
            proof {
                assert(listed.contains(listed[at as int]));
                lemma_entry_before_decides(listed[at as int], entry@);
            }
            at += 1;
        }
        proof {
            assert forall|k: int| at <= k < listed.len() implies entry_before(
                entry@,
                listed[k],
            ) by {
                if k > at {
                    lemma_entry_before_chains(entry@, listed[at as int], listed[k]);
                }
            }
            lemma_insert_in_order(listed, at as int, entry@);
            let grown = sorted@.insert(at as int, *entry);
            assert(entries_of(grown) =~= listed.insert(at as int, entry@));
            assert(set.entries().take(i + 1) =~= set.entries().take(i as int).push(entry@));
            set.entries().take(i as int).lemma_push_to_set_commute(entry@);
        }
        sorted.insert(at, entry.clone());
        i += 1;
    }
    proof {
        assert(set.entries().take(count as int) =~= set.entries());
        lemma_ordered_is(entries_of(sorted@), set@);
    }
    sorted
}

} // verus!
