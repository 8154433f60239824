//! Catalog entries and duplicate-free collections of them.

use vstd::prelude::*;

verus! {

/// What identifies a catalog entry: its name and its address, as characters.
pub type Entry = (Seq<char>, Seq<char>);

/// A monitored catalog entry. Two entries are the same entry exactly when
/// name and address agree.
#[derive(Debug, PartialEq, Eq, Hash)]
pub struct Matcha {
    pub name: String,
    pub url: String,
}

impl View for Matcha {
    type V = Entry;

    open spec fn view(&self) -> Entry {
        (self.name@, self.url@)
    }
}

impl Clone for Matcha {
    fn clone(&self) -> (copy: Self)
        ensures
            copy == *self,
    {
        Matcha { name: self.name.clone(), url: self.url.clone() }
    }
}

impl Matcha {
    /// Builds an entry from a name and an address.
    pub fn new(name: &str, url: &str) -> (entry: Matcha)
        ensures
            entry@ == (name@, url@),
    {
        Matcha { name: name.to_owned(), url: url.to_owned() }
    }

    /// Whether `self` and `other` are the same entry.
    pub fn same_as(&self, other: &Matcha) -> (same: bool)
        ensures
            same == (self@ == other@),
    {
        self.name == other.name && self.url == other.url
    }
}

/// The entries of `items`, in order.
pub open spec fn entries_of(items: Seq<Matcha>) -> Seq<Entry> {
    items.map_values(|m: Matcha| m@)
}

/// The predicate "is no member of `others`".
pub open spec fn absent_from(others: Set<Entry>) -> spec_fn(Entry) -> bool {
    |e: Entry| !others.contains(e)
}

/// Those of `entries` that are no member of `others`, in the order of `entries`.
pub open spec fn entries_outside(entries: Seq<Entry>, others: Set<Entry>) -> Seq<Entry> {
    entries.filter(absent_from(others))
}

/// `entries` without repetitions: of equal entries the first one stays, and
/// what stays keeps its order.
pub open spec fn first_occurrences(entries: Seq<Entry>) -> Seq<Entry>
    decreases entries.len(),
{
    if entries.len() == 0 {
        Seq::empty()
    } else {
        let before = first_occurrences(entries.drop_last());
        if before.contains(entries.last()) {
            before
        } else {
            before.push(entries.last())
        }
    }
}

/// A set of catalog entries. It keeps its entries in the order in which they
/// were put in, and holds none of them twice.
#[derive(Debug)]
pub struct ProductSet {
    items: Vec<Matcha>,
}

impl View for ProductSet {
    type V = Set<Entry>;

    open spec fn view(&self) -> Set<Entry> {
        self.entries().to_set()
    }
}

impl ProductSet {
    /// The entries held, in insertion order.
    pub closed spec fn entries(&self) -> Seq<Entry> {
        entries_of(self.items@)
    }

    /// No entry is held twice.
    #[verifier::type_invariant]
    pub closed spec fn distinct(&self) -> bool {
        self.entries().no_duplicates()
    }

    /// The empty set.
    pub fn new() -> (set: ProductSet)
        ensures
            set.entries() == Seq::<Entry>::empty(),
            set@ == Set::<Entry>::empty(),
    {
        ProductSet { items: Vec::new() }
    }

    /// The number of entries.
    pub fn len(&self) -> (n: usize)
        ensures
            n == self.entries().len(),
            n == self@.len(),
            self.entries().no_duplicates(),
    {
        proof {
            use_type_invariant(self);
            self.entries().unique_seq_to_set();
        }
        self.items.len()
    }

    /// Whether the set holds nothing.
    pub fn is_empty(&self) -> (empty: bool)
        ensures
            empty == (self.entries().len() == 0),
            empty == (self@ == Set::<Entry>::empty()),
    {
        proof {
            lemma_no_entries_is_empty_set(self.entries());
        }
        self.items.len() == 0
    }

    /// The entry at position `index` of the insertion order.
    pub fn get(&self, index: usize) -> (entry: &Matcha)
        requires
            index < self.entries().len(),
        ensures
            entry@ == self.entries()[index as int],
    {
        &self.items[index]
    }

    /// Whether `entry` is a member.
    pub fn contains(&self, entry: &Matcha) -> (found: bool)
        ensures
            found == self@.contains(entry@),
    {
        let mut i: usize = 0;
        while i < self.items.len()
            invariant
                i <= self.items.len(),
                forall|j: int| 0 <= j < i ==> self.entries()[j] != entry@,
            decreases self.items.len() - i,
        {
            if self.items[i].same_as(entry) {
                assert(self.entries()[i as int] == entry@);
                return true;
            }
            i += 1;
        }
        false
    }

    /// Puts `entry` in unless it is a member already, and says whether it
    /// was put in. A new entry comes last in the insertion order.
    pub fn insert(&mut self, entry: Matcha) -> (added: bool)
        ensures
            added == !old(self)@.contains(entry@),
            final(self).entries() == if added {
                old(self).entries().push(entry@)
            } else {
                old(self).entries()
            },
            final(self)@ == old(self)@.insert(entry@),
    {
        proof {
            use_type_invariant(&*self);
        }
        if self.contains(&entry) {
            false
        } else {
            let mut items: Vec<Matcha> = Vec::new();
            proof {
                let grown = self.items@.push(entry);
                assert(entries_of(grown) =~= self.entries().push(entry@));
                self.entries().lemma_push_to_set_commute(entry@);
            }
            std::mem::swap(&mut self.items, &mut items);
            items.push(entry);
            self.items = items;
            true
        }
    }

    /// The entries of `items` as a set: of equal entries the first one stays.
    pub fn from_vec(items: Vec<Matcha>) -> (set: ProductSet)
        ensures
            set.entries() == first_occurrences(entries_of(items@)),
            set@ == entries_of(items@).to_set(),
    {
        let mut set = ProductSet::new();
        let mut i: usize = 0;
        while i < items.len()
            invariant
                i <= items.len(),
                set.entries() == first_occurrences(entries_of(items@).take(i as int)),
                set@ == entries_of(items@).take(i as int).to_set(),
            decreases items.len() - i,
        {
            proof {
                let all = entries_of(items@);
                assert(all.take(i + 1).drop_last() =~= all.take(i as int));
                all.take(i as int).lemma_push_to_set_commute(all[i as int]);
            }
            set.insert(items[i].clone());
            i += 1;
        }
        assert(entries_of(items@).take(items.len() as int) =~= entries_of(items@));
        set
    }

    /// The entries, in insertion order.
    pub fn to_vec(&self) -> (items: Vec<Matcha>)
        ensures
            entries_of(items@) == self.entries(),
    {
        let mut items: Vec<Matcha> = Vec::new();
        let mut i: usize = 0;
        while i < self.items.len()
            invariant
                i <= self.items.len(),
                entries_of(items@) == self.entries().take(i as int),
            decreases self.items.len() - i,
        {
            proof {
                assert(self.entries().take(i + 1) =~= self.entries().take(i as int).push(
                    self.entries()[i as int],
                ));
            }
            items.push(self.items[i].clone());
            i += 1;
        }
        items
    }

    /// The members of `self` that are no members of `other`, in the order
    /// in which `self` holds them.
    pub fn difference(&self, other: &ProductSet) -> (rest: ProductSet)
        ensures
            rest.entries() == entries_outside(self.entries(), other@),
            rest@ == self@.difference(other@),
    {
        let mut kept: Vec<Matcha> = Vec::new();
        let mut i: usize = 0;
        proof {
            use_type_invariant(self);
            reveal(Seq::filter);
        }
        while i < self.items.len()
            invariant
                i <= self.items.len(),
                self.entries().no_duplicates(),
                entries_of(kept@) == entries_outside(self.entries().take(i as int), other@),
                entries_of(kept@).no_duplicates(),
            decreases self.items.len() - i,
        {
            proof {
                let seen = self.entries().take(i as int);
                let next = self.entries()[i as int];
                assert(self.entries().take(i + 1) =~= seen.push(next));
                seen.lemma_filter_push(next, absent_from(other@));
                if !other@.contains(next) && entries_of(kept@).contains(next) {
                    seen.lemma_filter_contains_rev(absent_from(other@), next);
                }
            }
            if !other.contains(&self.items[i]) {
                kept.push(self.items[i].clone());
            }
            i += 1;
        }
        proof {
            assert(self.entries().take(self.items.len() as int) =~= self.entries());
            lemma_entries_outside_is_difference(self.entries(), other@);
        }
        ProductSet { items: kept }
    }

    /// Whether `self` and `other` have the same members.
    pub fn same_products(&self, other: &ProductSet) -> (same: bool)
        ensures
            same == (self@ == other@),
    {
        diff(self, other).is_empty()
    }
}

/// What a new observation changes: the entries that came and those that went.
#[derive(Debug)]
pub struct StockChange {
    pub added: ProductSet,
    pub removed: ProductSet,
}

impl StockChange {
    /// Whether nothing came and nothing went.
    pub open spec fn is_nothing(&self) -> bool {
        self.added@ == Set::<Entry>::empty() && self.removed@ == Set::<Entry>::empty()
    }

    /// Whether nothing came and nothing went.
    pub fn is_empty(&self) -> (empty: bool)
        ensures
            empty == self.is_nothing(),
    {
        self.added.is_empty() && self.removed.is_empty()
    }
}

/// Compares the last known set `old` with a new observation `new`: `added`
/// holds what only `new` has, `removed` what only `old` has, each in the
/// order of the set it was taken from. Nothing came and nothing went
/// exactly when the two sets are equal.
pub fn diff(old: &ProductSet, new: &ProductSet) -> (change: StockChange)
    ensures
        change.added@ == new@.difference(old@),
        change.removed@ == old@.difference(new@),
        change.added.entries() == entries_outside(new.entries(), old@),
        change.removed.entries() == entries_outside(old.entries(), new@),
        change.is_nothing() == (old@ == new@),
{
    proof {
        lemma_equal_without_difference(old@, new@);
    }
    StockChange { added: new.difference(old), removed: old.difference(new) }
}

/// A sequence has no entries exactly when its set of entries is empty.
pub proof fn lemma_no_entries_is_empty_set(entries: Seq<Entry>)
    ensures
        (entries.len() == 0) == (entries.to_set() == Set::<Entry>::empty()),
{
    if entries.len() == 0 {
        assert(entries.to_set() =~= Set::<Entry>::empty());
    } else {
        assert(entries.to_set().contains(entries[0]));
    }
}

/// Two sets are equal exactly when neither has a member that the other
/// lacks.
pub proof fn lemma_equal_without_difference(old: Set<Entry>, new: Set<Entry>)
    ensures
        (new.difference(old) == Set::<Entry>::empty() && old.difference(new) == Set::<
            Entry,
        >::empty()) == (old == new),
{
    if new.difference(old) == Set::<Entry>::empty() && old.difference(new) == Set::<
        Entry,
    >::empty() {
        assert forall|e: Entry| old.contains(e) <==> new.contains(e) by {
            assert(!new.difference(old).contains(e));
            assert(!old.difference(new).contains(e));
        }
        assert(old =~= new);
    }
    if old == new {
        assert(new.difference(old) =~= Set::<Entry>::empty());
        assert(old.difference(new) =~= Set::<Entry>::empty());
    }
}

/// As sets, the entries of `entries` outside `others` are the set difference.
pub proof fn lemma_entries_outside_is_difference(entries: Seq<Entry>, others: Set<Entry>)
    ensures
        entries_outside(entries, others).to_set() == entries.to_set().difference(others),
{
    let kept = entries_outside(entries, others);
    assert forall|e: Entry| kept.to_set().contains(e) <==> entries.to_set().difference(
        others,
    ).contains(e) by {
        if kept.contains(e) {
            entries.lemma_filter_contains_rev(absent_from(others), e);
            let i = choose|i: int| 0 <= i < kept.len() && kept[i] == e;
            entries.lemma_filter_pred(absent_from(others), i);
        }
        if entries.contains(e) && !others.contains(e) {
            let i = choose|i: int| 0 <= i < entries.len() && entries[i] == e;
            entries.lemma_filter_contains(absent_from(others), i);
        }
    }
}

/// Comparing a set of entries with itself finds nothing added and nothing
/// removed.
pub proof fn lemma_diff_of_equal_is_empty(entries: Seq<Entry>)
    ensures
        entries_outside(entries, entries.to_set()) == Seq::<Entry>::empty(),
        entries.to_set().difference(entries.to_set()) == Set::<Entry>::empty(),
{
    let kept = entries_outside(entries, entries.to_set());
    if kept.len() > 0 {
        entries.lemma_filter_pred(absent_from(entries.to_set()), 0);
        entries.lemma_filter_contains_rev(absent_from(entries.to_set()), kept[0]);
    }
}

} // verus!
