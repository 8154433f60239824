//! Reading product entries out of a fetched catalog page.
//!
//! A page is scanned with CSS selectors, which the `scraper` crate compiles
//! and matches. What the scan finds for each product card comes back as
//! plain values; which cards count and what they yield is decided here.

use crate::order::chars_of;
use crate::product::{first_occurrences, Entry, Matcha, ProductSet};
use scraper::{Html, Selector};
use vstd::prelude::*;
use vstd::std_specs::iter::IteratorSpec;
use vstd::string::{StringExecFns, StringSliceAdditionalSpecFns};

verus! {

/// How product entries are found on a site's page: four CSS selectors, kept
/// as text.
#[derive(Debug, PartialEq, Eq)]
pub struct ExtractionRule {
    /// Matches the element of each product card.
    pub product_card_selector: String,
    /// Where present: a card with a descendant that matches is unavailable.
    pub out_of_stock_filter: Option<String>,
    /// Inside a card, matches the element whose content is the name.
    pub name_selector: String,
    /// Inside a card, matches the element whose `href` is the link.
    pub href_selector: String,
}

impl Clone for ExtractionRule {
    fn clone(&self) -> (copy: Self)
        ensures
            copy == *self,
    {
        ExtractionRule {
            product_card_selector: self.product_card_selector.clone(),
            out_of_stock_filter: match &self.out_of_stock_filter {
                Some(filter) => Some(filter.clone()),
                None => None,
            },
            name_selector: self.name_selector.clone(),
            href_selector: self.href_selector.clone(),
        }
    }
}

impl ExtractionRule {
    /// The unavailable-filter as characters, where the rule has one.
    pub open spec fn filter_text(&self) -> Option<Seq<char>> {
        match self.out_of_stock_filter {
            Some(filter) => Some(filter@),
            None => None,
        }
    }
}

/// What a scan found for one product card.
#[derive(Debug, PartialEq, Eq)]
pub struct Card {
    /// Whether the unavailable-filter matched inside the card.
    pub unavailable: bool,
    /// The `href` of the first link element, if there is one and it has one.
    pub link: Option<String>,
    /// The inner markup of the first name element, if there is one.
    pub name_html: Option<String>,
}

/// A card as mathematical values.
pub struct CardView {
    pub unavailable: bool,
    pub link: Option<Seq<char>>,
    pub name_html: Option<Seq<char>>,
}

impl View for Card {
    type V = CardView;

    open spec fn view(&self) -> CardView {
        CardView {
            unavailable: self.unavailable,
            link: match self.link {
                Some(link) => Some(link@),
                None => None,
            },
            name_html: match self.name_html {
                Some(name) => Some(name@),
                None => None,
            },
        }
    }
}

/// The cards of `cards` as mathematical values, in order.
pub open spec fn card_views(cards: Seq<Card>) -> Seq<CardView> {
    cards.map_values(|c: Card| c@)
}

/// Why no products could be read from a page.
#[derive(Debug, Clone, Copy, PartialEq, Eq)]
pub enum ExtractError {
    /// One of the rule's selectors is too long, may hold `:has(`, or is no
    /// CSS selector.
    InvalidRule,
    /// The page has more bytes than a scan takes.
    PageTooLarge,
    /// An available card has no link.
    MissingLink,
    /// An available card has no name.
    MissingName,
}

impl ExtractError {
    /// The error in words.
    pub fn message(&self) -> (text: &'static str)
        ensures
            text@ == match *self {
                ExtractError::InvalidRule => "Invalid selector"@,
                ExtractError::PageTooLarge => "Page too large"@,
                ExtractError::MissingLink => "Failed to find href"@,
                ExtractError::MissingName => "Failed to find name"@,
            },
    {
        match self {
            ExtractError::InvalidRule => "Invalid selector",
            ExtractError::PageTooLarge => "Page too large",
            ExtractError::MissingLink => "Failed to find href",
            ExtractError::MissingName => "Failed to find name",
        }
    }
}

/// What `char::is_whitespace` answers for `c`: whether `c` has the Unicode
/// property White_Space.
pub uninterp spec fn white_space(c: char) -> bool;

/// `char::is_whitespace` says whether a character has the Unicode property
/// White_Space; the contract gives that answer its name. Its documentation
/// shows the answer for four characters: the space, the line feed and the
/// no-break space have the property, the letter U+8D8A has not.
pub assume_specification[ char::is_whitespace ](c: char) -> (answer: bool)
    ensures
        answer == white_space(c),
        c == ' ' || c == '\n' || c == '\u{a0}' ==> answer,
        c == '\u{8d8a}' ==> !answer,
;

/// The number of white-space characters at the start of `text`.
pub open spec fn leading_spaces(text: Seq<char>) -> nat
    decreases text.len(),
{
    if text.len() > 0 && white_space(text.first()) {
        1 + leading_spaces(text.drop_first())
    } else {
        0
    }
}

/// The number of white-space characters at the end of `text`.
pub open spec fn trailing_spaces(text: Seq<char>) -> nat
    decreases text.len(),
{
    if text.len() > 0 && white_space(text.last()) {
        1 + trailing_spaces(text.drop_last())
    } else {
        0
    }
}

/// `text` without the white space at its start and at its end.
pub open spec fn trimmed(text: Seq<char>) -> Seq<char> {
    let rest = text.skip(leading_spaces(text) as int);
    rest.take(rest.len() - trailing_spaces(rest))
}

/// What a scan of the page `document` finds: one card for each element that
/// `card` matches, in the order in which the scan comes upon them; `None`
/// where one of the selectors does not compile. The link of a card is read
/// from the attribute `attribute`.
pub uninterp spec fn scanned_cards(
    document: Seq<char>,
    card: Seq<char>,
    filter: Option<Seq<char>>,
    name: Seq<char>,
    link: Seq<char>,
    attribute: Seq<char>,
) -> Option<Seq<CardView>>;

/// The most bytes of a page that a scan takes: a third of what 32 bits
/// count. The scan counts the bytes of each text that it builds in 32 bits,
/// and may write three bytes for one that it reads.
pub const MAX_PAGE_BYTES: usize = 0x5555_5555;

/// The most bytes of a selector that a scan takes. Matching calls itself
/// once for each step of a selector and each selector nested in it, so the
/// length of a selector bounds how deep matching goes.
pub const MAX_SELECTOR_BYTES: usize = 1024;

/// The number of bytes of `text` in UTF-8.
pub open spec fn byte_len(text: Seq<char>) -> nat {
    vstd::utf8::encode_utf8(text).len()
}

/// Whether `text` spells `has(` at `at`, in small letters or capitals.
pub open spec fn spells_has_at(text: Seq<char>, at: int) -> bool {
    &&& 0 <= at
    &&& at + 4 <= text.len()
    &&& (text[at] == 'h' || text[at] == 'H')
    &&& (text[at + 1] == 'a' || text[at + 1] == 'A')
    &&& (text[at + 2] == 's' || text[at + 2] == 'S')
    &&& text[at + 3] == '('
}

/// Whether the selector `selector` may hold the pseudo-class `:has(`, which
/// looks into what an element holds: it spells `has(` somewhere, or it holds
/// a backslash, with which any name can be spelled.
pub open spec fn may_hold_has(selector: Seq<char>) -> bool {
    ||| exists|at: int| 0 <= at < selector.len() && selector[at] == '\\'
    ||| exists|at: int| spells_has_at(selector, at)
}

/// Whether a scan takes the selector `selector`: it is short enough and
/// cannot hold `:has(`. Matching `:has(` calls itself once for each level
/// of elements inside one another, of which a page may have any number.
pub open spec fn selector_admitted(selector: Seq<char>) -> bool {
    byte_len(selector) <= MAX_SELECTOR_BYTES && !may_hold_has(selector)
}

/// Whether a scan takes every selector of the rule.
pub open spec fn selectors_fit(rule: ExtractionRule) -> bool {
    &&& selector_admitted(rule.product_card_selector@)
    &&& rule.out_of_stock_filter matches Some(filter) ==> selector_admitted(filter@)
    &&& selector_admitted(rule.name_selector@)
    &&& selector_admitted(rule.href_selector@)
}

/// The cards of `cards` with none of them marked unavailable.
pub open spec fn unmarked(cards: Seq<CardView>) -> Seq<CardView> {
    cards.map_values(
        |c: CardView| CardView { unavailable: false, link: c.link, name_html: c.name_html },
    )
}

/// Whether `c` is a letter of the Latin alphabet.
pub open spec fn is_letter(c: char) -> bool {
    ('a' <= c && c <= 'z') || ('A' <= c && c <= 'Z')
}

/// Whether `c` may stand in the scheme of an address: a letter, a digit,
/// `+`, `-` or `.`.
pub open spec fn is_scheme_char(c: char) -> bool {
    is_letter(c) || ('0' <= c && c <= '9') || c == '+' || c == '-' || c == '.'
}

/// Whether `link` has a scheme that ends before the colon at `colon`: it
/// starts with a letter, and scheme characters alone stand before the colon.
pub open spec fn has_scheme(link: Seq<char>, colon: int) -> bool {
    &&& 0 < colon < link.len()
    &&& link[colon] == ':'
    &&& is_letter(link[0])
    &&& forall|i: int| 0 < i < colon ==> is_scheme_char(#[trigger] link[i])
}

/// Whether `link` is an absolute address: one that starts with a scheme and
/// a colon, as `https:` is.
pub open spec fn is_absolute(link: Seq<char>) -> bool {
    exists|colon: int| has_scheme(link, colon)
}

/// The link `link` of a page of the site with base address `base_url`,
/// as an absolute address: an absolute link is that address, any other link
/// stands behind the base address.
pub open spec fn resolved(base_url: Seq<char>, link: Seq<char>) -> Seq<char> {
    if is_absolute(link) {
        link
    } else {
        base_url + link
    }
}

/// The error of a single card, if it has one: an available card needs a
/// link and a name, and the link is looked for first.
pub open spec fn card_error(card: CardView) -> Option<ExtractError> {
    if card.unavailable {
        None
    } else if card.link is None {
        Some(ExtractError::MissingLink)
    } else if card.name_html is None {
        Some(ExtractError::MissingName)
    } else {
        None
    }
}

/// The error of the first card of `cards` that has one.
pub open spec fn first_error(cards: Seq<CardView>) -> Option<ExtractError>
    decreases cards.len(),
{
    if cards.len() == 0 {
        None
    } else {
        match first_error(cards.drop_last()) {
            Some(error) => Some(error),
            None => card_error(cards.last()),
        }
    }
}

/// The entry that a complete card stands for: the trimmed name, and the
/// link resolved against the site's base address.
pub open spec fn card_entry(card: CardView, base_url: Seq<char>) -> Entry {
    (trimmed(card.name_html->0), resolved(base_url, card.link->0))
}

/// The predicate "is available".
pub open spec fn available() -> spec_fn(CardView) -> bool {
    |c: CardView| !c.unavailable
}

/// The entries of the available cards of `cards`, in order, repetitions
/// included.
pub open spec fn listed_entries(cards: Seq<CardView>, base_url: Seq<char>) -> Seq<Entry> {
    cards.filter(available()).map_values(|c: CardView| card_entry(c, base_url))
}

/// What a page with the cards `cards` yields: the error of the first
/// incomplete available card, or else each listed entry once.
pub open spec fn extraction(cards: Seq<CardView>, base_url: Seq<char>) -> Result<
    Seq<Entry>,
    ExtractError,
> {
    match first_error(cards) {
        Some(error) => Err(error),
        None => Ok(first_occurrences(listed_entries(cards, base_url))),
    }
}

/// A text that starts with `count` white-space characters, and then ends
/// or goes on with another character, has `count` leading spaces.
proof fn lemma_leading_spaces(text: Seq<char>, count: int)
    requires
        0 <= count <= text.len(),
        forall|i: int| 0 <= i < count ==> white_space(text[i]),
        count < text.len() ==> !white_space(text[count]),
    ensures
        leading_spaces(text) == count,
    decreases count,
{
    if count > 0 {
        let rest = text.drop_first();
        assert forall|i: int| 0 <= i < count - 1 implies white_space(rest[i]) by {
            assert(rest[i] == text[i + 1]);
        }
        lemma_leading_spaces(rest, count - 1);
    }
}

/// A text that ends with `count` white-space characters, before which it
/// starts or has another character, has `count` trailing spaces.
proof fn lemma_trailing_spaces(text: Seq<char>, count: int)
    requires
        0 <= count <= text.len(),
        forall|i: int| text.len() - count <= i < text.len() ==> white_space(text[i]),
        count < text.len() ==> !white_space(text[text.len() - count - 1]),
    ensures
        trailing_spaces(text) == count,
    decreases count,
{
    if count > 0 {
        let rest = text.drop_last();
        assert forall|i: int| rest.len() - (count - 1) <= i < rest.len() implies white_space(
            rest[i],
        ) by {
            assert(rest[i] == text[i]);
        }
        lemma_trailing_spaces(rest, count - 1);
    }
}

/// The part of `text` between its leading and its trailing white space.
pub fn trim(text: &str) -> (rest: &str)
    ensures
        rest@ == trimmed(text@),
{
    let len = text.unicode_len();
    let mut index: usize = 0;
    let mut start: usize = 0;
    let mut end: usize = 0;
    for c in it: text.chars()
        invariant
            index == it.index(),
            it.seq() == text@,
            len == text@.len(),
            start <= end <= index,
            end == 0 ==> start == 0 && forall|i: int| 0 <= i < index ==> white_space(text@[i]),
            end > 0 ==> {
                &&& start < end
                &&& !white_space(text@[start as int])
                &&& !white_space(text@[end - 1])
                &&& forall|i: int| 0 <= i < start ==> white_space(text@[i])
                &&& forall|i: int| end <= i < index ==> white_space(text@[i])
            },
    {
        if !c.is_whitespace() {
            if end == 0 {
                start = index;
            }
            end = index + 1;
        }
        index += 1;
    }
    proof {
        if end == 0 {
            lemma_leading_spaces(text@, len as int);
        } else {
            lemma_leading_spaces(text@, start as int);
            lemma_trailing_spaces(text@.skip(start as int), len - end);
        }
    }
    text.substring_char(start, end)
}

/// What a page yields as mathematical values (`wanted`), said of a result.
pub open spec fn yields(
    found: Result<ProductSet, ExtractError>,
    wanted: Result<Seq<Entry>, ExtractError>,
) -> bool {
    match wanted {
        Ok(entries) => found is Ok && found->Ok_0.entries() == entries,
        Err(error) => found is Err && found->Err_0 == error,
    }
}

/// The name of the attribute that holds a link.
pub open spec fn link_attribute() -> Seq<char> {
    "href"@
}

/// What the page `document` yields under `rule`. A rule with a selector
/// that a scan does not take or that does not compile is an `InvalidRule`,
/// and a page of too many bytes is `PageTooLarge`. Otherwise the page yields what its
/// scanned cards yield; under a rule without filter no card counts as
/// unavailable.
pub open spec fn page_extraction(
    document: Seq<char>,
    rule: ExtractionRule,
    base_url: Seq<char>,
) -> Result<Seq<Entry>, ExtractError> {
    if !selectors_fit(rule) {
        Err(ExtractError::InvalidRule)
    } else if byte_len(document) > MAX_PAGE_BYTES {
        Err(ExtractError::PageTooLarge)
    } else {
        match scanned_cards(
            document,
            rule.product_card_selector@,
            rule.filter_text(),
            rule.name_selector@,
            rule.href_selector@,
            link_attribute(),
        ) {
            None => Err(ExtractError::InvalidRule),
            Some(cards) => if rule.out_of_stock_filter is Some {
                extraction(cards, base_url)
            } else {
                extraction(unmarked(cards), base_url)
            },
        }
    }
}

/// One more card adds its entry to the listed entries if it is available,
/// and nothing otherwise.
proof fn lemma_listed_entries_push(cards: Seq<CardView>, card: CardView, base_url: Seq<char>)
    ensures
        listed_entries(cards.push(card), base_url) == if card.unavailable {
            listed_entries(cards, base_url)
        } else {
            listed_entries(cards, base_url).push(card_entry(card, base_url))
        },
{
    cards.lemma_filter_push(card, available());
    if !card.unavailable {
        assert(listed_entries(cards.push(card), base_url) =~= listed_entries(cards, base_url).push(
            card_entry(card, base_url),
        ));
    }
}

/// An error among the first `count` cards is the error of all of them.
proof fn lemma_first_error_stays(cards: Seq<CardView>, count: int)
    requires
        0 <= count <= cards.len(),
        first_error(cards.take(count)) is Some,
    ensures
        first_error(cards) == first_error(cards.take(count)),
    decreases cards.len() - count,
{
    if count < cards.len() {
        assert(cards.take(count + 1).drop_last() =~= cards.take(count));
        lemma_first_error_stays(cards, count + 1);
    } else {
        assert(cards.take(count) =~= cards);
    }
}

/// Reads the products off scanned cards. Unavailable cards are passed over.
/// The first available card without a link or without a name fails the
/// whole page; otherwise each card gives the entry of its trimmed name and of
/// its link behind `base_url`, and equal entries are kept once.
pub fn products_from_cards(cards: &Vec<Card>, base_url: &str) -> (found: Result<
    ProductSet,
    ExtractError,
>)
    ensures
        yields(found, extraction(card_views(cards@), base_url@)),
{
    let ghost views = card_views(cards@);
    let mut products = ProductSet::new();
    let mut i: usize = 0;
    proof {
        reveal(Seq::filter);
    }
    while i < cards.len()
        invariant
            i <= cards.len(),
            views == card_views(cards@),
            first_error(views.take(i as int)) is None,
            products.entries() == first_occurrences(listed_entries(views.take(i as int), base_url@)),
        decreases cards.len() - i,
    {
        let card = &cards[i];
        proof {
            assert(views.take(i + 1) =~= views.take(i as int).push(card@));
            assert(views.take(i + 1).drop_last() =~= views.take(i as int));
            lemma_listed_entries_push(views.take(i as int), card@, base_url@);
        }
        if !card.unavailable {
            let link = match &card.link {
                Some(link) => link,
                None => {
                    proof {
                        lemma_first_error_stays(views, i + 1);
                    }
                    return Err(ExtractError::MissingLink);
                },
            };
            let name_html = match &card.name_html {
                Some(name_html) => name_html,
                None => {
                    proof {
                        lemma_first_error_stays(views, i + 1);
                    }
                    return Err(ExtractError::MissingName);
                },
            };
            let url = resolve(base_url, link.as_str());
            let name = trim(name_html.as_str()).to_owned();
            let entry = Matcha { name, url };
            proof {
                let listed = listed_entries(views.take(i as int), base_url@);
                assert(listed.push(entry@).drop_last() =~= listed);
            }
            products.insert(entry);
        }
        i += 1;
    }
    proof {
        assert(views.take(cards.len() as int) =~= views);
    }
    Ok(products)
}

/// Whether `link` is an absolute address.
pub fn is_absolute_link(link: &str) -> (absolute: bool)
    ensures
        absolute == is_absolute(link@),
{
    let len = link.unicode_len();
    let mut index: usize = 0;
    for c in it: link.chars()
        invariant
            index == it.index(),
            it.seq() == link@,
            len == link@.len(),
            index > 0 ==> is_letter(link@[0]),
            forall|i: int| 0 < i < index ==> is_scheme_char(#[trigger] link@[i]),
    {
        let letter = ('a' <= c && c <= 'z') || ('A' <= c && c <= 'Z');
        if index == 0 {
            if !letter {
                assert forall|colon: int| !has_scheme(link@, colon) by {}
                return false;
            }
        } else if c == ':' {
            assert(has_scheme(link@, index as int));
            return true;
        } else if !(letter || ('0' <= c && c <= '9') || c == '+' || c == '-' || c == '.') {
            assert forall|colon: int| !has_scheme(link@, colon) by {
                if 0 < colon < index {
                    assert(is_scheme_char(link@[colon]));
                } else if colon > index {
                    assert(!is_scheme_char(link@[index as int]));
                }
            }
            return false;
        }
        index += 1;
    }
    assert forall|colon: int| !has_scheme(link@, colon) by {
        if 0 < colon < link@.len() {
            assert(is_scheme_char(link@[colon]));
        }
    }
    false
}

/// The link `link` of a page of the site with base address `base_url`, as
/// an absolute address.
pub fn resolve(base_url: &str, link: &str) -> (address: String)
    ensures
        address@ == resolved(base_url@, link@),
{
    if is_absolute_link(link) {
        link.to_owned()
    } else {
        let mut address = base_url.to_owned();
        address.append(link);
        address
    }
}

/// The cards of `cards` with none of them marked unavailable.
fn without_marks(cards: Vec<Card>) -> (cleared: Vec<Card>)
    ensures
        card_views(cleared@) == unmarked(card_views(cards@)),
{
    let mut cleared: Vec<Card> = Vec::new();
    for card in it: cards
        invariant
            it.seq() == cards@,
            card_views(cleared@) == unmarked(card_views(cards@.take(it.index() as int))),
    {
        let ghost before = cleared@;
        let ghost seen = cards@.take(it.index() as int);
        let ghost marked = card@;
        let fresh = Card { unavailable: false, link: card.link, name_html: card.name_html };
        cleared.push(fresh);
        proof {
            assert(cards@.take(it.index() + 1) =~= seen.push(card));
            assert(card_views(seen.push(card)) =~= card_views(seen).push(marked));
            assert(card_views(cleared@) =~= card_views(before).push(fresh@));
            assert(unmarked(card_views(seen).push(marked)) =~= unmarked(card_views(seen)).push(
                fresh@,
            ));
        }
    }
    assert(cards@.take(cards@.len() as int) =~= cards@);
    cleared
}

/// Whether `text` has at most `limit` bytes.
fn fits(text: &str, limit: usize) -> (fitting: bool)
    ensures
        fitting == (byte_len(text@) <= limit),
{
    text.as_bytes().len() <= limit
}

/// Whether the selector `selector` may hold the pseudo-class `:has(`.
pub fn holds_has(selector: &str) -> (held: bool)
    ensures
        held == may_hold_has(selector@),
{
    let chars = chars_of(selector);
    let mut at: usize = 0;
    while at < chars.len()
        invariant
            chars@ == selector@,
            at <= chars.len(),
            forall|k: int| 0 <= k < at ==> selector@[k] != '\\',
            forall|k: int| 0 <= k < at ==> !spells_has_at(selector@, k),
        decreases chars.len() - at,
    {
        let c = chars[at];
        if c == '\\' {
            return true;
        }
        if (c == 'h' || c == 'H') && chars.len() - at >= 4 {
            let a = chars[at + 1];
            let s = chars[at + 2];
            if (a == 'a' || a == 'A') && (s == 's' || s == 'S') && chars[at + 3] == '(' {
                assert(spells_has_at(selector@, at as int));
                return true;
            }
        }
        at += 1;
    }
    false
}

/// Whether a scan takes the selector `selector`.
pub fn admits_selector(selector: &str) -> (admitted: bool)
    ensures
        admitted == selector_admitted(selector@),
{
    fits(selector, MAX_SELECTOR_BYTES) && !holds_has(selector)
}

/// Whether a scan takes every selector of `rule`.
fn rule_fits(rule: &ExtractionRule) -> (fitting: bool)
    ensures
        fitting == selectors_fit(*rule),
{
    let filter_fits = match &rule.out_of_stock_filter {
        Some(filter) => admits_selector(filter.as_str()),
        None => true,
    };
    admits_selector(rule.product_card_selector.as_str()) && filter_fits && admits_selector(
        rule.name_selector.as_str(),
    ) && admits_selector(rule.href_selector.as_str())
}

/// Reads the products off the page `document` as `rule` says, with links
/// resolved against `base_url`. A rule with a selector that a scan does not
/// take, and a page of too many bytes, are refused before anything is
/// scanned.
pub fn extract(document: &str, rule: &ExtractionRule, base_url: &str) -> (found: Result<
    ProductSet,
    ExtractError,
>)
    ensures
        yields(found, page_extraction(document@, *rule, base_url@)),
{
    if !rule_fits(rule) {
        return Err(ExtractError::InvalidRule);
    }
    if !fits(document, MAX_PAGE_BYTES) {
        return Err(ExtractError::PageTooLarge);
    }
    let filter = match &rule.out_of_stock_filter {
        Some(filter) => Some(filter.as_str()),
        None => None,
    };
    let scanned = scan_cards(
        document,
        rule.product_card_selector.as_str(),
        filter,
        rule.name_selector.as_str(),
        rule.href_selector.as_str(),
        "href",
    );
    match scanned {
        None => Err(ExtractError::InvalidRule),
        Some(cards) => if filter.is_some() {
            products_from_cards(&cards, base_url)
        } else {
            products_from_cards(&without_marks(cards), base_url)
        },
    }
}

/// Scans `document` with four selectors, all through `scraper`:
/// `Selector::parse` compiles each selector, `Html::parse_document` reads the
/// page, and `Html::select` walks the elements that `card` matches. For
/// each, `ElementRef::select` looks inside it for the first match of
/// `filter`, of `link` (whose attribute `attribute` is read with
/// `ElementRef::attr`) and of `name` (read with `ElementRef::inner_html`).
/// The contract claims only that the outcome depends on the page, the
/// selectors and the attribute's name alone, and that there is none where a
/// selector fails to compile. The parser stops the program on a text that
/// it cannot count in 32 bits, so the page is bounded. Matching may exhaust
/// the stack where a selector is long or holds `:has(`, so such selectors
/// are left out.
#[verifier::external_body]
fn scan_cards(
    document: &str,
    card: &str,
    filter: Option<&str>,
    name: &str,
    link: &str,
    attribute: &str,
) -> (found: Option<Vec<Card>>)
    requires
        byte_len(document@) <= MAX_PAGE_BYTES,
        selector_admitted(card@),
        filter matches Some(filter) ==> selector_admitted(filter@),
        selector_admitted(name@),
        selector_admitted(link@),
    ensures
        scanned_cards(
            document@,
            card@,
            match filter {
                Some(filter) => Some(filter@),
                None => None,
            },
            name@,
            link@,
            attribute@,
        ) == match found {
            Some(cards) => Some(card_views(cards@)),
            None => None,
        },
{
    let card = Selector::parse(card).ok()?;
    let gone = filter.map(Selector::parse).transpose().ok()?;
    let name = Selector::parse(name).ok()?;
    let link = Selector::parse(link).ok()?;
    let page = Html::parse_document(document);
    Some(page.select(&card).map(|c| Card {
        unavailable: gone.as_ref().is_some_and(|g| c.select(g).next().is_some()),
        link: c.select(&link).next().and_then(|a| a.attr(attribute)).map(str::to_owned),
        name_html: c.select(&name).next().map(|n| n.inner_html()),
    }).collect())
}

} // verus!
