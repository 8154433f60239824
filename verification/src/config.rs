//! The monitored sites and the request that fetches their pages.

use crate::extract::ExtractionRule;
use vstd::prelude::*;

pub use crate::commands::Site;
pub use crate::product::Matcha;

verus! {

/// The `User-Agent` that a fetch announces.
pub const USER_AGENT: &'static str =
    "Mozilla/5.0 (Windows NT 10.0; Win64; x64) AppleWebKit/537.36 (KHTML, like Gecko) Chrome/91.0.4472.124 Safari/537.36";

/// The `Accept-Language` that a fetch announces.
pub const ACCEPT_LANGUAGE: &'static str = "en-US,en;q=0.9";

/// The `Accept` that a fetch announces.
pub const ACCEPT: &'static str =
    "text/html,application/xhtml+xml,application/xml;q=0.9,image/webp,*/*;q=0.8";

/// The headers of the request that fetches a page, as names and values:
/// those of a browser.
pub fn request_headers() -> (headers: Vec<(&'static str, &'static str)>)
    ensures
        headers@.len() == 3,
        headers@[0].0@ == "User-Agent"@ && headers@[0].1@ == USER_AGENT@,
        headers@[1].0@ == "Accept-Language"@ && headers@[1].1@ == ACCEPT_LANGUAGE@,
        headers@[2].0@ == "Accept"@ && headers@[2].1@ == ACCEPT@,
{
    let mut headers: Vec<(&'static str, &'static str)> = Vec::new();
    headers.push(("User-Agent", USER_AGENT));
    headers.push(("Accept-Language", ACCEPT_LANGUAGE));
    headers.push(("Accept", ACCEPT));
    headers
}

/// Whether `site` is a site of which nothing has been seen yet, with this
/// address, these selectors and this base address.
pub open spec fn is_fresh_site(
    site: Site,
    url: Seq<char>,
    card: Seq<char>,
    filter: Option<Seq<char>>,
    name: Seq<char>,
    href: Seq<char>,
    base_url: Seq<char>,
) -> bool {
    &&& site.url@ == url
    &&& site.rule.product_card_selector@ == card
    &&& site.rule.filter_text() == filter
    &&& site.rule.name_selector@ == name
    &&& site.rule.href_selector@ == href
    &&& site.base_url@ == base_url
    &&& site.matchas_in_stock is Uninitialized
}

/// A site whose cards carry a mark when they are out of stock.
fn site_with_filter(
    url: &str,
    card: &str,
    filter: &str,
    name: &str,
    href: &str,
    base_url: &str,
) -> (site: Site)
    ensures
        is_fresh_site(site, url@, card@, Some(filter@), name@, href@, base_url@),
{
    let rule = ExtractionRule {
        product_card_selector: card.to_owned(),
        out_of_stock_filter: Some(filter.to_owned()),
        name_selector: name.to_owned(),
        href_selector: href.to_owned(),
    };
    Site::new(url, rule, base_url)
}

/// A site whose card selector matches the cards in stock only.
fn site_without_filter(url: &str, card: &str, name: &str, href: &str, base_url: &str) -> (site:
    Site)
    ensures
        is_fresh_site(site, url@, card@, None, name@, href@, base_url@),
{
    let rule = ExtractionRule {
        product_card_selector: card.to_owned(),
        out_of_stock_filter: None,
        name_selector: name.to_owned(),
        href_selector: href.to_owned(),
    };
    Site::new(url, rule, base_url)
}

/// The monitored sites, none of them seen yet.
pub fn sites() -> (sites: Vec<Site>)
    ensures
        sites@.len() == 4,
        is_fresh_site(
            sites@[0],
            "https://global.ippodo-tea.co.jp/collections/matcha"@,
            "li.m-product-card"@,
            Some("button.out-of-stock"@),
            ".m-product-card__name a"@,
            ".m-product-card__name a"@,
            "https://global.ippodo-tea.co.jp"@,
        ),
        is_fresh_site(
            sites@[1],
            "https://www.marukyu-koyamaen.co.jp/english/shop/products/catalog/matcha"@,
            "li.instock"@,
            None,
            ".product-name h4"@,
            "a.woocommerce-loop-product__link"@,
            ""@,
        ),
        is_fresh_site(
            sites@[2],
            "https://www.marukyu-koyamaen.co.jp/english/shop/products/catalog/sweets"@,
            "li.instock"@,
            None,
            ".product-name h4"@,
            "a.woocommerce-loop-product__link"@,
            ""@,
        ),
        is_fresh_site(
            sites@[3],
            "https://www.sazentea.com/en/products/c22-ceremonial-grade-matcha"@,
            "div.product"@,
            None,
            ".product-name a"@,
            ".product-name a"@,
            "https://www.sazentea.com"@,
        ),
{
    let mut sites: Vec<Site> = Vec::new();
    sites.push(
        site_with_filter(
            "https://global.ippodo-tea.co.jp/collections/matcha",
            "li.m-product-card",
            "button.out-of-stock",
            ".m-product-card__name a",
            ".m-product-card__name a",
            "https://global.ippodo-tea.co.jp",
        ),
    );
    sites.push(
        site_without_filter(
            "https://www.marukyu-koyamaen.co.jp/english/shop/products/catalog/matcha",
            "li.instock",
            ".product-name h4",
            "a.woocommerce-loop-product__link",
            "",
        ),
    );
    sites.push(
        site_without_filter(
            "https://www.marukyu-koyamaen.co.jp/english/shop/products/catalog/sweets",
            "li.instock",
            ".product-name h4",
            "a.woocommerce-loop-product__link",
            "",
        ),
    );
    sites.push(
        site_without_filter(
            "https://www.sazentea.com/en/products/c22-ceremonial-grade-matcha",
            "div.product",
            ".product-name a",
            ".product-name a",
            "https://www.sazentea.com",
        ),
    );
    sites
}

} // verus!
