use vstd::prelude::*;

use crate::dates::{format_rfc822, parse_ymd, rfc822_of, ymd_of};
use crate::page_metadata::PageMetadata;
use crate::text::{chars_of, push_str, string_of};

verus! {

/// One entry of the feed.
pub struct FeedItem {
    pub title: String,
    pub link: String,
    pub description: String,
    pub pub_date: String,
}

pub open spec fn item_view(i: FeedItem) -> (Seq<char>, Seq<char>, Seq<char>, Seq<char>) {
    (i.title@, i.link@, i.description@, i.pub_date@)
}

pub open spec fn items_view(s: Seq<FeedItem>) -> Seq<(Seq<char>, Seq<char>, Seq<char>, Seq<char>)> {
    s.map_values(|i: FeedItem| item_view(i))
}

/// The RSS document of a channel with the given title, link, description and language,
/// whose items are given as title, link, description and publication date.
pub uninterp spec fn rss_of(
    title: Seq<char>,
    link: Seq<char>,
    description: Seq<char>,
    language: Seq<char>,
    items: Seq<(Seq<char>, Seq<char>, Seq<char>, Seq<char>)>,
) -> Seq<char>;

/// Relies on rss's `ChannelBuilder` and `ItemBuilder` and the channel's `to_string`: the
/// serialized feed, which depends on the channel's fields alone.
#[verifier::external_body]
fn rss_document(
    title: &str,
    link: &str,
    description: &str,
    language: &str,
    items: &Vec<FeedItem>,
) -> (r: String)
    ensures
        r@ == rss_of(title@, link@, description@, language@, items_view(items@)),
{
    let items: Vec<rss::Item> = items.iter().map(
        |i|
            rss::ItemBuilder::default().title(i.title.clone()).link(i.link.clone()).description(
                i.description.clone(),
            ).pub_date(i.pub_date.clone()).build(),
    ).collect();
    rss::ChannelBuilder::default().title(title).link(link).description(description).language(
        language.to_string(),
    ).items(items).build().to_string()
}

/// The date of a feed item: a calendar date `year-month-day` in RSS form, and any other
/// text unchanged.
pub open spec fn feed_date_of(s: Seq<char>) -> Seq<char> {
    match ymd_of(s) {
        Some(d) => match rfc822_of(d.0, d.1, d.2) {
            Some(t) => t,
            None => s,
        },
        None => s,
    }
}

/// Writes a date `year-month-day` in the form RSS asks for; other text is kept as it is.
pub fn get_complaint_date(date: &str) -> (r: String)
    ensures
        r@ == feed_date_of(date@),
{
    match parse_ymd(date) {
        Some((y, m, d)) => match format_rfc822(y, m, d) {
            Some(t) => t,
            None => string_of(&chars_of(date)),
        },
        None => string_of(&chars_of(date)),
    }
}

/// Whether a page goes into the feed: neither a draft nor the error page.
pub open spec fn in_feed(m: PageMetadata) -> bool {
    !(m.is_draft || m.file_name@ == "error.html"@)
}

/// The feed items of the pages `s` for the site at `url`, in order.
pub open spec fn feed_items(url: Seq<char>, s: Seq<PageMetadata>) -> Seq<
    (Seq<char>, Seq<char>, Seq<char>, Seq<char>),
>
    decreases s.len(),
{
    if s.len() == 0 {
        Seq::empty()
    } else {
        let r = feed_items(url, s.drop_last());
        let m = s.last();
        if in_feed(m) {
            r.push((m.title@, url + "/"@ + m.file_name@, m.description@, feed_date_of(m.publish_date@)))
        } else {
            r
        }
    }
}

/// Turns the pages that go into the feed into feed items.
pub fn articles_to_items(url: &str, metadatas: &Vec<PageMetadata>) -> (r: Vec<FeedItem>)
    ensures
        items_view(r@) == feed_items(url@, metadatas@),
{
    let error_page = chars_of("error.html");
    let mut r: Vec<FeedItem> = Vec::new();
    let mut i: usize = 0;
    while i < metadatas.len()
        invariant
            i <= metadatas.len(),
            error_page@ == "error.html"@,
            items_view(r@) == feed_items(url@, metadatas@.take(i as int)),
        decreases metadatas.len() - i,
    {
        assert(metadatas@.take(i + 1).drop_last() == metadatas@.take(i as int));
        let md = &metadatas[i];
        let name = chars_of(md.file_name.as_str());
        let is_error_page = name.len() == error_page.len() && crate::text::starts_with_exec(
            &name,
            &error_page,
        );
        proof {
            if name.len() == error_page.len() {
                assert(name@.subrange(0, error_page@.len() as int) == name@);
            }
        }
        if !(md.is_draft || is_error_page) {
            let mut link = chars_of(url);
            push_str(&mut link, "/");
            push_str(&mut link, md.file_name.as_str());
            let item = FeedItem {
                title: string_of(&chars_of(md.title.as_str())),
                link: string_of(&link),
                description: string_of(&chars_of(md.description.as_str())),
                pub_date: get_complaint_date(md.publish_date.as_str()),
            };
            let ghost before = r@;
            r.push(item);
            assert(items_view(r@) == items_view(before).push(item_view(item)));
        }
        i += 1;
    }
    assert(metadatas@.take(metadatas.len() as int) == metadatas@);
    r
}

/// The feed document of a site: its title, URL and description, in English, with an item
/// for each page that goes into the feed.
pub fn generate_rss(
    website_title: &str,
    url: &str,
    description: &str,
    metadatas: &Vec<PageMetadata>,
) -> (r: String)
    ensures
        r@ == rss_of(website_title@, url@, description@, "en-us"@, feed_items(url@, metadatas@)),
{
    let items = articles_to_items(url, metadatas);
    rss_document(website_title, url, description, "en-us", &items)
}

} // verus!
