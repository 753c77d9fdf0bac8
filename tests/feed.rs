use genereto::feed::{articles_to_items, generate_rss, get_complaint_date};
use genereto::PageMetadata;

fn page(title: &str, date: &str, file_name: &str, is_draft: bool) -> PageMetadata {
    PageMetadata {
        title: title.to_string(),
        publish_date: date.to_string(),
        keywords: String::new(),
        reading_time_mins: "1".to_string(),
        description: format!("About {}", title),
        file_name: file_name.to_string(),
        table_of_contents: String::new(),
        last_modified_date: date.to_string(),
        cover_image: String::new(),
        is_draft,
        add_title: false,
        url: None,
        custom_metadata: Vec::new(),
    }
}

#[test]
fn test_get_complaint_date() {
    assert_eq!(
        get_complaint_date("2018-08-06"),
        "Mon, 06 Aug 2018 00:00:00 UTC"
    );
}

#[test]
fn unparseable_feed_date_is_kept() {
    assert_eq!(get_complaint_date("sometime"), "sometime");
    assert_eq!(get_complaint_date(""), "");
}

#[test]
fn feed_skips_drafts_and_error_page() {
    let pages = vec![
        page("A", "2024-01-02", "a.html", false),
        page("Draft", "2024-01-03", "d.html", true),
        page("Oops", "2024-01-04", "error.html", false),
        page("B", "bad date", "b.html", false),
    ];
    let items = articles_to_items("https://site.org", &pages);
    assert_eq!(items.len(), 2);
    assert_eq!(items[0].title, "A");
    assert_eq!(items[0].link, "https://site.org/a.html");
    assert_eq!(items[0].description, "About A");
    assert_eq!(items[0].pub_date, "Tue, 02 Jan 2024 00:00:00 UTC");
    assert_eq!(items[1].pub_date, "bad date");
}

#[test]
fn feed_document_holds_channel_and_items() {
    let pages = vec![page("A", "2024-01-02", "a.html", false)];
    let rss = generate_rss("My Site", "https://site.org", "All about it", &pages);
    assert!(rss.contains("<title>My Site</title>"));
    assert!(rss.contains("<link>https://site.org</link>"));
    assert!(rss.contains("<language>en-us</language>"));
    assert!(rss.contains("<link>https://site.org/a.html</link>"));
    assert!(rss.contains("<pubDate>Tue, 02 Jan 2024 00:00:00 UTC</pubDate>"));
}
