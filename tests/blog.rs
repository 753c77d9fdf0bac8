use genereto::blog::{
    entry_action, get_page_file_name, paginate, should_list, should_write, EntryAction,
};
use genereto::blog::build_blog_index_pages;
use genereto::config::{GeneretoConfigBlogRaw, GeneretoConfigRaw};
use genereto::{
    build_index_pages, sort_by_publish_date, DraftsOptions, GeneretoConfig, GeneretoError, PageMetadata,
};

fn page(title: &str, date: &str, file_name: &str, is_draft: bool) -> PageMetadata {
    PageMetadata {
        title: title.to_string(),
        publish_date: date.to_string(),
        keywords: String::new(),
        reading_time_mins: "1".to_string(),
        description: format!("About {}", title),
        file_name: file_name.to_string(),
        table_of_contents: String::new(),
        last_modified_date: date.to_string(),
        cover_image: String::new(),
        is_draft,
        add_title: false,
        url: None,
        custom_metadata: Vec::new(),
    }
}

fn five_posts() -> Vec<PageMetadata> {
    (1..=5)
        .map(|i| {
            page(
                &format!("Post {}", i),
                &format!("2024-01-{:02}", i),
                &format!("post-{}.html", i),
                false,
            )
        })
        .collect()
}

const TEMPLATE: &str = "<h1>$GENERETO['title']</h1>\n<!-- start_content -->\n<a href=\"$GENERETO['file_name']\">$GENERETO['title']</a>\n<!-- end_content -->\n$GENERETO['pagination']";

fn titles(pages: &[PageMetadata]) -> Vec<String> {
    pages.iter().map(|p| p.title.clone()).collect()
}

#[test]
fn sorting_puts_most_recent_first() {
    let mut pages = five_posts();
    pages.swap(0, 3);
    sort_by_publish_date(&mut pages);
    assert_eq!(
        titles(&pages),
        vec!["Post 5", "Post 4", "Post 3", "Post 2", "Post 1"]
    );
}

#[test]
fn sorting_twice_gives_the_same_order() {
    let mut pages = vec![
        page("A", "2024-01-02", "a.html", false),
        page("B", "2024-03-01", "b.html", false),
        page("C", "2024-01-02", "c.html", false),
        page("D", "", "d.html", false),
    ];
    sort_by_publish_date(&mut pages);
    let once = titles(&pages);
    assert_eq!(once, vec!["B", "A", "C", "D"]);
    sort_by_publish_date(&mut pages);
    assert_eq!(titles(&pages), once);
}

#[test]
fn pagination_of_five_entries_by_two() {
    let plan = paginate(5, Some(2), "index.html");
    assert_eq!(plan.len(), 3);
    let names: Vec<&str> = plan.iter().map(|p| p.file_name.as_str()).collect();
    assert_eq!(names, vec!["index.html", "index-page-2.html", "index-page-3.html"]);
    assert_eq!((plan[0].first, plan[0].last), (0, 2));
    assert_eq!((plan[1].first, plan[1].last), (2, 4));
    assert_eq!((plan[2].first, plan[2].last), (4, 5));
    let first = plan[0].pagination.as_ref().unwrap();
    assert!(!first.has_previous && first.has_next);
    assert_eq!(first.previous_url, "");
    assert_eq!(first.next_url, "index-page-2.html");
    let second = plan[1].pagination.as_ref().unwrap();
    assert!(second.has_previous && second.has_next);
    assert_eq!(second.previous_url, "index.html");
    assert_eq!(second.next_url, "index-page-3.html");
    let third = plan[2].pagination.as_ref().unwrap();
    assert!(third.has_previous && !third.has_next);
    assert_eq!(third.next_url, "");
    assert_eq!((third.current_page, third.total_pages), (3, 3));
}

#[test]
fn no_page_size_gives_one_page() {
    for limit in [None, Some(0)] {
        let plan = paginate(7, limit, "blog.html");
        assert_eq!(plan.len(), 1);
        assert_eq!(plan[0].file_name, "blog.html");
        assert_eq!((plan[0].first, plan[0].last), (0, 7));
        assert!(plan[0].pagination.is_none());
    }
    let empty = paginate(0, Some(3), "index.html");
    assert_eq!(empty.len(), 1);
    assert_eq!((empty[0].first, empty[0].last), (0, 0));
}

#[test]
fn page_file_names() {
    assert_eq!(get_page_file_name("blog.html", 1), "blog.html");
    assert_eq!(get_page_file_name("blog.html", 2), "blog-page-2.html");
    assert_eq!(get_page_file_name("index", 12), "index-page-12");
    assert_eq!(get_page_file_name("a.b.html", 3), "a.b-page-3.html");
}

#[test]
fn paginated_index_pages() {
    let mut pages = five_posts();
    sort_by_publish_date(&mut pages);
    let out = build_index_pages(TEMPLATE, &pages, &DraftsOptions::Build, Some(2), "index.html", "Blog")
        .unwrap();
    assert_eq!(out.len(), 3);
    let (name1, page1) = &out[0];
    assert_eq!(name1, "index.html");
    assert!(page1.contains("<h1>Blog</h1>"));
    assert!(page1.contains("Post 5") && page1.contains("Post 4"));
    assert!(!page1.contains("Post 3") && !page1.contains("Post 1"));
    assert!(page1.contains("index-page-2.html"));
    assert!(!page1.contains("pagination-prev"));
    assert!(page1.contains("Page 1 of 3"));
    let (name2, page2) = &out[1];
    assert_eq!(name2, "index-page-2.html");
    assert!(page2.contains("Post 3") && page2.contains("Post 2"));
    assert!(page2.contains("href=\"index.html\"") && page2.contains("index-page-3.html"));
    let (name3, page3) = &out[2];
    assert_eq!(name3, "index-page-3.html");
    assert!(page3.contains("Post 1") && !page3.contains("Post 5"));
    assert!(!page3.contains("pagination-next"));
    assert!(page3.contains("Page 3 of 3"));
}

#[test]
fn unpaginated_index_page() {
    let pages = five_posts();
    let out = build_index_pages(TEMPLATE, &pages, &DraftsOptions::Build, None, "index.html", "Blog")
        .unwrap();
    assert_eq!(out.len(), 1);
    assert!(!out[0].1.contains("pagination"));
    assert!(!out[0].1.contains("start_content"));
    assert_eq!(
        out[0].1,
        "<h1>Blog</h1>\n<a href=\"post-1.html\">Post 1</a>\n<a href=\"post-2.html\">Post 2</a>\n<a href=\"post-3.html\">Post 3</a>\n<a href=\"post-4.html\">Post 4</a>\n<a href=\"post-5.html\">Post 5</a>\n\n"
    );
}

#[test]
fn blank_entry_template_uses_default() {
    let pages = vec![page("Only", "2024-01-01", "only.html", false)];
    let template = "<!-- start_content -->  \n <!-- end_content -->";
    let out = build_index_pages(template, &pages, &DraftsOptions::Build, None, "i.html", "T").unwrap();
    assert!(out[0].1.contains("<div class=\"post\">"));
    assert!(out[0].1.contains("<a href=\"only.html\">Only</a>"));
    assert!(out[0].1.contains("About Only"));
}

#[test]
fn index_template_without_markers_is_an_error() {
    let pages = five_posts();
    assert!(matches!(
        build_index_pages("<html></html>", &pages, &DraftsOptions::Build, None, "i.html", "T"),
        Err(GeneretoError::MissingTemplateMarker)
    ));
    assert!(matches!(
        build_index_pages(
            "<!-- end_content --><!-- start_content -->",
            &pages,
            &DraftsOptions::Build,
            None,
            "i.html",
            "T"
        ),
        Err(GeneretoError::MissingTemplateMarker)
    ));
}

#[test]
fn draft_policy_decides_writing_and_listing() {
    let draft = page("Draft", "2024-02-01", "draft.html", true);
    let pages = vec![draft.clone(), page("Done", "2024-01-01", "done.html", false)];
    let template = "<!-- start_content -->$GENERETO['title'];<!-- end_content -->";

    assert!(should_write(true, &DraftsOptions::Build));
    assert!(!should_list(&draft, &DraftsOptions::Build));
    let build = build_index_pages(template, &pages, &DraftsOptions::Build, None, "i.html", "T").unwrap();
    assert_eq!(build[0].1, "Done;\n");

    assert!(should_write(true, &DraftsOptions::Dev));
    assert!(should_list(&draft, &DraftsOptions::Dev));
    let dev = build_index_pages(template, &pages, &DraftsOptions::Dev, None, "i.html", "T").unwrap();
    assert_eq!(dev[0].1, "Draft;\nDone;\n");

    assert!(!should_write(true, &DraftsOptions::Hide));
    assert!(!should_list(&draft, &DraftsOptions::Hide));
    let hide = build_index_pages(template, &pages, &DraftsOptions::Hide, None, "i.html", "T").unwrap();
    assert_eq!(hide[0].1, "Done;\n");
}

#[test]
fn error_page_is_never_listed() {
    let error_page = page("Oops", "2024-01-01", "error.html", false);
    assert!(!should_list(&error_page, &DraftsOptions::Dev));
    assert!(should_write(false, &DraftsOptions::Hide));
}

#[test]
fn drafts_options_constructor() {
    assert!(matches!(DraftsOptions::new(true), DraftsOptions::Dev));
    assert!(matches!(DraftsOptions::new(false), DraftsOptions::Build));
    assert!(DraftsOptions::Dev.is_dev() && !DraftsOptions::Build.is_dev());
    assert!(DraftsOptions::Hide.is_hide() && !DraftsOptions::Dev.is_hide());
}

fn config(blog_title: Option<&str>) -> GeneretoConfig {
    let raw = GeneretoConfigRaw {
        template: "test_template".to_string(),
        template_base_path: None,
        title: "Main Title".to_string(),
        url: "test.com".to_string(),
        description: "Test description".to_string(),
        enable_jinja: false,
        blog: GeneretoConfigBlogRaw {
            base_template: "blog-index.html".to_string(),
            index_name: "blog.html".to_string(),
            destination: String::new(),
            generate_single_pages: true,
            title: blog_title.map(|t| t.to_string()),
            default_cover_image: "cover.jpg".to_string(),
            max_entries_per_page: None,
        },
    };
    GeneretoConfig::load_from_folder("", raw)
}

#[test]
fn test_build_index_page() {
    let mut articles = vec![
        page("Test Article 1", "2024-01-01", "article1.html", false),
        page("Test Article 2", "2024-01-02", "article2.html", false),
    ];
    articles[0].description = "Test description 1".to_string();
    articles[1].description = "Test description 2".to_string();
    let template = format!(
        "<!DOCTYPE html><html><body><title>$GENERETO['title']</title>{}\n<div class=\"post\">\n<h2>$GENERETO['title']</h2>\n<p>$GENERETO['description']</p>\n</div>\n{}\n</body></html>",
        "<!-- start_content -->", "<!-- end_content -->"
    );
    let drafts_options = DraftsOptions::Build;

    let with_blog_title = config(Some("Custom Blog Title"));
    let out = build_blog_index_pages(&with_blog_title, &template, &articles, &drafts_options).unwrap();
    assert_eq!(out[0].0, "blog.html");
    let output_content = &out[0].1;
    assert!(output_content.contains("<title>Custom Blog Title</title>"));
    assert!(output_content.contains("<h2>Test Article 1</h2>"));
    assert!(output_content.contains("<p>Test description 1</p>"));
    assert!(output_content.contains("<h2>Test Article 2</h2>"));
    assert!(output_content.contains("<p>Test description 2</p>"));

    let without_blog_title = config(None);
    let out = build_blog_index_pages(&without_blog_title, &template, &articles, &drafts_options).unwrap();
    assert!(out[0].1.contains("<title>Main Title</title>"));
}

#[test]
fn index_title_prefers_the_blog_title() {
    assert_eq!(config(Some("Blog")).blog_index_title(), "Blog");
    assert_eq!(config(None).blog_index_title(), "Main Title");
}

#[test]
fn blog_is_generated_with_entries_or_manifest() {
    assert!(!genereto::blog::should_generate_blog(false, false));
    assert!(genereto::blog::should_generate_blog(true, false));
    assert!(genereto::blog::should_generate_blog(false, true));
}

#[test]
fn entries_of_a_content_folder() {
    assert!(matches!(entry_action("blog", true, false, "blog"), EntryAction::SkipDirectory));
    assert!(matches!(entry_action("images", true, false, "blog"), EntryAction::CopyDirectory));
    assert!(matches!(entry_action("post.md", false, true, "blog"), EntryAction::CompilePage));
    assert!(matches!(entry_action("notes.txt", false, true, "blog"), EntryAction::Skip));
    assert!(matches!(entry_action(".md", false, true, "blog"), EntryAction::Skip));
}
