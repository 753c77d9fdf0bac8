use genereto::blog::paginate;
use genereto::config::{GeneretoConfigBlogRaw, GeneretoConfigRaw};
use genereto::context::TemplateContext;
use genereto::{GeneretoConfig, PageMetadata, PageMetadataRaw};

fn config() -> GeneretoConfig {
    GeneretoConfig::load_from_folder(
        "p",
        GeneretoConfigRaw {
            template: "main".to_string(),
            template_base_path: None,
            title: "Site".to_string(),
            url: "https://site.org".to_string(),
            description: "About".to_string(),
            enable_jinja: true,
            blog: GeneretoConfigBlogRaw::default(),
        },
    )
}

fn page(title: &str) -> PageMetadata {
    let raw = PageMetadataRaw {
        title: title.to_string(),
        publish_date: "2024-01-01".to_string(),
        is_draft: false,
        keywords: "k".to_string(),
        show_table_of_contents: false,
        add_title: false,
        description: Some("d".to_string()),
        cover_image: None,
        url: Some("https://ext.org".to_string()),
        template: None,
        custom_metadata: vec![("author".to_string(), "Ann".to_string())],
    };
    PageMetadata::new(raw, "", &format!("{}.md", title), "", None).unwrap()
}

#[test]
fn page_context_mirrors_the_page() {
    let m = page("one");
    let ctx = TemplateContext::for_page(&config(), &m, "<p>x</p>");
    assert_eq!(ctx.site.title, "Site");
    assert_eq!(ctx.site.url, "https://site.org");
    let p = ctx.page.unwrap();
    assert_eq!(p.title, "one");
    assert_eq!(p.file_name, "one.html");
    assert_eq!(p.article_url, "https://ext.org");
    assert_eq!(p.website_url, "https://site.org");
    assert_eq!(p.custom_metadata, vec![("author".to_string(), "Ann".to_string())]);
    assert_eq!(ctx.content.as_deref(), Some("<p>x</p>"));
    assert!(ctx.articles.is_empty() && ctx.pagination.is_none());
}

#[test]
fn index_context_lists_the_chosen_pages() {
    let pages = vec![page("a"), page("b"), page("c")];
    let plan = paginate(3, Some(2), "index.html");
    let ctx = TemplateContext::for_index(&config(), &pages, &[2, 0], plan[1].pagination.as_ref());
    let titles: Vec<&str> = ctx.articles.iter().map(|a| a.title.as_str()).collect();
    assert_eq!(titles, vec!["c", "a"]);
    let nav = ctx.pagination.unwrap();
    assert_eq!((nav.current_page, nav.total_pages), (2, 2));
    assert_eq!(nav.previous_url, "index.html");
    assert!(ctx.page.is_none() && ctx.content.is_none());
}
