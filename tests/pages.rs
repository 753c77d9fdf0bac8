use genereto::{compile_page_phase_2, GeneretoError, PageMetadataRaw};

fn raw(title: &str, add_title: bool) -> PageMetadataRaw {
    PageMetadataRaw {
        title: title.to_string(),
        publish_date: "2024-01-01".to_string(),
        is_draft: false,
        keywords: "k".to_string(),
        show_table_of_contents: false,
        add_title,
        description: Some("desc".to_string()),
        cover_image: None,
        url: None,
        template: None,
        custom_metadata: Vec::new(),
    }
}

#[test]
fn test_compile_page() {}

#[test]
fn page_is_rendered_into_template() {
    let template = "<title>$GENERETO['title']</title><!-- start_content -->REPLACED<!-- end_content --><p>$GENERETO['description']</p>";
    let (page, metadata) = compile_page_phase_2(
        "## Hello World{#hello-world}\n\nSome **bold** text. $GENERETO{hidden}\n".to_string(),
        template,
        raw("My Page", false),
        "",
        "my-page.md",
        None,
    )
    .unwrap();
    assert_eq!(metadata.file_name, "my-page.html");
    assert!(page.starts_with("<title>My Page</title>"));
    assert!(page.contains("<h2 id=\"hello-world\">Hello World</h2>"));
    assert!(page.contains("<strong>bold</strong>"));
    assert!(!page.contains("hidden"));
    assert!(!page.contains("REPLACED"));
    assert!(page.ends_with("<p>desc</p>"));
}

#[test]
fn page_title_heading_is_added() {
    let template = "<!-- start_content --><!-- end_content -->";
    let (page, _) = compile_page_phase_2(
        "text\n".to_string(),
        template,
        raw("Big", true),
        "",
        "b.md",
        None,
    )
    .unwrap();
    assert!(page.starts_with("<h1>Big</h1>"));
}

#[test]
fn page_template_without_markers_is_an_error() {
    let result = compile_page_phase_2(
        "text".to_string(),
        "<html>no markers</html>",
        raw("T", false),
        "",
        "t.md",
        None,
    );
    assert!(matches!(result, Err(GeneretoError::MissingTemplateMarker)));
}

#[test]
fn invalid_date_comes_before_marker_check() {
    let mut r = raw("T", false);
    r.publish_date = "not a date".to_string();
    let result = compile_page_phase_2("text".to_string(), "<html></html>", r, "", "t.md", None);
    assert!(matches!(result, Err(GeneretoError::InvalidDate(_))));
}
