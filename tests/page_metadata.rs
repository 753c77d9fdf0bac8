use genereto::page_metadata::{
    contains_todos, estimate_reading_time, generate_table_of_contents,
    get_description, get_last_modified_date, remove_after_last_character, truncate_text,
};
use genereto::parser::add_ids_to_headings;
use genereto::{GeneretoError, PageMetadata, PageMetadataRaw};

fn raw(title: &str, publish_date: &str) -> PageMetadataRaw {
    PageMetadataRaw {
        title: title.to_string(),
        publish_date: publish_date.to_string(),
        is_draft: false,
        keywords: String::new(),
        show_table_of_contents: false,
        add_title: false,
        description: None,
        cover_image: None,
        url: None,
        template: None,
        custom_metadata: Vec::new(),
    }
}

#[test]
fn test_table_of_contents() {
    let test_input = r#"
## Introduction
## Getting Started
### Installation
## Basic Usage
# Advanced Features!!!!
"#;
    let expected: &str = "
<ul class=\"table_of_contents\">
<li><a href=\"#introduction\" class=\"table_of_contents-indent-2\">Introduction</a></li>
<li><a href=\"#getting-started\" class=\"table_of_contents-indent-2\">Getting Started</a>
<ul>
<li><a href=\"#installation\" class=\"table_of_contents-indent-3\">Installation</a>
</ul>
<li><a href=\"#basic-usage\" class=\"table_of_contents-indent-2\">Basic Usage</a>
</ul>
<li><a href=\"#advanced-features\" class=\"table_of_contents-indent-1\">Advanced Features!!!!</a></ul>";

    let table_of_contents = generate_table_of_contents(test_input);
    assert_eq!(table_of_contents.trim(), expected.trim());
    let test_input2 = r#"
## Introduction
## Getting Started
### Installation
## Basic Usage
### Advanced Features!!!!
"#;

    let expected2 = "<ul class=\"table_of_contents\">
<li><a href=\"#introduction\" class=\"table_of_contents-indent-2\">Introduction</a></li>
<li><a href=\"#getting-started\" class=\"table_of_contents-indent-2\">Getting Started</a>
<ul>
<li><a href=\"#installation\" class=\"table_of_contents-indent-3\">Installation</a>
</ul>
<li><a href=\"#basic-usage\" class=\"table_of_contents-indent-2\">Basic Usage</a>
<ul>
<li><a href=\"#advanced-features\" class=\"table_of_contents-indent-3\">Advanced Features!!!!</a></ul>
</ul>";
    let table_of_contents = generate_table_of_contents(test_input2);
    assert_eq!(table_of_contents.trim(), expected2.trim());
}

#[test]
fn test_remove_after_last_character() {
    assert_eq!(
        remove_after_last_character("QA {hello} {id}", '{').trim(),
        "QA {hello}"
    );
    assert_eq!(
        remove_after_last_character("Some text without braces", '{'),
        "Some text without braces"
    );
}

#[test]
fn test_get_description() {
    const TEST_INPUT: &str = "## Introduction {#introduction}\
        \nThis is a test description.";
    const EXPECTED: &str = "This is a test description.";
    assert_eq!(get_description(TEST_INPUT, 100), EXPECTED);

    const TEST_INPUT_LINK: &str = "hello world! [how](http://google.com) are you?";
    const EXPECTED_LINK: &str = "hello world! how are you?";
    assert_eq!(
        get_description(TEST_INPUT_LINK, TEST_INPUT_LINK.len()),
        EXPECTED_LINK
    );
}

#[test]
fn test_todos() {
    const TEST_INPUT: &str = "## Introduction {#introduction}\
        \nThis is a test description. $GENERETO{TODO: finish this page}";
    assert!(contains_todos(TEST_INPUT));
}

#[test]
fn test_custom_metadata() {
    let custom_metadata = vec![
        ("co_authors".to_string(), "John Doe, Jane Smith".to_string()),
        (
            "project_url".to_string(),
            "https://github.com/example".to_string(),
        ),
    ];

    let metadata = PageMetadata {
        title: "Test".to_string(),
        publish_date: "2024-01-01".to_string(),
        keywords: "test".to_string(),
        reading_time_mins: "1".to_string(),
        description: "test".to_string(),
        file_name: "test.html".to_string(),
        table_of_contents: "".to_string(),
        last_modified_date: "2024-01-01".to_string(),
        cover_image: "test.jpg".to_string(),
        is_draft: false,
        add_title: false,
        url: None,
        custom_metadata,
    };

    let variables = metadata.get_variables();
    assert!(variables.iter().any(
        |(key, value)| *key == "$GENERETO['co_authors']" && value == "John Doe, Jane Smith"
    ));
    assert!(variables
        .iter()
        .any(|(key, value)| *key == "$GENERETO['project_url']"
            && value == "https://github.com/example"));

    let template = "Authors: $GENERETO['co_authors']\nProject: $GENERETO['project_url']";
    let result = metadata.apply(template.to_string());
    assert_eq!(
        result,
        "Authors: John Doe, Jane Smith\nProject: https://github.com/example"
    );
}

#[test]
fn toc_anchors_match_injected_ids() {
    let content = add_ids_to_headings("## First Part\ntext\n### Sub-part: two!\n```\n## code\n```\n");
    assert!(content.contains("## First Part{#first-part}"));
    assert!(content.contains("### Sub-part: two!{#subpart-two}"));
    let toc = generate_table_of_contents(&content);
    assert!(toc.contains("href=\"#first-part\""));
    assert!(toc.contains("href=\"#subpart-two\""));
    assert!(toc.contains(">Sub-part: two!</a>"));
    assert!(!toc.contains("code"));
}

#[test]
fn toc_closes_each_level_when_going_up() {
    let toc = generate_table_of_contents("## a\n### b\n#### c\n## d\n");
    assert_eq!(
        toc,
        "<ul class=\"table_of_contents\">\n<li><a href=\"#a\" class=\"table_of_contents-indent-2\">a</a>\n<ul>\n<li><a href=\"#b\" class=\"table_of_contents-indent-3\">b</a>\n<ul>\n<li><a href=\"#c\" class=\"table_of_contents-indent-4\">c</a>\n</ul>\n</ul>\n<li><a href=\"#d\" class=\"table_of_contents-indent-2\">d</a></ul>"
    );
}

#[test]
fn toc_of_content_without_headings() {
    assert_eq!(
        generate_table_of_contents("just text\n"),
        "<ul class=\"table_of_contents\">\n</ul>"
    );
}

#[test]
fn reading_time_rounds_up() {
    assert_eq!(estimate_reading_time(""), 0);
    assert_eq!(estimate_reading_time("one"), 1);
    let words = vec!["word"; 238].join(" ");
    assert_eq!(estimate_reading_time(&words), 1);
    let more = format!("{} extra", words);
    assert_eq!(estimate_reading_time(&more), 2);
}

#[test]
fn reading_time_skips_symbol_only_tokens() {
    let symbols = vec!["--- 42 !!"; 300].join(" ");
    assert_eq!(estimate_reading_time(&symbols), 0);
    let letters = vec!["héllo"; 239].join("\t");
    assert_eq!(estimate_reading_time(&letters), 2);
}

#[test]
fn truncation_cuts_at_a_word_boundary() {
    assert_eq!(truncate_text("hello brave new world", 13), "hello brave...");
    assert_eq!(truncate_text("hello brave new world", 11), "hello...");
    assert_eq!(truncate_text("abcdefghij", 4), "abcd...");
}

#[test]
fn short_text_is_not_truncated() {
    assert_eq!(truncate_text("short text", 10), "short text");
    assert_eq!(truncate_text("", 0), "");
}

#[test]
fn description_is_cut_to_the_limit() {
    let article = "First line of words here\nsecond line goes on and on";
    assert_eq!(get_description(article, 10), "First...");
}

#[test]
fn cover_image_resolution() {
    let absolute = "https://example.com/a.jpg".to_string();
    assert_eq!(
        PageMetadata::get_cover_image("default.jpg", Some(&absolute), "post.html"),
        "https://example.com/a.jpg"
    );
    let relative = "x.jpg".to_string();
    assert_eq!(
        PageMetadata::get_cover_image("default.jpg", Some(&relative), "post.html"),
        "post/x.jpg"
    );
    assert_eq!(
        PageMetadata::get_cover_image("default.jpg", None, "post.html"),
        "default.jpg"
    );
    let empty = String::new();
    assert_eq!(
        PageMetadata::get_cover_image("default.jpg", Some(&empty), "post.html"),
        "default.jpg"
    );
    assert_eq!(PageMetadata::get_cover_image("", None, "post.html"), "");
}

#[test]
fn last_modified_never_precedes_publish_date() {
    assert_eq!(
        get_last_modified_date("2024-03-01", Some("2024-01-01".to_string())).unwrap(),
        "2024-03-01"
    );
    assert_eq!(
        get_last_modified_date("2024-03-01", Some("2024-05-01".to_string())).unwrap(),
        "2024-05-01"
    );
    assert_eq!(
        get_last_modified_date("2024-03-01", None).unwrap(),
        "2024-03-01"
    );
    assert_eq!(
        get_last_modified_date("", Some("2024-05-01".to_string())).unwrap(),
        "2024-05-01"
    );
    assert_eq!(get_last_modified_date("", None).unwrap(), "");
    assert_eq!(
        get_last_modified_date("2024-03-01", Some(String::new())).unwrap(),
        "2024-03-01"
    );
}

#[test]
fn invalid_dates_are_rejected() {
    assert!(matches!(
        get_last_modified_date("March 1st", None),
        Err(GeneretoError::InvalidDate(_))
    ));
    assert!(matches!(
        get_last_modified_date("2024-03-01", Some("yesterday".to_string())),
        Err(GeneretoError::InvalidDate(_))
    ));
    assert!(matches!(
        PageMetadata::new(raw("T", "2024-02-30"), "", "a.md", "", None),
        Err(GeneretoError::InvalidDate(_))
    ));
}

#[test]
fn enrichment_without_todo_keeps_title() {
    let m = PageMetadata::new(raw("Hello", "2024-01-01"), "Some words here.", "hello.md", "c.jpg", None)
        .unwrap();
    assert!(!m.is_draft);
    assert_eq!(m.title, "Hello");
    assert_eq!(m.file_name, "hello.html");
    assert_eq!(m.reading_time_mins, "1");
    assert_eq!(m.description, "Some words here.");
    assert_eq!(m.cover_image, "c.jpg");
    assert_eq!(m.last_modified_date, "2024-01-01");
    assert_eq!(m.table_of_contents, "");
}

#[test]
fn enrichment_with_todo_marks_draft_once() {
    let m = PageMetadata::new(
        raw("Hello", "2024-01-01"),
        "Text $GENERETO{TODO: more}",
        "hello.md",
        "",
        None,
    )
    .unwrap();
    assert!(m.is_draft);
    assert_eq!(m.title, "[DRAFT] Hello");
    let mut declared = raw("Hi", "2024-01-01");
    declared.is_draft = true;
    declared.description = Some("given".to_string());
    declared.show_table_of_contents = true;
    let m = PageMetadata::new(declared, "## A{#a}\n", "x.md", "", None).unwrap();
    assert!(m.is_draft);
    assert_eq!(m.title, "[DRAFT] Hi");
    assert_eq!(m.description, "given");
    assert!(m.table_of_contents.contains("href=\"#a\""));
}

#[test]
fn variables_for_a_given_year() {
    let mut r = raw("  Title  ", "2024-01-01");
    r.url = Some("https://x.org".to_string());
    r.custom_metadata = vec![("k".to_string(), "v".to_string())];
    let m = PageMetadata::new(r, "body", "p.md", "", None).unwrap();
    let out = m.apply_for_year(
        "$GENERETO['title']|$GENERETO['url']|$GENERETO['current_year']|$GENERETO['k']|$GENERETO['file_name']".to_string(),
        2031,
    );
    assert_eq!(out, "Title|https://x.org|2031|v|p.html");
}

#[test]
fn only_a_trailing_md_becomes_html() {
    use_output_name("x.md.md", "x.md.html");
    use_output_name("post.md", "post.html");
    use_output_name("a.md.notes", "a.md.notes");
    use_output_name("blog.yml", "blog.yml");
    use_output_name(".md", ".md");
    let m = PageMetadata::new(raw("T", "2024-01-01"), "", "x.md.md", "", None).unwrap();
    assert_eq!(m.file_name, "x.md.html");
}

fn use_output_name(source: &str, expected: &str) {
    assert_eq!(genereto::page_metadata::output_file_name(source), expected);
}

#[test]
fn cover_image_needs_a_url_scheme() {
    let like_url = "http_img.jpg".to_string();
    assert_eq!(
        PageMetadata::get_cover_image("d.jpg", Some(&like_url), "post.html"),
        "post/http_img.jpg"
    );
    let ftp = "ftp://files.org/x.png".to_string();
    assert_eq!(
        PageMetadata::get_cover_image("d.jpg", Some(&ftp), "post.html"),
        "ftp://files.org/x.png"
    );
    let bad_scheme = "a/b://c.png".to_string();
    assert_eq!(
        PageMetadata::get_cover_image("d.jpg", Some(&bad_scheme), "post.html"),
        "post/a/b://c.png"
    );
}

#[test]
fn crlf_lines_lose_their_carriage_return() {
    let content = add_ids_to_headings("# Title\r\ntext\r\nlast\r");
    assert_eq!(content, "# Title{#title}\ntext\nlast\r\n");
}

#[test]
fn description_keeps_text_code_and_breaks_only() {
    assert_eq!(get_description("Use `cargo` now <b>x</b>", 100), "Use cargo now x");
    assert_eq!(get_description("<div>block</div>\n\nafter", 100), "after");
}
