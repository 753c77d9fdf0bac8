use genereto::parser::{
    add_ids_to_headings, filter_out_comments, get_anchor_id_from_title, remove_special_characters,
    split_frontmatter,
};
use genereto::GeneretoError;

#[test]
fn test_filter_out_comments() {
    let page_content = "$GENERETO{comment}
        content
        some content$GENERETO{comment}
```
some code!!
```";
    let page_content_new = filter_out_comments(page_content);
    assert_eq!(
        page_content_new,
        "\n        content\n        some content\n```\nsome code!!\n```\n"
    );
}

#[test]
fn test_add_ids_to_headings() {
    let page_content = r#"# heading1
        ## heading2
### hello world!
# Hello!
## How^! are you???? Hi"#;
    let expected = r"# heading1{#heading1}
        ## heading2{#heading2}
### hello world!{#hello-world}
# Hello!{#hello}
## How^! are you???? Hi{#how-are-you-hi}
";
    let page_content_new = add_ids_to_headings(page_content);
    assert_eq!(page_content_new, expected);
}

#[test]
fn test_remove_special_characters() {
    let input = "Hello,..  world!!^-_.@dòł234disiduc";
    let expected = "Hello  worldd234disiduc";
    let output = remove_special_characters(input);
    assert_eq!(output, expected);
}

#[test]
fn test_get_anchor_id_from_title() {
    let input = "Hello world--..^^";
    let expected = "hello-world";
    let output = get_anchor_id_from_title(input);
    assert_eq!(output, expected);
}

#[test]
fn comments_inside_code_blocks_are_kept() {
    let content = "```\n$GENERETO{kept}\n```\ntext $GENERETO{gone} end";
    assert_eq!(
        filter_out_comments(content),
        "```\n$GENERETO{kept}\n```\ntext  end\n"
    );
}

#[test]
fn comment_without_closing_brace_is_kept() {
    assert_eq!(filter_out_comments("a $GENERETO{open"), "a $GENERETO{open\n");
}

#[test]
fn headings_inside_code_blocks_get_no_id() {
    let content = "```\n# not a heading\n```\n## Real {one}";
    assert_eq!(
        add_ids_to_headings(content),
        "```\n# not a heading\n```\n## Real {one}{#real}\n"
    );
}

#[test]
fn frontmatter_is_split_at_first_dash_line() {
    let (meta, content) = split_frontmatter("title: A\n---\nbody\n-----\nmore").unwrap();
    assert_eq!(meta, "title: A\n");
    assert_eq!(content, "body\n-----\nmore");
}

#[test]
fn frontmatter_needs_a_whole_dash_line() {
    let (meta, content) = split_frontmatter("a: x---\n--\n----\nrest").unwrap();
    assert_eq!(meta, "a: x---\n--\n");
    assert_eq!(content, "rest");
}

#[test]
fn missing_frontmatter_is_an_error() {
    for doc in ["", "title: A\nno delimiter", "title: A\n---", "--\n", "a---b\n"] {
        assert!(matches!(
            split_frontmatter(doc),
            Err(GeneretoError::MissingFrontmatter)
        ));
    }
}

#[test]
fn first_phase_splits_and_adds_ids() {
    let (meta, content) =
        genereto::parser::compile_page_phase_1("title: A\n---\n# Top\ntext\n").unwrap();
    assert_eq!(meta, "title: A\n");
    assert_eq!(content, "# Top{#top}\ntext\n");
    assert!(matches!(
        genereto::parser::compile_page_phase_1("title: A"),
        Err(GeneretoError::MissingFrontmatter)
    ));
}
