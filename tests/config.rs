use genereto::config::{
    blog_destination, default_single_pages, index_html, required_project_paths, GeneretoConfigBlogRaw,
    GeneretoConfigRaw,
};
use genereto::{GeneretoConfig, GeneretoError};

fn raw(template_base_path: Option<&str>) -> GeneretoConfigRaw {
    GeneretoConfigRaw {
        template: "test_template".to_string(),
        template_base_path: template_base_path.map(|p| p.to_string()),
        title: "Test title".to_string(),
        url: "XXXXXXXXXXXXXXXX".to_string(),
        description: "Test description".to_string(),
        enable_jinja: false,
        blog: GeneretoConfigBlogRaw {
            base_template: "blog-index.html".to_string(),
            index_name: "blog.html".to_string(),
            destination: "some/directory/folder".to_string(),
            generate_single_pages: false,
            title: Some("Custom Blog Title".to_string()),
            default_cover_image: "Something.jpg".to_string(),
            max_entries_per_page: Some(4),
        },
    }
}

#[test]
fn config_with_absolute_template_path() {
    let config = GeneretoConfig::load_from_folder("/tmp/project", raw(Some("/custom/template/path")));
    assert_eq!(config.template_dir_path, "/custom/template/path/test_template");
    assert_eq!(config.output_dir_path, "/tmp/project/output");
    assert_eq!(config.content_path, "/tmp/project/content");
    assert_eq!(config.project_path, "/tmp/project");
    assert_eq!(config.title, "Test title");
    assert_eq!(config.blog.base_template, "/custom/template/path/test_template/blog-index.html");
    assert_eq!(config.blog.destination, "/tmp/project/output/some/directory/folder");
    assert_eq!(config.blog.index_name, "blog.html");
    assert_eq!(config.blog.default_cover_image.as_deref(), Some("Something.jpg"));
    assert_eq!(config.blog.title.as_deref(), Some("Custom Blog Title"));
    assert_eq!(config.blog.max_entries_per_page, Some(4));
    assert!(!config.blog.generate_single_pages);
}

#[test]
fn config_with_relative_or_default_template_path() {
    let config = GeneretoConfig::load_from_folder("proj/", raw(Some("custom/template/path")));
    assert_eq!(config.template_dir_path, "proj/custom/template/path/test_template");
    let config = GeneretoConfig::load_from_folder("proj", raw(None));
    assert_eq!(config.template_dir_path, "proj/templates/test_template");
}

#[test]
fn destination_paths() {
    let config = GeneretoConfig::load_from_folder("p", raw(None));
    assert_eq!(config.get_dest_path("page.md", false), "p/output/page.html");
    assert_eq!(config.get_dest_path("assets", true), "p/output/assets");
    assert_eq!(
        config.get_blog_dest_path("post.md", false),
        "p/output/some/directory/folder/post.html"
    );
}

#[test]
fn blog_defaults() {
    let blog = GeneretoConfigBlogRaw::default();
    assert_eq!(blog.base_template, "index.html");
    assert_eq!(blog.index_name, "index.html");
    assert_eq!(blog.destination, "");
    assert!(blog.generate_single_pages);
    assert_eq!(index_html(), "index.html");
    assert_eq!(blog_destination(), "");
    assert!(default_single_pages());
}

#[test]
fn project_folders_are_checked_in_order() {
    let paths = required_project_paths("proj");
    assert_eq!(paths, vec!["proj", "proj/config.yml", "proj/templates", "proj/content"]);
    assert!(GeneretoConfig::validate_project_folders("proj", &vec![true; 4]).is_ok());
    match GeneretoConfig::validate_project_folders("proj", &vec![true, true, false, false]) {
        Err(GeneretoError::IoFailure(msg)) => assert_eq!(msg, "Path proj/templates does not exist"),
        other => panic!("unexpected {:?}", other),
    }
}

#[test]
fn markdown_destination_changes_only_the_extension() {
    let config = GeneretoConfig::load_from_folder("p", raw(None));
    assert_eq!(config.get_dest_path("x.md.md", false), "p/output/x.md.html");
    assert_eq!(config.get_dest_path("notes.txt", false), "p/output/notes.txt");
}

#[test]
fn first_missing_path_is_named() {
    match GeneretoConfig::validate_project_folders("proj", &vec![true, false, false, true]) {
        Err(GeneretoError::IoFailure(msg)) => assert_eq!(msg, "Path proj/config.yml does not exist"),
        other => panic!("unexpected {:?}", other),
    }
}
