use vstd::prelude::*;

use crate::text::{chars_of, push_all, push_str, string_of};

verus! {

/// `name` joined to the directory `base` as a path: kept whole when absolute, and
/// separated from a non-empty `base` by one `/`.
pub open spec fn join_path(base: Seq<char>, name: Seq<char>) -> Seq<char> {
    if base.len() == 0 || (name.len() > 0 && name[0] == '/') {
        name
    } else if base.last() == '/' {
        base + name
    } else {
        base + "/"@ + name
    }
}

pub fn join(base: &str, name: &str) -> (r: String)
    ensures
        r@ == join_path(base@, name@),
{
    let b = chars_of(base);
    let n = chars_of(name);
    if b.len() == 0 || (n.len() > 0 && n[0] == '/') {
        return string_of(&n);
    }
    let mut r = b;
    if r[r.len() - 1] != '/' {
        push_str(&mut r, "/");
    }
    push_all(&mut r, &n);
    string_of(&r)
}

/// The blog settings of a configuration file, with their defaults filled in.
pub struct GeneretoConfigBlogRaw {
    pub base_template: String,
    pub index_name: String,
    pub destination: String,
    pub generate_single_pages: bool,
    pub title: Option<String>,
    pub default_cover_image: String,
    pub max_entries_per_page: Option<usize>,
}

/// The default template and index file name of a blog.
pub fn index_html() -> (r: String)
    ensures
        r@ == "index.html"@,
{
    string_of(&chars_of("index.html"))
}

/// The default destination of a blog: the output directory itself.
pub fn blog_destination() -> (r: String)
    ensures
        r@ == Seq::<char>::empty(),
{
    String::new()
}

/// Blog entries get pages of their own by default.
pub fn default_single_pages() -> (r: bool)
    ensures
        r,
{
    true
}

impl Default for GeneretoConfigBlogRaw {
    fn default() -> (r: Self)
        ensures
            r.base_template@ == "index.html"@,
            r.index_name@ == "index.html"@,
            r.destination@ == Seq::<char>::empty(),
            r.generate_single_pages,
            r.title is None,
            r.default_cover_image@ == Seq::<char>::empty(),
            r.max_entries_per_page is None,
    {
        GeneretoConfigBlogRaw {
            base_template: index_html(),
            index_name: index_html(),
            destination: blog_destination(),
            generate_single_pages: default_single_pages(),
            title: None,
            default_cover_image: String::new(),
            max_entries_per_page: None,
        }
    }
}

/// The settings of a configuration file.
pub struct GeneretoConfigRaw {
    pub template: String,
    /// Where templates are looked for, relative to the project or absolute.
    pub template_base_path: Option<String>,
    pub title: String,
    pub url: String,
    pub description: String,
    pub enable_jinja: bool,
    pub blog: GeneretoConfigBlogRaw,
}

/// The blog settings of a project, with paths resolved.
pub struct GeneretoConfigBlog {
    pub base_template: String,
    pub index_name: String,
    pub destination: String,
    pub generate_single_pages: bool,
    pub title: Option<String>,
    pub default_cover_image: Option<String>,
    pub max_entries_per_page: Option<usize>,
}

/// The settings of a project, with paths resolved.
pub struct GeneretoConfig {
    pub template_dir_path: String,
    pub output_dir_path: String,
    pub project_path: String,
    pub content_path: String,
    pub template: String,
    pub template_base_path: Option<String>,
    /// Title of the website.
    pub title: String,
    /// URL of the website.
    pub url: String,
    /// Description of the website.
    pub description: String,
    /// Whether templates are evaluated by the templating engine.
    pub enable_jinja: bool,
    pub blog: GeneretoConfigBlog,
}

impl GeneretoConfigBlog {
    /// Resolves the blog settings: the index template lies in the template directory and
    /// the destination in the output directory.
    pub fn new_from_raw(
        project_path: &str,
        raw_config: &GeneretoConfigRaw,
        template_base_path: &str,
    ) -> (r: Self)
        ensures
            r.base_template@ == join_path(template_base_path@, raw_config.blog.base_template@),
            r.destination@ == join_path(
                join_path(project_path@, "output"@),
                raw_config.blog.destination@,
            ),
            r.index_name@ == raw_config.blog.index_name@,
            r.generate_single_pages == raw_config.blog.generate_single_pages,
            crate::page_metadata::opt_view(r.title) == crate::page_metadata::opt_view(
                raw_config.blog.title,
            ),
            r.default_cover_image matches Some(c) && c@ == raw_config.blog.default_cover_image@,
            r.max_entries_per_page == raw_config.blog.max_entries_per_page,
    {
        let blog_raw = &raw_config.blog;
        let base_template = join(template_base_path, blog_raw.base_template.as_str());
        let output = join(project_path, "output");
        let destination = join(output.as_str(), blog_raw.destination.as_str());
        GeneretoConfigBlog {
            base_template,
            index_name: string_of(&chars_of(blog_raw.index_name.as_str())),
            destination,
            generate_single_pages: blog_raw.generate_single_pages,
            title: match &blog_raw.title {
                Some(t) => Some(string_of(&chars_of(t.as_str()))),
                None => None,
            },
            default_cover_image: Some(string_of(&chars_of(blog_raw.default_cover_image.as_str()))),
            max_entries_per_page: blog_raw.max_entries_per_page,
        }
    }
}

/// Whether `p` is an absolute path.
pub open spec fn is_absolute(p: Seq<char>) -> bool {
    p.len() > 0 && p[0] == '/'
}

/// The template directory of a project: the template named in its configuration, inside
/// the configured template path (taken from the project when relative) or else inside the
/// project's `templates` directory.
pub open spec fn template_dir_of(
    project_path: Seq<char>,
    template_base_path: Option<Seq<char>>,
    template: Seq<char>,
) -> Seq<char> {
    let base = match template_base_path {
        Some(b) => if is_absolute(b) {
            b
        } else {
            join_path(project_path, b)
        },
        None => join_path(project_path, "templates"@),
    };
    join_path(base, template)
}

impl GeneretoConfig {
    /// Resolves the settings of the project at `project_path` from its parsed configuration
    /// file.
    pub fn load_from_folder(project_path: &str, raw_config: GeneretoConfigRaw) -> (r: Self)
        ensures
            r.template_dir_path@ == template_dir_of(
                project_path@,
                crate::page_metadata::opt_view(raw_config.template_base_path),
                raw_config.template@,
            ),
            r.output_dir_path@ == join_path(project_path@, "output"@),
            r.content_path@ == join_path(project_path@, "content"@),
            r.project_path@ == project_path@,
            r.template == raw_config.template,
            r.template_base_path == raw_config.template_base_path,
            r.title == raw_config.title,
            r.url == raw_config.url,
            r.description == raw_config.description,
            r.enable_jinja == raw_config.enable_jinja,
            r.blog.base_template@ == join_path(r.template_dir_path@, raw_config.blog.base_template@),
            r.blog.destination@ == join_path(r.output_dir_path@, raw_config.blog.destination@),
            r.blog.index_name@ == raw_config.blog.index_name@,
    {
        let base = match &raw_config.template_base_path {
            Some(b) => {
                let c = chars_of(b.as_str());
                if c.len() > 0 && c[0] == '/' {
                    string_of(&c)
                } else {
                    join(project_path, b.as_str())
                }
            },
            None => join(project_path, "templates"),
        };
        let template_dir_path = join(base.as_str(), raw_config.template.as_str());
        let blog = GeneretoConfigBlog::new_from_raw(
            project_path,
            &raw_config,
            template_dir_path.as_str(),
        );
        let output_dir_path = join(project_path, "output");
        let content_path = join(project_path, "content");
        GeneretoConfig {
            template_dir_path,
            output_dir_path,
            content_path,
            project_path: string_of(&chars_of(project_path)),
            template: raw_config.template,
            template_base_path: raw_config.template_base_path,
            title: raw_config.title,
            url: raw_config.url,
            description: raw_config.description,
            enable_jinja: raw_config.enable_jinja,
            blog,
        }
    }

    /// Where an entry of the blog folder goes in the blog's destination.
    pub fn get_blog_dest_path(&self, entry_name: &str, is_dir: bool) -> (r: String)
        ensures
            r@ == dest_path_of(self.blog.destination@, entry_name@, is_dir),
    {
        Self::inner_get_dest_path(entry_name, is_dir, self.blog.destination.as_str())
    }

    /// Where an entry of the content folder goes in the output directory.
    pub fn get_dest_path(&self, entry_name: &str, is_dir: bool) -> (r: String)
        ensures
            r@ == dest_path_of(self.output_dir_path@, entry_name@, is_dir),
    {
        Self::inner_get_dest_path(entry_name, is_dir, self.output_dir_path.as_str())
    }

    fn inner_get_dest_path(entry_name: &str, is_dir: bool, base_path: &str) -> (r: String)
        ensures
            r@ == dest_path_of(base_path@, entry_name@, is_dir),
    {
        if is_dir {
            join(base_path, entry_name)
        } else {
            let html = crate::page_metadata::output_file_name(entry_name);
            join(base_path, html.as_str())
        }
    }

    /// Checks the folders a project needs, given whether each of
    /// `required_project_paths(project_path)` exists; the first missing one is reported.
    pub fn validate_project_folders(project_path: &str, exists: &Vec<bool>) -> (r: Result<
        (),
        crate::error::GeneretoError,
    >)
        ensures
            r is Ok <==> forall|i: int| 0 <= i < exists.len() ==> exists@[i],
            r matches Err(e) ==> exists|i: int|
                #![trigger exists@[i]]
                {
                    &&& 0 <= i < exists.len()
                    &&& !exists@[i]
                    &&& forall|j: int| 0 <= j < i ==> exists@[j]
                    &&& e matches crate::error::GeneretoError::IoFailure(m) && m@
                        == missing_path_message(project_path@, i)
                },
    {
        let paths = required_project_paths(project_path);
        let mut i: usize = 0;
        while i < exists.len()
            invariant
                i <= exists.len(),
                paths.len() == 4,
                forall|q: int| 0 <= q < 4 ==> paths@[q]@ == required_paths(project_path@)[q],
                forall|q: int| 0 <= q < i ==> exists@[q],
            decreases exists.len() - i,
        {
            if !exists[i] {
                let mut msg = chars_of("Path ");
                if i < paths.len() {
                    push_str(&mut msg, paths[i].as_str());
                } else {
                    push_str(&mut msg, project_path);
                }
                push_str(&mut msg, " does not exist");
                let m = string_of(&msg);
                assert(m@ == missing_path_message(project_path@, i as int));
                return Err(crate::error::GeneretoError::IoFailure(m));
            }
            i += 1;
        }
        Ok(())
    }
}

/// The title of a blog's index pages: the blog's own title when it has one, and the site's
/// title otherwise.
pub open spec fn index_title_of(blog_title: Option<Seq<char>>, site_title: Seq<char>) -> Seq<
    char,
> {
    match blog_title {
        Some(t) => t,
        None => site_title,
    }
}

impl GeneretoConfig {
    /// The title of the blog's index pages (see `index_title_of`).
    pub fn blog_index_title(&self) -> (r: String)
        ensures
            r@ == index_title_of(crate::page_metadata::opt_view(self.blog.title), self.title@),
    {
        match &self.blog.title {
            Some(t) => string_of(&chars_of(t.as_str())),
            None => string_of(&chars_of(self.title.as_str())),
        }
    }
}

/// Where an entry named `name` goes in `base`: directories keep their name, and files get
/// their output name (see `output_name_of`).
pub open spec fn dest_path_of(base: Seq<char>, name: Seq<char>, is_dir: bool) -> Seq<char> {
    if is_dir {
        join_path(base, name)
    } else {
        join_path(base, crate::page_metadata::output_name_of(name))
    }
}

/// The paths a project needs: the project itself, its configuration file, and its
/// templates and content folders.
pub open spec fn required_paths(project_path: Seq<char>) -> Seq<Seq<char>> {
    seq![
        project_path,
        join_path(project_path, "config.yml"@),
        join_path(project_path, "templates"@),
        join_path(project_path, "content"@),
    ]
}

/// The error message for the missing path at position `i` of `required_paths`.
pub open spec fn missing_path_message(project_path: Seq<char>, i: int) -> Seq<char> {
    "Path "@ + (if 0 <= i < 4 {
        required_paths(project_path)[i]
    } else {
        project_path
    }) + " does not exist"@
}

/// The paths a project needs (see `required_paths`), in order.
pub fn required_project_paths(project_path: &str) -> (r: Vec<String>)
    ensures
        r.len() == 4,
        forall|q: int| 0 <= q < 4 ==> r@[q]@ == required_paths(project_path@)[q],
{
    let mut r: Vec<String> = Vec::new();
    r.push(string_of(&chars_of(project_path)));
    r.push(join(project_path, "config.yml"));
    r.push(join(project_path, "templates"));
    r.push(join(project_path, "content"));
    r
}

} // verus!
