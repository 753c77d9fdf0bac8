use vstd::prelude::*;

use crate::blog::PaginationContext;
use crate::config::GeneretoConfig;
use crate::page_metadata::{opt_view, pairs_view, PageMetadata};
use crate::text::{chars_of, string_of};

verus! {

/// The site as templates see it.
pub struct SiteContext {
    pub title: String,
    pub url: String,
    pub description: String,
    pub template: String,
}

/// A page as templates see it.
pub struct PageContext {
    pub title: String,
    pub description: String,
    pub keywords: String,
    pub publish_date: String,
    pub reading_time_mins: String,
    pub file_name: String,
    pub cover_image: String,
    pub is_draft: bool,
    pub last_modified_date: String,
    pub table_of_contents: String,
    /// The page's external link, empty when it has none.
    pub article_url: String,
    pub website_url: String,
    pub custom_metadata: Vec<(String, String)>,
}

/// What a template is evaluated with: the site, the blog's title, the page being built or
/// the articles of an index page, the index page's place among its siblings, and the
/// rendered content.
pub struct TemplateContext {
    pub site: SiteContext,
    pub blog_title: Option<String>,
    pub page: Option<PageContext>,
    pub articles: Vec<PageContext>,
    pub pagination: Option<PaginationContext>,
    pub content: Option<String>,
}

/// Whether `s` shows the site of `config`.
pub open spec fn is_site_of(s: SiteContext, config: GeneretoConfig) -> bool {
    &&& s.title@ == config.title@
    &&& s.url@ == config.url@
    &&& s.description@ == config.description@
    &&& s.template@ == config.template@
}

/// Whether `p` shows the page `m` of the site at `website_url`.
pub open spec fn is_page_of(p: PageContext, m: PageMetadata, website_url: Seq<char>) -> bool {
    &&& p.title@ == m.title@
    &&& p.description@ == m.description@
    &&& p.keywords@ == m.keywords@
    &&& p.publish_date@ == m.publish_date@
    &&& p.reading_time_mins@ == m.reading_time_mins@
    &&& p.file_name@ == m.file_name@
    &&& p.cover_image@ == m.cover_image@
    &&& p.is_draft == m.is_draft
    &&& p.last_modified_date@ == m.last_modified_date@
    &&& p.table_of_contents@ == m.table_of_contents@
    &&& p.article_url@ == match m.url {
        Some(u) => u@,
        None => Seq::empty(),
    }
    &&& p.website_url@ == website_url
    &&& pairs_view(p.custom_metadata@) == pairs_view(m.custom_metadata@)
}

/// Whether `q` holds the same navigation as `p`.
pub open spec fn same_pagination(q: PaginationContext, p: PaginationContext) -> bool {
    &&& q.current_page == p.current_page
    &&& q.total_pages == p.total_pages
    &&& q.has_previous == p.has_previous
    &&& q.has_next == p.has_next
    &&& q.previous_url@ == p.previous_url@
    &&& q.next_url@ == p.next_url@
}

fn copy_string(s: &String) -> (r: String)
    ensures
        r@ == s@,
{
    string_of(&chars_of(s.as_str()))
}

fn copy_pairs(v: &Vec<(String, String)>) -> (r: Vec<(String, String)>)
    ensures
        pairs_view(r@) == pairs_view(v@),
{
    let mut r: Vec<(String, String)> = Vec::new();
    let mut i: usize = 0;
    while i < v.len()
        invariant
            i <= v.len(),
            pairs_view(r@) == pairs_view(v@.take(i as int)),
        decreases v.len() - i,
    {
        let ghost before = r@;
        r.push((copy_string(&v[i].0), copy_string(&v[i].1)));
        assert(pairs_view(v@.take(i + 1)) == pairs_view(v@.take(i as int)).push(
            (v@[i as int].0@, v@[i as int].1@),
        ));
        assert(pairs_view(r@) == pairs_view(before).push((v@[i as int].0@, v@[i as int].1@)));
        i += 1;
    }
    assert(v@.take(v.len() as int) == v@);
    r
}

impl SiteContext {
    pub fn from_config(config: &GeneretoConfig) -> (r: SiteContext)
        ensures
            is_site_of(r, *config),
    {
        SiteContext {
            title: copy_string(&config.title),
            url: copy_string(&config.url),
            description: copy_string(&config.description),
            template: copy_string(&config.template),
        }
    }
}

impl PageContext {
    pub fn from_metadata(m: &PageMetadata, website_url: &str) -> (r: PageContext)
        ensures
            is_page_of(r, *m, website_url@),
    {
        PageContext {
            title: copy_string(&m.title),
            description: copy_string(&m.description),
            keywords: copy_string(&m.keywords),
            publish_date: copy_string(&m.publish_date),
            reading_time_mins: copy_string(&m.reading_time_mins),
            file_name: copy_string(&m.file_name),
            cover_image: copy_string(&m.cover_image),
            is_draft: m.is_draft,
            last_modified_date: copy_string(&m.last_modified_date),
            table_of_contents: copy_string(&m.table_of_contents),
            article_url: match &m.url {
                Some(u) => copy_string(u),
                None => String::new(),
            },
            website_url: string_of(&chars_of(website_url)),
            custom_metadata: copy_pairs(&m.custom_metadata),
        }
    }
}

fn copy_pagination(p: &PaginationContext) -> (r: PaginationContext)
    ensures
        same_pagination(r, *p),
{
    PaginationContext {
        current_page: p.current_page,
        total_pages: p.total_pages,
        has_previous: p.has_previous,
        has_next: p.has_next,
        previous_url: copy_string(&p.previous_url),
        next_url: copy_string(&p.next_url),
    }
}

fn copy_opt(s: &Option<String>) -> (r: Option<String>)
    ensures
        opt_view(r) == opt_view(*s),
{
    match s {
        Some(t) => Some(copy_string(t)),
        None => None,
    }
}

impl TemplateContext {
    /// The context of the page `m`, whose content renders to `content`.
    pub fn for_page(config: &GeneretoConfig, m: &PageMetadata, content: &str) -> (r:
        TemplateContext)
        ensures
            is_site_of(r.site, *config),
            opt_view(r.blog_title) == opt_view(config.blog.title),
            r.page matches Some(p) && is_page_of(p, *m, config.url@),
            r.articles.len() == 0,
            r.pagination is None,
            r.content matches Some(c) && c@ == content@,
    {
        TemplateContext {
            site: SiteContext::from_config(config),
            blog_title: copy_opt(&config.blog.title),
            page: Some(PageContext::from_metadata(m, config.url.as_str())),
            articles: Vec::new(),
            pagination: None,
            content: Some(string_of(&chars_of(content))),
        }
    }

    /// The context of an index page that lists the pages at `positions` in `pages`.
    pub fn for_index(
        config: &GeneretoConfig,
        pages: &Vec<PageMetadata>,
        positions: &[usize],
        pagination: Option<&PaginationContext>,
    ) -> (r: TemplateContext)
        requires
            forall|i: int| 0 <= i < positions.len() ==> positions@[i] < pages.len(),
        ensures
            is_site_of(r.site, *config),
            opt_view(r.blog_title) == opt_view(config.blog.title),
            r.page is None,
            r.articles.len() == positions.len(),
            forall|i: int|
                0 <= i < positions.len() ==> is_page_of(
                    #[trigger] r.articles@[i],
                    pages@[positions@[i] as int],
                    config.url@,
                ),
            match pagination {
                Some(p) => r.pagination matches Some(q) && same_pagination(q, *p),
                None => r.pagination is None,
            },
            r.content is None,
    {
        let mut articles: Vec<PageContext> = Vec::new();
        let mut i: usize = 0;
        while i < positions.len()
            invariant
                i <= positions.len(),
                forall|q: int| 0 <= q < positions.len() ==> positions@[q] < pages.len(),
                articles.len() == i,
                forall|q: int|
                    0 <= q < i ==> is_page_of(
                        #[trigger] articles@[q],
                        pages@[positions@[q] as int],
                        config.url@,
                    ),
            decreases positions.len() - i,
        {
            articles.push(PageContext::from_metadata(&pages[positions[i]], config.url.as_str()));
            i += 1;
        }
        TemplateContext {
            site: SiteContext::from_config(config),
            blog_title: copy_opt(&config.blog.title),
            page: None,
            articles,
            pagination: match pagination {
                Some(p) => Some(copy_pagination(p)),
                None => None,
            },
            content: None,
        }
    }
}

} // verus!
