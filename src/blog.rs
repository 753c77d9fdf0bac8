use vstd::prelude::*;

use crate::page_metadata::{placeholder, substituted, variables_of, PageMetadata};
use crate::text::{
    chars_of, decimal, decimal_vec, push_all, push_str, replace_all, rfind_char, string_of, subvec,
    trim,
};
use crate::DraftsOptions;

verus! {

/// Whether the text `a` comes before `b` in the order of `String`: character by
/// character, a proper prefix first.
pub open spec fn text_lt(a: Seq<char>, b: Seq<char>) -> bool
    decreases a.len(),
{
    if a.len() == 0 {
        b.len() > 0
    } else if b.len() == 0 {
        false
    } else if a[0] != b[0] {
        a[0] < b[0]
    } else {
        text_lt(a.drop_first(), b.drop_first())
    }
}

proof fn lemma_text_lt_asymmetric(a: Seq<char>, b: Seq<char>)
    ensures
        text_lt(a, b) ==> !text_lt(b, a),
    decreases a.len(),
{
    if a.len() > 0 && b.len() > 0 && a[0] == b[0] {
        lemma_text_lt_asymmetric(a.drop_first(), b.drop_first());
    }
}

proof fn lemma_text_ge_transitive(a: Seq<char>, b: Seq<char>, c: Seq<char>)
    ensures
        !text_lt(a, b) && !text_lt(b, c) ==> !text_lt(a, c),
    decreases a.len(),
{
    if a.len() > 0 && b.len() > 0 && c.len() > 0 && a[0] == b[0] && b[0] == c[0] {
        lemma_text_ge_transitive(a.drop_first(), b.drop_first(), c.drop_first());
    }
}

pub fn text_lt_exec(a: &Vec<char>, b: &Vec<char>) -> (r: bool)
    ensures
        r == text_lt(a@, b@),
{
    let mut i: usize = 0;
    assert(a@.skip(0) == a@ && b@.skip(0) == b@);
    while i < a.len() && i < b.len() && a[i] == b[i]
        invariant
            i <= a.len(),
            i <= b.len(),
            text_lt(a@, b@) == text_lt(a@.skip(i as int), b@.skip(i as int)),
        decreases a.len() - i,
    {
        assert(a@.skip(i as int).drop_first() == a@.skip(i + 1));
        assert(b@.skip(i as int).drop_first() == b@.skip(i + 1));
        i += 1;
    }
    if i == a.len() {
        i < b.len()
    } else if i == b.len() {
        false
    } else {
        a[i] < b[i]
    }
}

/// Whether page `a` was published after page `b`.
pub open spec fn newer(a: PageMetadata, b: PageMetadata) -> bool {
    text_lt(b.publish_date@, a.publish_date@)
}

/// Whether no page of `s` was published after a page before it.
pub open spec fn sorted_by_date(s: Seq<PageMetadata>) -> bool {
    forall|i: int, j: int| 0 <= i < j < s.len() ==> !newer(#[trigger] s[j], #[trigger] s[i])
}

/// What sorting `input` by publish date, most recent first, may give: the same pages in
/// date order, and `input` itself when it is already in that order.
pub open spec fn is_date_sort_of(output: Seq<PageMetadata>, input: Seq<PageMetadata>) -> bool {
    &&& sorted_by_date(output)
    &&& output.to_multiset() == input.to_multiset()
    &&& sorted_by_date(input) ==> output == input
}

fn newer_exec(a: &PageMetadata, b: &PageMetadata) -> (r: bool)
    ensures
        r == newer(*a, *b),
{
    text_lt_exec(&chars_of(b.publish_date.as_str()), &chars_of(a.publish_date.as_str()))
}

/// Sorts pages by publish date, most recent first. The sort is stable, so pages already in
/// that order stay as they are.
pub fn sort_by_publish_date(pages: &mut Vec<PageMetadata>)
    ensures
        is_date_sort_of(final(pages)@, old(pages)@),
{
    broadcast use vstd::seq_lib::to_multiset_remove, vstd::seq_lib::to_multiset_insert;

    let ghost orig = pages@;
    let n = pages.len();
    if n == 0 {
        return;
    }
    let mut k: usize = 1;
    while k < n
        invariant
            1 <= k <= n == pages.len(),
            sorted_by_date(pages@.take(k as int)),
            pages@.to_multiset() == orig.to_multiset(),
            sorted_by_date(orig) ==> pages@ == orig,
        decreases n - k,
    {
        let ghost before = pages@;
        let x = pages.remove(k);
        let ghost rest = pages@;
        assert(rest.take(k as int) == before.take(k as int));
        let mut p: usize = k;
        while p > 0 && newer_exec(&x, &pages[p - 1])
            invariant
                p <= k < n,
                pages@ == rest,
                rest.len() == n - 1,
                forall|q: int| p <= q < k ==> newer(x, #[trigger] rest[q]),
            decreases p,
        {
            p -= 1;
        }
        proof {
            if sorted_by_date(orig) {
                assert(before == orig);
                assert(!newer(orig[k as int], orig[k - 1]));
                assert(rest[k - 1] == orig[k - 1]);
                if p < k {
                    assert(newer(x, rest[k - 1]));
                }
                assert(p == k);
            }
        }
        pages.insert(p, x);
        let ghost w = pages@;
        proof {
            vstd::seq_lib::to_multiset_contains(before, x);
            vstd::seq_lib::to_multiset_remove(before, k as int);
            vstd::seq_lib::to_multiset_insert(rest, p as int, x);
            assert(rest.to_multiset() == before.to_multiset().remove(x));
            assert(w.to_multiset() == rest.to_multiset().insert(x));
            assert(before.to_multiset().count(x) > 0);
            assert(w.to_multiset() =~= before.to_multiset());
            assert forall|i: int, j: int| 0 <= i < j < k + 1 implies !newer(
                #[trigger] w.take(k + 1)[j],
                #[trigger] w.take(k + 1)[i],
            ) by {
                let pre = before.take(k as int);
                if j < p {
                    assert(w[i] == pre[i] && w[j] == pre[j]);
                } else if j == p {
                    assert(w[j] == x);
                    assert(w[i] == pre[i]);
                    assert(!newer(x, rest[p - 1]));
                    if i < p - 1 {
                        assert(!newer(pre[p - 1], pre[i]));
                    }
                    lemma_text_ge_transitive(
                        rest[i].publish_date@,
                        rest[p - 1].publish_date@,
                        x.publish_date@,
                    );
                } else if i == p {
                    assert(w[i] == x);
                    assert(w[j] == rest[j - 1]);
                    assert(newer(x, rest[j - 1]));
                    lemma_text_lt_asymmetric(rest[j - 1].publish_date@, x.publish_date@);
                } else if i < p {
                    assert(w[i] == pre[i] && w[j] == pre[j - 1]);
                } else {
                    assert(w[i] == pre[i - 1] && w[j] == pre[j - 1]);
                }
            }
            assert(before.remove(k as int)[k as int - 1] == before[k - 1]);
            if sorted_by_date(orig) {
                assert(w == before.remove(k as int).insert(k as int, before[k as int]));
                assert(w =~= before);
            }
        }
        k += 1;
    }
    assert(pages@.take(n as int) == pages@);
}

/// What the build does with an entry of a content folder.
#[derive(Clone, Copy, Debug)]
pub enum EntryAction {
    /// A directory of assets, copied as it is.
    CopyDirectory,
    /// A markdown file, compiled into a page.
    CompilePage,
    /// A directory that is built on its own.
    SkipDirectory,
    /// Anything else, skipped with a warning.
    Skip,
}

/// Decides what happens to the entry `name` of a content folder: directories are copied,
/// except the one named `reserved_dir`; markdown files are compiled; the rest is skipped.
pub fn entry_action(name: &str, is_dir: bool, is_file: bool, reserved_dir: &str) -> (r:
    EntryAction)
    ensures
        is_dir && name@ == reserved_dir@ ==> r is SkipDirectory,
        is_dir && name@ != reserved_dir@ ==> r is CopyDirectory,
        !is_dir && is_file && crate::page_metadata::is_markdown_name(name@) ==> r is CompilePage,
        !is_dir && !(is_file && crate::page_metadata::is_markdown_name(name@)) ==> r is Skip,
{
    let n = chars_of(name);
    if is_dir {
        let reserved = chars_of(reserved_dir);
        let same = n.len() == reserved.len() && crate::text::starts_with_exec(&n, &reserved);
        proof {
            if n.len() == reserved.len() {
                assert(n@.subrange(0, reserved@.len() as int) == n@);
            }
        }
        if same {
            EntryAction::SkipDirectory
        } else {
            EntryAction::CopyDirectory
        }
    } else if is_file && n.len() > 3 && crate::text::occurs_at_exec(&n, &chars_of(".md"), n.len() - 3) {
        proof {
            reveal_strlit(".md");
        }
        EntryAction::CompilePage
    } else {
        proof {
            reveal_strlit(".md");
            if is_file && n.len() > 3 {
                assert(!crate::text::occurs_at(n@, ".md"@, n.len() - 3));
            }
        }
        EntryAction::Skip
    }
}

/// Whether a project has a blog: a folder of entries or a manifest of them.
pub fn should_generate_blog(has_entries_folder: bool, has_manifest: bool) -> (r: bool)
    ensures
        r == (has_entries_folder || has_manifest),
{
    has_entries_folder || has_manifest
}

/// Whether a page is written to disk: drafts are not under the hide policy.
pub open spec fn is_written(is_draft: bool, opts: DraftsOptions) -> bool {
    !(is_draft && opts is Hide)
}

/// Whether a page appears in listings: never the error page, and drafts only under the
/// dev policy.
pub open spec fn is_listed(m: PageMetadata, opts: DraftsOptions) -> bool {
    m.file_name@ != "error.html"@ && (!m.is_draft || opts is Dev)
}

/// The pages of `s` that appear in listings, in order.
pub open spec fn listed(s: Seq<PageMetadata>, opts: DraftsOptions) -> Seq<PageMetadata>
    decreases s.len(),
{
    if s.len() == 0 {
        s
    } else {
        let r = listed(s.drop_last(), opts);
        if is_listed(s.last(), opts) {
            r.push(s.last())
        } else {
            r
        }
    }
}

/// Whether a page with the given draft flag is written under the policy `opts`.
pub fn should_write(is_draft: bool, opts: &DraftsOptions) -> (r: bool)
    ensures
        r == is_written(is_draft, *opts),
{
    !(is_draft && opts.is_hide())
}

/// Whether `m` appears in listings under the policy `opts`.
pub fn should_list(m: &PageMetadata, opts: &DraftsOptions) -> (r: bool)
    ensures
        r == is_listed(*m, *opts),
{
    let name = chars_of(m.file_name.as_str());
    let error_page = chars_of("error.html");
    let is_error_page = name.len() == error_page.len() && crate::text::starts_with_exec(
        &name,
        &error_page,
    );
    proof {
        if name.len() == error_page.len() {
            assert(name@.subrange(0, error_page@.len() as int) == name@);
        }
    }
    !is_error_page && (!m.is_draft || opts.is_dev())
}

/// The positions in `pages` of the pages that appear in listings, in order.
pub fn listed_positions(pages: &Vec<PageMetadata>, opts: &DraftsOptions) -> (r: Vec<usize>)
    ensures
        r.len() <= pages.len(),
        forall|i: int| 0 <= i < r.len() ==> r@[i] < pages.len(),
        r@.map_values(|i: usize| pages@[i as int]) == listed(pages@, *opts),
{
    let mut r: Vec<usize> = Vec::new();
    let mut i: usize = 0;
    while i < pages.len()
        invariant
            i <= pages.len(),
            forall|q: int| 0 <= q < r.len() ==> r@[q] < i,
            r.len() <= i,
            r@.map_values(|q: usize| pages@[q as int]) == listed(pages@.take(i as int), *opts),
        decreases pages.len() - i,
    {
        assert(pages@.take(i + 1).drop_last() == pages@.take(i as int));
        let ghost before = r@;
        if should_list(&pages[i], opts) {
            r.push(i);
            assert(r@.map_values(|q: usize| pages@[q as int]) == before.map_values(
                |q: usize| pages@[q as int],
            ).push(pages@[i as int]));
        }
        i += 1;
    }
    assert(pages@.take(pages.len() as int) == pages@);
    r
}

/// The file of index page `page` (from 1): the index file itself for the first page, and
/// `{stem}-page-{page}.{ext}` for the others.
pub open spec fn page_file_name(index_name: Seq<char>, page: nat) -> Seq<char> {
    if page <= 1 {
        index_name
    } else {
        match rfind_char(index_name, '.') {
            Some(i) => if i > 0 {
                index_name.take(i) + "-page-"@ + decimal(page) + index_name.skip(i)
            } else {
                index_name + "-page-"@ + decimal(page)
            },
            None => index_name + "-page-"@ + decimal(page),
        }
    }
}

/// The file name of index page `page` (from 1) for the index file `index_name`.
pub fn get_page_file_name(index_name: &str, page: usize) -> (r: String)
    ensures
        r@ == page_file_name(index_name@, page as nat),
{
    let name = chars_of(index_name);
    if page <= 1 {
        return string_of(&name);
    }
    match crate::text::rfind_char_exec(&name, '.') {
        Some(i) => {
            if i > 0 {
                let mut r = subvec(&name, 0, i);
                push_str(&mut r, "-page-");
                push_all(&mut r, &decimal_vec(page));
                push_all(&mut r, &subvec(&name, i, name.len()));
                assert(name@.subrange(0, i as int) == name@.take(i as int));
                assert(name@.subrange(i as int, name.len() as int) == name@.skip(i as int));
                string_of(&r)
            } else {
                let mut r = name;
                push_str(&mut r, "-page-");
                push_all(&mut r, &decimal_vec(page));
                string_of(&r)
            }
        },
        None => {
            let mut r = name;
            push_str(&mut r, "-page-");
            push_all(&mut r, &decimal_vec(page));
            string_of(&r)
        },
    }
}

/// Where an index page stands among its siblings.
pub struct PaginationContext {
    /// From 1.
    pub current_page: usize,
    pub total_pages: usize,
    pub has_previous: bool,
    pub has_next: bool,
    /// Empty when there is no previous page.
    pub previous_url: String,
    /// Empty when there is no next page.
    pub next_url: String,
}

/// The context of index page `page` out of `total`.
pub open spec fn is_pagination_of(
    c: PaginationContext,
    index_name: Seq<char>,
    page: nat,
    total: nat,
) -> bool {
    &&& c.current_page == page
    &&& c.total_pages == total
    &&& c.has_previous == (page > 1)
    &&& c.has_next == (page < total)
    &&& c.previous_url@ == if page > 1 {
        page_file_name(index_name, (page - 1) as nat)
    } else {
        Seq::empty()
    }
    &&& c.next_url@ == if page < total {
        page_file_name(index_name, page + 1)
    } else {
        Seq::empty()
    }
}

pub fn pagination_context(index_name: &str, page: usize, total: usize) -> (r: PaginationContext)
    requires
        1 <= page <= total,
    ensures
        is_pagination_of(r, index_name@, page as nat, total as nat),
{
    let has_previous = page > 1;
    let has_next = page < total;
    let previous_url = if has_previous {
        get_page_file_name(index_name, page - 1)
    } else {
        String::new()
    };
    let next_url = if has_next {
        get_page_file_name(index_name, page + 1)
    } else {
        String::new()
    };
    PaginationContext { current_page: page, total_pages: total, has_previous, has_next, previous_url, next_url }
}

/// The number of index pages for `n` entries, `size` to a page; there is always one.
pub open spec fn page_count(n: nat, size: nat) -> nat {
    if size == 0 || n == 0 {
        1
    } else {
        ((n - 1) as nat / size + 1) as nat
    }
}

/// One index page: its file, the range of listed entries it shows, and its place among
/// the others when the listing is split.
pub struct IndexPage {
    pub file_name: String,
    pub first: usize,
    pub last: usize,
    pub pagination: Option<PaginationContext>,
}

/// The index pages that `paginate` plans for `n` entries.
pub open spec fn is_plan_of(
    pages: Seq<IndexPage>,
    n: nat,
    max_entries_per_page: Option<usize>,
    index_name: Seq<char>,
) -> bool {
    match max_entries_per_page {
        Some(size) if size > 0 => {
            &&& pages.len() == page_count(n, size as nat)
            &&& forall|p: int|
                0 <= p < pages.len() ==> {
                    let page = #[trigger] pages[p];
                    &&& page.file_name@ == page_file_name(index_name, (p + 1) as nat)
                    &&& page.first == p * size
                    &&& page.last == if (p + 1) * size < n {
                        (p + 1) * size
                    } else {
                        n as int
                    }
                    &&& page.pagination matches Some(c) && is_pagination_of(
                        c,
                        index_name,
                        (p + 1) as nat,
                        pages.len(),
                    )
                }
        },
        _ => {
            &&& pages.len() == 1
            &&& pages[0].file_name@ == index_name
            &&& pages[0].first == 0
            &&& pages[0].last == n
            &&& pages[0].pagination is None
        },
    }
}

/// Splits a listing of `n` entries into index pages of at most `max_entries_per_page`
/// entries; with no positive limit, one page holds them all and shows no pagination.
pub fn paginate(n: usize, max_entries_per_page: Option<usize>, index_name: &str) -> (r: Vec<
    IndexPage,
>)
    ensures
        is_plan_of(r@, n as nat, max_entries_per_page, index_name@),
{
    let mut pages: Vec<IndexPage> = Vec::new();
    let size = match max_entries_per_page {
        Some(s) => s,
        None => 0,
    };
    if size == 0 {
        pages.push(
            IndexPage { file_name: get_page_file_name(index_name, 1), first: 0, last: n, pagination: None },
        );
        return pages;
    }
    let total: usize = if n == 0 {
        1
    } else {
        (n - 1) / size + 1
    };
    proof {
        if n > 0 {
            let m: int = n - 1;
            let d: int = size as int;
            let t: int = total as int;
            vstd::arithmetic::div_mod::lemma_fundamental_div_mod(m, d);
            assert((t - 1) * d <= m) by (nonlinear_arith)
                requires
                    t == m / d + 1,
                    m == d * (m / d) + m % d,
                    m % d >= 0,
                    d > 0,
            ;
        }
        assert(total >= 1);
    }
    proof {
        if n > 0 {
            let m: int = n - 1;
            let d: int = size as int;
            assert(m / d <= m) by (nonlinear_arith)
                requires
                    m >= 0,
                    d >= 1,
            ;
        }
    }
    assert(total <= n || total == 1);
    assert(total <= usize::MAX);
    let mut p: usize = 0;
    let mut first: usize = 0;
    while p < total
        invariant
            1 <= total,
            total == page_count(n as nat, size as nat),
            size > 0,
            max_entries_per_page == Some(size),
            p <= total,
            p < total ==> first == p * size,
            p < total ==> first <= n,
            n > 0 ==> (total - 1) * size <= n - 1,
            pages.len() == p,
            forall|q: int|
                0 <= q < p ==> {
                    let page = #[trigger] pages@[q];
                    &&& page.file_name@ == page_file_name(index_name@, (q + 1) as nat)
                    &&& page.first == q * size
                    &&& page.last == if (q + 1) * size < n {
                        (q + 1) * size
                    } else {
                        n as int
                    }
                    &&& page.pagination matches Some(c) && is_pagination_of(
                        c,
                        index_name@,
                        (q + 1) as nat,
                        total as nat,
                    )
                },
        decreases total - p,
    {
        let last = if n - first > size {
            first + size
        } else {
            n
        };
        assert((p + 1) * size == first + size) by (nonlinear_arith)
            requires
                first == p * size,
        ;
        let ctx = pagination_context(index_name, p + 1, total);
        pages.push(
            IndexPage {
                file_name: get_page_file_name(index_name, p + 1),
                first,
                last,
                pagination: Some(ctx),
            },
        );
        proof {
            if p + 1 < total {
                assert((p + 1) * size <= (total - 1) * size) by (nonlinear_arith)
                    requires
                        p + 1 <= total - 1,
                        size > 0,
                ;
            }
        }
        first = last;
        p += 1;
        if p < total {
            assert(first == p * size);
        }
    }
    assert(pages@.len() == page_count(n as nat, size as nat));
    pages
}

/// The entry template used when the marked span of an index template is blank.
pub open spec fn default_entry_template() -> Seq<char> {
    "<div class=\"post\">\n<h2><a href=\"$GENERETO['file_name']\">$GENERETO['title']</a></h2>\n<div class=\"post-date\">$GENERETO['publish_date']</div>\n<p class=\"post-description\">$GENERETO['description']</p>\n</div>\n"@
}

/// The entry template of an index template whose marked span is `span`: what lies between
/// the markers, trimmed, or the default when that is blank.
pub open spec fn entry_template(template: Seq<char>, span: (int, int)) -> Seq<char> {
    let inner = trim(
        template.subrange(
            span.0 + crate::parser::start_marker().len(),
            span.1 - crate::parser::end_marker().len(),
        ),
    );
    if inner.len() == 0 {
        default_entry_template()
    } else {
        inner
    }
}

/// The entry template rendered for each of `entries`, each followed by a line break.
pub open spec fn listing(entries: Seq<PageMetadata>, t: Seq<char>, year: i32) -> Seq<char>
    decreases entries.len(),
{
    if entries.len() == 0 {
        Seq::empty()
    } else {
        listing(entries.drop_last(), t, year) + substituted(variables_of(entries.last(), year), t)
            + seq!['\n']
    }
}

/// The navigation block of an index page: a link to the previous page, the page's
/// number, a link to the next page.
pub open spec fn pagination_html(c: PaginationContext) -> Seq<char> {
    "<nav class=\"pagination\">"@ + (if c.has_previous {
        "<a class=\"pagination-prev\" href=\""@ + c.previous_url@ + "\">Previous</a>"@
    } else {
        Seq::empty()
    }) + "<span class=\"pagination-info\">Page "@ + decimal(c.current_page as nat) + " of "@
        + decimal(c.total_pages as nat) + "</span>"@ + (if c.has_next {
        "<a class=\"pagination-next\" href=\""@ + c.next_url@ + "\">Next</a>"@
    } else {
        Seq::empty()
    }) + "</nav>"@
}

/// An index page in marker mode: the marked span of `template` replaced by the listing of
/// `entries`, then the title placeholder by `title` and the pagination placeholder by the
/// navigation block (nothing without pagination). `None` when the markers are missing.
pub open spec fn index_page(
    template: Seq<char>,
    entries: Seq<PageMetadata>,
    title: Seq<char>,
    pagination: Option<PaginationContext>,
    year: i32,
) -> Option<Seq<char>> {
    match crate::parser::marker_span(template) {
        Some(span) => {
            let body = template.take(span.0) + listing(entries, entry_template(template, span), year)
                + template.skip(span.1);
            let titled = replace_all(body, placeholder("title"@), title);
            Some(
                replace_all(
                    titled,
                    placeholder("pagination"@),
                    match pagination {
                        Some(c) => pagination_html(c),
                        None => Seq::empty(),
                    },
                ),
            )
        },
        None => None,
    }
}

fn pagination_html_vec(c: &PaginationContext) -> (r: Vec<char>)
    ensures
        r@ == pagination_html(*c),
{
    let mut r = chars_of("<nav class=\"pagination\">");
    if c.has_previous {
        push_str(&mut r, "<a class=\"pagination-prev\" href=\"");
        push_str(&mut r, c.previous_url.as_str());
        push_str(&mut r, "\">Previous</a>");
    }
    push_str(&mut r, "<span class=\"pagination-info\">Page ");
    push_all(&mut r, &decimal_vec(c.current_page));
    push_str(&mut r, " of ");
    push_all(&mut r, &decimal_vec(c.total_pages));
    push_str(&mut r, "</span>");
    if c.has_next {
        push_str(&mut r, "<a class=\"pagination-next\" href=\"");
        push_str(&mut r, c.next_url.as_str());
        push_str(&mut r, "\">Next</a>");
    }
    push_str(&mut r, "</nav>");
    r
}

/// The pages at `positions` in `pages`.
pub open spec fn at_positions(pages: Seq<PageMetadata>, positions: Seq<usize>) -> Seq<
    PageMetadata,
> {
    positions.map_values(|i: usize| pages[i as int])
}

/// Renders an index page in marker mode with `year` as the current year (see `index_page`);
/// the entries are the pages at `positions`.
pub fn build_index_page_for_year(
    template: &str,
    pages: &Vec<PageMetadata>,
    positions: &Vec<usize>,
    title: &str,
    pagination: Option<&PaginationContext>,
    year: i32,
) -> (r: Option<String>)
    requires
        forall|i: int| 0 <= i < positions.len() ==> positions@[i] < pages.len(),
    ensures
        r matches Some(p) ==> index_page(
            template@,
            at_positions(pages@, positions@),
            title@,
            match pagination {
                Some(c) => Some(*c),
                None => None,
            },
            year,
        ) == Some(p@),
        r is None ==> crate::parser::marker_span(template@) is None,
{
    let t = chars_of(template);
    let (a, e) = match crate::parser::find_marker_span(&t) {
        Some(span) => span,
        None => {
            return None;
        },
    };
    let start_len = chars_of("<!-- start_content -->").len();
    let end_len = chars_of("<!-- end_content -->").len();
    proof {
        reveal_strlit("<!-- start_content -->");
        reveal_strlit("<!-- end_content -->");
    }
    assert(a + start_len <= e - end_len);
    let inner = crate::text::trim_vec(&subvec(&t, a + start_len, e - end_len));
    let entry_t = if inner.len() == 0 {
        chars_of(
            "<div class=\"post\">\n<h2><a href=\"$GENERETO['file_name']\">$GENERETO['title']</a></h2>\n<div class=\"post-date\">$GENERETO['publish_date']</div>\n<p class=\"post-description\">$GENERETO['description']</p>\n</div>\n",
        )
    } else {
        inner
    };
    let ghost entries = at_positions(pages@, positions@);
    let entry_s = string_of(&entry_t);
    let mut body = subvec(&t, 0, a);
    let ghost head = body@;
    let mut i: usize = 0;
    while i < positions.len()
        invariant
            i <= positions.len(),
            forall|q: int| 0 <= q < positions.len() ==> positions@[q] < pages.len(),
            entries == at_positions(pages@, positions@),
            entry_s@ == entry_t@,
            body@ == head + listing(entries.take(i as int), entry_s@, year),
        decreases positions.len() - i,
    {
        assert(entries.take(i + 1).drop_last() == entries.take(i as int));
        let m = &pages[positions[i]];
        assert(*m == entries[i as int]);
        assert(entries.take(i + 1).last() == entries[i as int]);
        let ghost before = body@;
        let rendered = m.apply_for_year(string_of(&entry_t), year);
        push_str(&mut body, rendered.as_str());
        body.push('\n');
        assert(body@ == before + substituted(variables_of(entries[i as int], year), entry_s@)
            + seq!['\n']);
        i += 1;
    }
    assert(entries.take(positions.len() as int) == entries);
    push_all(&mut body, &subvec(&t, e, t.len()));
    assert(t@.subrange(0, a as int) == t@.take(a as int));
    assert(t@.subrange(e as int, t.len() as int) == t@.skip(e as int));
    let titled = crate::text::replace_all_vec(&body, &chars_of("$GENERETO['title']"), &chars_of(title));
    let nav = match pagination {
        Some(c) => pagination_html_vec(c),
        None => Vec::new(),
    };
    let out = crate::text::replace_all_vec(&titled, &chars_of("$GENERETO['pagination']"), &nav);
    proof {
        reveal_strlit("title");
        reveal_strlit("pagination");
        reveal_strlit("$GENERETO['title']");
        reveal_strlit("$GENERETO['pagination']");
        reveal_strlit("$GENERETO['");
        reveal_strlit("']");
        assert("$GENERETO['title']"@ == placeholder("title"@));
        assert("$GENERETO['pagination']"@ == placeholder("pagination"@));
        assert(entry_t@ == entry_template(t@, (a as int, e as int)));
    }
    Some(string_of(&out))
}

/// What `build_index_pages` produces from the listing `ls`: one page for each page of a
/// pagination plan, named as the plan says and showing its range of `ls`.
pub open spec fn are_index_pages_of(
    out: Seq<(String, String)>,
    plan: Seq<IndexPage>,
    template: Seq<char>,
    ls: Seq<PageMetadata>,
    title: Seq<char>,
    year: i32,
) -> bool {
    &&& out.len() == plan.len()
    &&& forall|q: int|
        0 <= q < out.len() ==> {
            &&& (#[trigger] out[q]).0@ == plan[q].file_name@
            &&& plan[q].first <= plan[q].last <= ls.len()
            &&& index_page(
                template,
                ls.subrange(plan[q].first as int, plan[q].last as int),
                title,
                plan[q].pagination,
                year,
            ) == Some(out[q].1@)
        }
}

/// Whether `out` holds the index pages of the blog whose pages are `pages`: the pages that
/// the policy `opts` lists, split by a pagination plan, each part rendered into its file with
/// the title `title`.
pub open spec fn renders_index(
    out: Seq<(String, String)>,
    template: Seq<char>,
    pages: Seq<PageMetadata>,
    opts: DraftsOptions,
    max_entries_per_page: Option<usize>,
    index_name: Seq<char>,
    title: Seq<char>,
) -> bool {
    exists|plan: Seq<IndexPage>, year: i32|
        #![trigger are_index_pages_of(out, plan, template, listed(pages, opts), title, year)]
        {
            &&& is_plan_of(plan, listed(pages, opts).len(), max_entries_per_page, index_name)
            &&& are_index_pages_of(out, plan, template, listed(pages, opts), title, year)
        }
}

/// Builds the index pages of a blog from its pages, sorted as they should be listed: the
/// pages that the draft policy lists are split by `max_entries_per_page` and each part is
/// rendered in marker mode into its file. Each result is a file name and its content. Fails
/// with `MissingTemplateMarker` exactly when the template lacks its markers.
pub fn build_index_pages(
    template: &str,
    pages: &Vec<PageMetadata>,
    opts: &DraftsOptions,
    max_entries_per_page: Option<usize>,
    index_name: &str,
    title: &str,
) -> (r: Result<Vec<(String, String)>, crate::error::GeneretoError>)
    ensures
        r is Err <==> crate::parser::marker_span(template@) is None,
        r matches Err(e) ==> e is MissingTemplateMarker,
        r matches Ok(out) ==> renders_index(
            out@,
            template@,
            pages@,
            *opts,
            max_entries_per_page,
            index_name@,
            title@,
        ),
{
    if crate::parser::find_marker_span(&chars_of(template)).is_none() {
        return Err(crate::error::GeneretoError::MissingTemplateMarker);
    }
    let positions = listed_positions(pages, opts);
    let ghost ls = listed(pages@, *opts);
    let plan = paginate(positions.len(), max_entries_per_page, index_name);
    let year = crate::dates::current_year();
    let mut out: Vec<(String, String)> = Vec::new();
    let mut q: usize = 0;
    proof {
        assert(plan@.len() >= 1);
        assert forall|k: int| 0 <= k < plan@.len() implies (#[trigger] plan@[k]).first
            <= plan@[k].last <= positions.len() by {
            match max_entries_per_page {
                Some(size) => {
                    if size > 0 {
                        let n = positions.len() as int;
                        let t = plan@.len() as int;
                        if n > 0 {
                            vstd::arithmetic::div_mod::lemma_fundamental_div_mod(
                                n - 1,
                                size as int,
                            );
                            assert(k * size <= (t - 1) * size) by (nonlinear_arith)
                                requires
                                    k <= t - 1,
                                    size > 0,
                            ;
                            assert((t - 1) * size <= n - 1) by (nonlinear_arith)
                                requires
                                    t == (n - 1) / (size as int) + 1,
                                    n - 1 == (size as int) * ((n - 1) / (size as int)) + (n - 1)
                                        % (size as int),
                                    (n - 1) % (size as int) >= 0,
                                    size > 0,
                            ;
                        }
                        assert(k * size <= (k + 1) * size) by (nonlinear_arith)
                            requires
                                size > 0,
                                k >= 0,
                        ;
                    }
                },
                None => {},
            }
        }
    }
    while q < plan.len()
        invariant
            q <= plan.len(),
            ls == listed(pages@, *opts),
            positions@.map_values(|i: usize| pages@[i as int]) == ls,
            positions.len() == ls.len(),
            forall|i: int| 0 <= i < positions.len() ==> positions@[i] < pages.len(),
            forall|k: int|
                0 <= k < plan@.len() ==> (#[trigger] plan@[k]).first <= plan@[k].last
                    <= positions.len(),
            crate::parser::marker_span(template@) is Some,
            are_index_pages_of(out@, plan@.take(q as int), template@, ls, title@, year),
        decreases plan.len() - q,
    {
        let page = &plan[q];
        let chunk = slice_positions(&positions, page.first, page.last);
        assert(at_positions(pages@, chunk@) == ls.subrange(page.first as int, page.last as int));
        let pagination = match &page.pagination {
            Some(c) => Some(c),
            None => None,
        };
        let html = match build_index_page_for_year(template, pages, &chunk, title, pagination, year) {
            Some(h) => h,
            None => {
                return Err(crate::error::GeneretoError::MissingTemplateMarker);
            },
        };
        let ghost before = out@;
        out.push((string_of(&chars_of(page.file_name.as_str())), html));
        assert(plan@.take(q + 1)[q as int] == plan@[q as int]);
        assert forall|k: int| 0 <= k < q implies #[trigger] plan@.take(q + 1)[k] == plan@.take(
            q as int,
        )[k] by {}
        q += 1;
    }
    assert(plan@.take(plan.len() as int) == plan@);
    assert(are_index_pages_of(out@, plan@, template@, ls, title@, year));
    assert(is_plan_of(plan@, ls.len(), max_entries_per_page, index_name@));
    let r: Result<Vec<(String, String)>, crate::error::GeneretoError> = Ok(out);
    assert(are_index_pages_of(out@, plan@, template@, listed(pages@, *opts), title@, year));
    assert(renders_index(
        out@,
        template@,
        pages@,
        *opts,
        max_entries_per_page,
        index_name@,
        title@,
    ));
    r
}

/// Builds the index pages of the blog of `config` (see `build_index_pages`): its page size
/// and index file name come from the blog settings, and its title is the blog's title when
/// it has one and the site's otherwise.
pub fn build_blog_index_pages(
    config: &crate::config::GeneretoConfig,
    template: &str,
    pages: &Vec<PageMetadata>,
    opts: &DraftsOptions,
) -> (r: Result<Vec<(String, String)>, crate::error::GeneretoError>)
    ensures
        r is Err <==> crate::parser::marker_span(template@) is None,
        r matches Err(e) ==> e is MissingTemplateMarker,
        r matches Ok(out) ==> renders_index(
            out@,
            template@,
            pages@,
            *opts,
            config.blog.max_entries_per_page,
            config.blog.index_name@,
            crate::config::index_title_of(
                crate::page_metadata::opt_view(config.blog.title),
                config.title@,
            ),
        ),
{
    let title = config.blog_index_title();
    build_index_pages(
        template,
        pages,
        opts,
        config.blog.max_entries_per_page,
        config.blog.index_name.as_str(),
        title.as_str(),
    )
}

fn slice_positions(positions: &Vec<usize>, first: usize, last: usize) -> (r: Vec<usize>)
    requires
        first <= last <= positions.len(),
    ensures
        r@ == positions@.subrange(first as int, last as int),
{
    let mut r: Vec<usize> = Vec::new();
    let mut i: usize = first;
    while i < last
        invariant
            first <= i <= last <= positions.len(),
            r@ == positions@.subrange(first as int, i as int),
        decreases last - i,
    {
        r.push(positions[i]);
        assert(positions@.subrange(first as int, i as int).push(positions@[i as int])
            == positions@.subrange(first as int, i + 1));
        i += 1;
    }
    r
}

} // verus!
