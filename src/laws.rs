use vstd::prelude::*;

use crate::blog::{is_date_sort_of, is_listed, is_plan_of, is_written, listed, newer, sorted_by_date, IndexPage};
use crate::page_metadata::{is_enriched, todo_marker, PageMetadata, PageMetadataRaw};
use crate::parser::{
    anchor_of, heading_anchor, heading_text, is_heading, kept_in_anchor, with_id, without_special,
};
use crate::text::{
    before_last, contains, drop_leading, is_ws, lower_ascii, replace_all, rfind_char, trim,
    trim_end, trim_start,
};
use crate::DraftsOptions;

verus! {

proof fn lemma_trim_start_append(d: Seq<char>, x: Seq<char>)
    requires
        x.len() > 0,
        !is_ws(x[0]),
    ensures
        trim_start(d + x) == trim_start(d) + x,
    decreases d.len(),
{
    if d.len() == 0 {
        assert(d + x == x);
    } else if is_ws(d[0]) {
        assert((d + x).drop_first() == d.drop_first() + x);
        lemma_trim_start_append(d.drop_first(), x);
    }
}

proof fn lemma_drop_leading_append(d: Seq<char>, x: Seq<char>, c: char)
    requires
        x.len() > 0,
        x[0] != c,
    ensures
        drop_leading(d + x, c) == drop_leading(d, c) + x,
    decreases d.len(),
{
    if d.len() == 0 {
        assert(d + x == x);
    } else if d[0] == c {
        assert((d + x).drop_first() == d.drop_first() + x);
        lemma_drop_leading_append(d.drop_first(), x, c);
    }
}

proof fn lemma_trim_start_shape(s: Seq<char>)
    ensures
        trim_start(trim_start(s)) == trim_start(s),
        trim_start(s).len() > 0 ==> !is_ws(trim_start(s)[0]),
        exists|k: int| 0 <= k <= s.len() && trim_start(s) == s.skip(k),
    decreases s.len(),
{
    if s.len() > 0 && is_ws(s[0]) {
        lemma_trim_start_shape(s.drop_first());
        let k = choose|k: int|
            0 <= k <= s.drop_first().len() && trim_start(s.drop_first()) == s.drop_first().skip(k);
        assert(s.drop_first().skip(k) == s.skip(k + 1));
    } else {
        assert(s.skip(0) == s);
    }
}

proof fn lemma_trim_end_shape(s: Seq<char>)
    ensures
        trim_end(trim_end(s)) == trim_end(s),
        trim_end(s).len() > 0 ==> !is_ws(trim_end(s).last()),
        trim_end(s).len() <= s.len(),
        trim_end(s) == s.take(trim_end(s).len() as int),
    decreases s.len(),
{
    if s.len() > 0 && is_ws(s.last()) {
        lemma_trim_end_shape(s.drop_last());
        assert(s.drop_last().take(trim_end(s).len() as int) == s.take(trim_end(s).len() as int));
    } else {
        assert(s.take(s.len() as int) == s);
    }
}

proof fn lemma_trim_idempotent(s: Seq<char>)
    ensures
        trim(trim(s)) == trim(s),
        trim(trim_start(s)) == trim(s),
{
    lemma_trim_start_shape(s);
    let z = trim_start(s);
    lemma_trim_end_shape(z);
    let t = trim_end(z);
    if t.len() > 0 {
        assert(t[0] == z[0]);
        assert(trim_start(t) == t);
    } else {
        assert(trim_start(t) == t);
    }
}

proof fn lemma_no_char_suffix(s: Seq<char>, k: int, c: char)
    requires
        0 <= k <= s.len(),
        forall|i: int| 0 <= i < s.len() ==> s[i] != c,
    ensures
        forall|i: int| 0 <= i < s.skip(k).len() ==> s.skip(k)[i] != c,
{
    assert forall|i: int| 0 <= i < s.skip(k).len() implies s.skip(k)[i] != c by {
        assert(s.skip(k)[i] == s[i + k]);
    }
}

proof fn lemma_drop_leading_suffix(s: Seq<char>, c: char)
    ensures
        exists|k: int| 0 <= k <= s.len() && drop_leading(s, c) == s.skip(k),
    decreases s.len(),
{
    if s.len() > 0 && s[0] == c {
        lemma_drop_leading_suffix(s.drop_first(), c);
        let k = choose|k: int|
            0 <= k <= s.drop_first().len() && drop_leading(s.drop_first(), c)
                == s.drop_first().skip(k);
        assert(s.drop_first().skip(k) == s.skip(k + 1));
    } else {
        assert(s.skip(0) == s);
    }
}

proof fn lemma_before_last_absent(s: Seq<char>, c: char)
    requires
        forall|i: int| 0 <= i < s.len() ==> s[i] != c,
    ensures
        rfind_char(s, c) is None,
        before_last(s, c) == s,
    decreases s.len(),
{
    if s.len() > 0 {
        lemma_before_last_absent(s.drop_last(), c);
    }
}

proof fn lemma_rfind_last_piece(y: Seq<char>, x: Seq<char>, c: char)
    requires
        x.len() > 0,
        x[0] == c,
        forall|i: int| 1 <= i < x.len() ==> x[i] != c,
    ensures
        rfind_char(y + x, c) == Some(y.len() as int),
    decreases x.len(),
{
    if x.len() == 1 {
        assert((y + x).last() == c);
    } else {
        assert((y + x).drop_last() == y + x.drop_last());
        lemma_rfind_last_piece(y, x.drop_last(), c);
    }
}

proof fn lemma_without_special_kept(s: Seq<char>)
    ensures
        forall|i: int|
            0 <= i < without_special(s).len() ==> kept_in_anchor(#[trigger] without_special(s)[i]),
    decreases s.len(),
{
    if s.len() > 0 {
        lemma_without_special_kept(s.drop_last());
        let r = without_special(s.drop_last());
        assert forall|i: int| 0 <= i < without_special(s).len() implies kept_in_anchor(
            #[trigger] without_special(s)[i],
        ) by {
            if i < r.len() {
                assert(without_special(s)[i] == r[i]);
            }
        }
    }
}

proof fn lemma_replace_all_chars(s: Seq<char>, p: Seq<char>, r: Seq<char>, c: char)
    requires
        forall|i: int| 0 <= i < s.len() ==> s[i] != c,
        forall|i: int| 0 <= i < r.len() ==> r[i] != c,
    ensures
        forall|i: int| 0 <= i < replace_all(s, p, r).len() ==> #[trigger] replace_all(s, p, r)[i] != c,
    decreases s.len(),
{
    if p.len() == 0 || s.len() < p.len() {
    } else if s.subrange(0, p.len() as int) == p {
        let rest = s.subrange(p.len() as int, s.len() as int);
        assert forall|i: int| 0 <= i < rest.len() implies rest[i] != c by {
            assert(rest[i] == s[i + p.len()]);
        }
        lemma_replace_all_chars(rest, p, r, c);
        let out = replace_all(s, p, r);
        let tail = replace_all(rest, p, r);
        assert(out == r + tail);
        assert forall|i: int| 0 <= i < out.len() implies #[trigger] out[i] != c by {
            if i < r.len() {
                assert(out[i] == r[i]);
            } else {
                assert(out[i] == tail[i - r.len()]);
            }
        }
    } else {
        let rest = s.drop_first();
        assert forall|i: int| 0 <= i < rest.len() implies rest[i] != c by {
            assert(rest[i] == s[i + 1]);
        }
        lemma_replace_all_chars(rest, p, r, c);
        let out = replace_all(s, p, r);
        let tail = replace_all(rest, p, r);
        assert(out == seq![s[0]] + tail);
        assert forall|i: int| 0 <= i < out.len() implies #[trigger] out[i] != c by {
            if i > 0 {
                assert(out[i] == tail[i - 1]);
            }
        }
    }
}

proof fn lemma_anchor_has_no_brace(title: Seq<char>)
    ensures
        forall|i: int| 0 <= i < anchor_of(title).len() ==> anchor_of(title)[i] != '{',
{
    let kept = without_special(trim(title));
    lemma_without_special_kept(trim(title));
    assert forall|i: int| 0 <= i < kept.len() implies kept[i] != '{' by {
        assert(kept_in_anchor(kept[i]));
    }
    reveal_strlit("-");
    lemma_replace_all_chars(kept, " "@, "-"@, '{');
    let dashed = replace_all(kept, " "@, "-"@);
    assert forall|i: int| 0 <= i < anchor_of(title).len() implies anchor_of(title)[i] != '{' by {
        assert(anchor_of(title)[i] == lower_ascii(dashed[i]));
        assert(dashed[i] != '{');
    }
}

/// The anchor id that the table of contents links to for a heading equals the id injected
/// into that heading: the table is built from content whose headings already carry their id,
/// and reading the heading back from such a line gives the id it carries. This holds for
/// every heading line whose text has no `{`; in a heading such as `# a {b}` the injected id
/// is taken from the text before its last `{`.
pub proof fn lemma_toc_anchor_matches_injected_id(line: Seq<char>)
    requires
        is_heading(line),
        forall|i: int| 0 <= i < line.len() ==> line[i] != '{',
    ensures
        is_heading(with_id(line)),
        heading_anchor(with_id(line)) == heading_anchor(line),
{
    let a = heading_anchor(line);
    lemma_anchor_has_no_brace(heading_text(line));
    reveal_strlit("{#");
    reveal_strlit("}");
    let x = "{#"@ + a + "}"@;
    assert(x[0] == '{');
    assert(x.last() == '}');
    assert forall|i: int| 1 <= i < x.len() implies x[i] != '{' by {
        if i == 1 {
        } else if i < x.len() - 1 {
            assert(x[i] == a[i - 2]);
        }
    }
    assert(with_id(line) == line + x);
    // Reading back the start of the line.
    lemma_trim_start_append(line, x);
    let ts = trim_start(line);
    lemma_trim_start_shape(line);
    lemma_trim_end_shape(ts);
    assert(trim(line) == trim_end(ts));
    assert(trim(line)[0] == ts[0]);
    assert(trim_end(ts + x) == ts + x);
    assert(trim(line + x) == ts + x);
    assert((ts + x)[0] == ts[0]);
    // The heading text of the new line.
    lemma_drop_leading_append(ts, x, '#');
    let d = drop_leading(ts, '#');
    lemma_trim_start_append(d, x);
    lemma_trim_end_shape(trim_start(d) + x);
    assert(trim_end(trim_start(d) + x) == trim_start(d) + x);
    assert(trim(d + x) == trim_start(d) + x);
    lemma_rfind_last_piece(trim_start(d), x, '{');
    assert((trim_start(d) + x).take(trim_start(d).len() as int) == trim_start(d));
    assert(heading_text(line + x) == trim_start(d));
    // The heading text of the old line has no brace to cut at.
    lemma_trim_start_shape(line);
    let k1 = choose|k: int| 0 <= k <= line.len() && trim_start(line) == line.skip(k);
    lemma_no_char_suffix(line, k1, '{');
    lemma_drop_leading_suffix(ts, '#');
    let k2 = choose|k: int| 0 <= k <= ts.len() && drop_leading(ts, '#') == ts.skip(k);
    lemma_no_char_suffix(ts, k2, '{');
    lemma_trim_start_shape(d);
    let k3 = choose|k: int| 0 <= k <= d.len() && trim_start(d) == d.skip(k);
    lemma_no_char_suffix(d, k3, '{');
    let td = trim_start(d);
    lemma_trim_end_shape(td);
    assert forall|i: int| 0 <= i < trim(d).len() implies trim(d)[i] != '{' by {
        assert(trim(d)[i] == td[i]);
    }
    lemma_before_last_absent(trim(d), '{');
    assert(heading_text(line) == trim(d));
    // Both ids are read from the same trimmed text.
    lemma_trim_idempotent(d);
    assert(trim(trim_start(d)) == trim(trim(d)));
}

/// Sorting by publish date is idempotent: sorting the result of a sort again gives the
/// same order.
pub proof fn lemma_sort_idempotent(
    input: Seq<PageMetadata>,
    once: Seq<PageMetadata>,
    twice: Seq<PageMetadata>,
)
    requires
        is_date_sort_of(once, input),
        is_date_sort_of(twice, once),
    ensures
        twice == once,
{
}

proof fn lemma_listed_contains(s: Seq<PageMetadata>, opts: DraftsOptions, m: PageMetadata)
    ensures
        listed(s, opts).contains(m) <==> s.contains(m) && is_listed(m, opts),
    decreases s.len(),
{
    if s.len() > 0 {
        lemma_listed_contains(s.drop_last(), opts, m);
        let r = listed(s.drop_last(), opts);
        if s.contains(m) {
            let i = choose|i: int| 0 <= i < s.len() && s[i] == m;
            if i < s.len() - 1 {
                assert(s.drop_last()[i] == m);
            }
        }
        if s.drop_last().contains(m) {
            let i = choose|i: int| 0 <= i < s.drop_last().len() && s.drop_last()[i] == m;
            assert(s[i] == m);
        }
        if is_listed(s.last(), opts) {
            if r.push(s.last()).contains(m) {
                let i = choose|i: int| 0 <= i < r.push(s.last()).len() && r.push(s.last())[i] == m;
                if i < r.len() {
                    assert(r[i] == m);
                }
            }
            if r.contains(m) {
                let i = choose|i: int| 0 <= i < r.len() && r[i] == m;
                assert(r.push(s.last())[i] == m);
            }
            assert(r.push(s.last())[r.len() as int] == s.last());
        }
        assert(s[s.len() - 1] == s.last());
    }
}

/// How a draft fares under each draft policy, for any list of pages that holds it: under
/// the default policy it is written but listed nowhere; under the dev policy it is written
/// and listed like any other page (the error page is never listed); under the hide policy it
/// is neither written nor listed.
pub proof fn lemma_draft_policy(pages: Seq<PageMetadata>, m: PageMetadata)
    requires
        m.is_draft,
        pages.contains(m),
    ensures
        is_written(m.is_draft, DraftsOptions::Build),
        !listed(pages, DraftsOptions::Build).contains(m),
        is_written(m.is_draft, DraftsOptions::Dev),
        m.file_name@ != "error.html"@ ==> listed(pages, DraftsOptions::Dev).contains(m),
        !is_written(m.is_draft, DraftsOptions::Hide),
        !listed(pages, DraftsOptions::Hide).contains(m),
{
    lemma_listed_contains(pages, DraftsOptions::Build, m);
    lemma_listed_contains(pages, DraftsOptions::Dev, m);
    lemma_listed_contains(pages, DraftsOptions::Hide, m);
}

/// Enrichment of a page not declared a draft: without the unfinished-work marker it stays
/// no draft and keeps its title; with the marker it becomes a draft and its title gains the
/// prefix `[DRAFT] ` once.
pub proof fn lemma_draft_promotion(
    m: PageMetadata,
    raw: PageMetadataRaw,
    content: Seq<char>,
    file_name: Seq<char>,
    default_cover_image: Seq<char>,
    vcs_date: Option<Seq<char>>,
)
    requires
        is_enriched(m, raw, content, file_name, default_cover_image, vcs_date),
        !raw.is_draft,
    ensures
        !contains(content, todo_marker()) ==> !m.is_draft && m.title@ == raw.title@,
        contains(content, todo_marker()) ==> m.is_draft && m.title@ == "[DRAFT] "@ + raw.title@,
{
}

proof fn lemma_listed_sorted(s: Seq<PageMetadata>, opts: DraftsOptions)
    requires
        sorted_by_date(s),
    ensures
        sorted_by_date(listed(s, opts)),
    decreases s.len(),
{
    if s.len() > 0 {
        let d = s.drop_last();
        assert(sorted_by_date(d)) by {
            assert forall|i: int, j: int| 0 <= i < j < d.len() implies !newer(
                #[trigger] d[j],
                #[trigger] d[i],
            ) by {
                assert(d[i] == s[i] && d[j] == s[j]);
            }
        }
        lemma_listed_sorted(d, opts);
        let r = listed(d, opts);
        if is_listed(s.last(), opts) {
            let w = r.push(s.last());
            assert forall|i: int, j: int| 0 <= i < j < w.len() implies !newer(
                #[trigger] w[j],
                #[trigger] w[i],
            ) by {
                if j < r.len() {
                    assert(w[i] == r[i] && w[j] == r[j]);
                } else {
                    assert(w[j] == s.last());
                    assert(w[i] == r[i]);
                    lemma_listed_contains(d, opts, r[i]);
                    assert(r.contains(r[i]));
                    let k = choose|k: int| 0 <= k < d.len() && d[k] == r[i];
                    assert(s[k] == r[i]);
                    assert(s[s.len() - 1] == s.last());
                }
            }
        }
    }
}

/// Index pages list the blog from the most recent entry down: when the pages are sorted by
/// publish date, no entry shown on a page is older than an entry shown on a later page (nor
/// than one further down the same page).
pub proof fn lemma_index_pages_by_recency(
    pages: Seq<PageMetadata>,
    opts: DraftsOptions,
    plan: Seq<IndexPage>,
    max_entries_per_page: Option<usize>,
    index_name: Seq<char>,
    q1: int,
    q2: int,
    i: int,
    j: int,
)
    requires
        sorted_by_date(pages),
        is_plan_of(plan, listed(pages, opts).len(), max_entries_per_page, index_name),
        0 <= q1 <= q2 < plan.len(),
        plan[q1].first <= i < plan[q1].last,
        plan[q2].first <= j < plan[q2].last,
        q1 == q2 ==> i < j,
    ensures
        !newer(listed(pages, opts)[j], listed(pages, opts)[i]),
{
    let ls = listed(pages, opts);
    lemma_listed_sorted(pages, opts);
    let p1 = plan[q1];
    let p2 = plan[q2];
    if q1 < q2 {
        match max_entries_per_page {
            Some(size) => {
                if size > 0 {
                    assert(p1.last <= (q1 + 1) * size);
                    assert((q1 + 1) * size <= q2 * size) by (nonlinear_arith)
                        requires
                            q1 + 1 <= q2,
                            size > 0,
                    ;
                    assert(p2.first == q2 * size);
                } else {
                    assert(plan.len() == 1);
                }
            },
            None => {
                assert(plan.len() == 1);
            },
        }
    }
    assert(i < j);
    assert(j < ls.len()) by {
        match max_entries_per_page {
            Some(size) => {
                if size > 0 {
                    assert(p2.last <= ls.len());
                }
            },
            None => {},
        }
    }
    assert(!newer(ls[j], ls[i]));
}

} // verus!
