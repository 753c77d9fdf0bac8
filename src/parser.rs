use vstd::prelude::*;

use crate::text::{
    before_last, before_last_vec, chars_of, drop_leading, drop_leading_vec, find_from, find_spec, is_first_occurrence,
    is_ascii_alnum, is_ws, is_ws_char, line_end, lines, lower_ascii, lower_ascii_exec, next_line, push_all,
    push_str, replace_all, replace_all_vec, starts_with, starts_with_exec, string_of, subvec, trim,
    trim_start, trim_start_vec, trim_vec,
};

verus! {

/// Opens an authoring comment; the comment runs to the next closing brace.
pub open spec fn comment_marker() -> Seq<char> {
    "$GENERETO{"@
}

/// A line that opens or closes a fenced code block.
pub open spec fn is_fence(line: Seq<char>) -> bool {
    starts_with(trim(line), "```"@)
}

/// A line whose trimmed form starts with `#`.
pub open spec fn is_heading(line: Seq<char>) -> bool {
    trim(line).len() > 0 && trim(line)[0] == '#'
}

/// Whether the line after `line` is inside a code block, given whether `line` was reached inside one.
pub open spec fn code_after(line: Seq<char>, in_code: bool) -> bool {
    if is_fence(line) {
        !in_code
    } else {
        in_code
    }
}

/// A line outside code blocks with its authoring comment taken out: a line that
/// starts with the marker is emptied, and otherwise the span from the first marker to
/// the first closing brace after it is removed wherever it occurs in the line.
pub open spec fn without_comment(line: Seq<char>) -> Seq<char> {
    if starts_with(trim(line), comment_marker()) {
        Seq::empty()
    } else {
        match find_spec(line, comment_marker(), 0) {
            Some(a) => match find_spec(line, "}"@, a) {
                Some(b) => replace_all(line, line.subrange(a, b + 1), Seq::empty()),
                None => line,
            },
            None => line,
        }
    }
}

/// The lines `ls` with comments filtered out, each followed by a line break.
pub open spec fn filter_lines(ls: Seq<Seq<char>>, in_code: bool) -> Seq<char>
    decreases ls.len(),
{
    if ls.len() == 0 {
        Seq::empty()
    } else {
        let line = ls[0];
        let code = code_after(line, in_code);
        (if code {
            line
        } else {
            without_comment(line)
        }) + seq!['\n'] + filter_lines(ls.drop_first(), code)
    }
}

/// The characters that an anchor id keeps.
pub open spec fn kept_in_anchor(c: char) -> bool {
    is_ascii_alnum(c) || is_ws(c)
}

/// `s` with every character removed that is neither an ASCII letter or digit nor whitespace.
pub open spec fn without_special(s: Seq<char>) -> Seq<char>
    decreases s.len(),
{
    if s.len() == 0 {
        s
    } else {
        let r = without_special(s.drop_last());
        if kept_in_anchor(s.last()) {
            r.push(s.last())
        } else {
            r
        }
    }
}

/// The anchor id of a heading title.
pub open spec fn anchor_of(title: Seq<char>) -> Seq<char> {
    replace_all(without_special(trim(title)), " "@, "-"@).map_values(|c: char| lower_ascii(c))
}

/// The title text of a heading line: what follows the run of `#`, trimmed, and cut
/// before its last `{`.
pub open spec fn heading_text(line: Seq<char>) -> Seq<char> {
    before_last(trim(drop_leading(trim_start(line), '#')), '{')
}

pub open spec fn heading_anchor(line: Seq<char>) -> Seq<char> {
    anchor_of(heading_text(line))
}

/// A heading line with its anchor id appended.
pub open spec fn with_id(line: Seq<char>) -> Seq<char> {
    line + "{#"@ + heading_anchor(line) + "}"@
}

/// The lines `ls` with ids added to headings outside code blocks, each followed by a line break.
pub open spec fn id_lines(ls: Seq<Seq<char>>, in_code: bool) -> Seq<char>
    decreases ls.len(),
{
    if ls.len() == 0 {
        Seq::empty()
    } else {
        let line = ls[0];
        let code = code_after(line, in_code);
        (if is_heading(line) && !code {
            with_id(line)
        } else {
            line
        }) + seq!['\n'] + id_lines(ls.drop_first(), code)
    }
}

pub fn is_fence_exec(line: &Vec<char>) -> (r: bool)
    ensures
        r == is_fence(line@),
{
    let t = trim_vec(line);
    let fence = chars_of("```");
    starts_with_exec(&t, &fence)
}

pub fn is_heading_exec(line: &Vec<char>) -> (r: bool)
    ensures
        r == is_heading(line@),
{
    let t = trim_vec(line);
    t.len() > 0 && t[0] == '#'
}

fn without_comment_vec(line: &Vec<char>) -> (r: Vec<char>)
    ensures
        r@ == without_comment(line@),
{
    let marker = chars_of("$GENERETO{");
    let close = chars_of("}");
    proof {
        reveal_strlit("}");
    }
    assert(close@.len() == 1);
    let t = trim_vec(line);
    if starts_with_exec(&t, &marker) {
        return Vec::new();
    }
    match find_from(line, &marker, 0) {
        Some(a) => match find_from(line, &close, a) {
            Some(b) => {
                assert(is_first_occurrence(line@, close@, a as int, b as int));
                assert(b + 1 <= line@.len());
                assert(b < line.len());
                let span = subvec(line, a, b + 1);
                let empty: Vec<char> = Vec::new();
                replace_all_vec(line, &span, &empty)
            },
            None => subvec(line, 0, line.len()),
        },
        None => subvec(line, 0, line.len()),
    }
}

/// Removes authoring comments outside fenced code blocks (see `without_comment`);
/// every line of the result ends with a line break.
pub fn filter_out_comments(markdown_content: &str) -> (r: String)
    ensures
        r@ == filter_lines(lines(markdown_content@), false),
{
    let v = chars_of(markdown_content);
    let n = v.len();
    let mut out: Vec<char> = Vec::new();
    let mut in_code = false;
    let mut pos: usize = 0;
    assert(v@.subrange(0, n as int) == v@);
    while pos < n
        invariant
            pos <= n == v.len(),
            filter_lines(lines(v@), false) == out@ + filter_lines(
                lines(v@.subrange(pos as int, n as int)),
                in_code,
            ),
        decreases n - pos,
    {
        let (line, next) = next_line(&v, pos);
        let ghost ls = lines(v@.subrange(pos as int, n as int));
        assert(ls[0] == line@);
        assert(ls.drop_first() == lines(v@.subrange(next as int, n as int)));
        if is_fence_exec(&line) {
            in_code = !in_code;
        }
        if in_code {
            push_all(&mut out, &line);
        } else {
            let kept = without_comment_vec(&line);
            push_all(&mut out, &kept);
        }
        out.push('\n');
        pos = next;
    }
    assert(v@.subrange(n as int, n as int) == Seq::<char>::empty());
    assert(out@ + Seq::<char>::empty() == out@);
    string_of(&out)
}

fn without_special_vec(v: &Vec<char>) -> (r: Vec<char>)
    ensures
        r@ == without_special(v@),
{
    let mut out: Vec<char> = Vec::new();
    let mut i: usize = 0;
    while i < v.len()
        invariant
            i <= v.len(),
            out@ == without_special(v@.take(i as int)),
        decreases v.len() - i,
    {
        assert(v@.take(i + 1).drop_last() == v@.take(i as int));
        let c = v[i];
        if ('a' <= c && c <= 'z') || ('A' <= c && c <= 'Z') || ('0' <= c && c <= '9')
            || is_ws_char(c) {
            out.push(c);
        }
        i += 1;
    }
    assert(v@.take(v.len() as int) == v@);
    out
}

/// Removes every character that is neither an ASCII letter or digit nor whitespace.
pub fn remove_special_characters(input: &str) -> (r: String)
    ensures
        r@ == without_special(input@),
{
    let v = chars_of(input);
    string_of(&without_special_vec(&v))
}

pub(crate) fn anchor_vec(title: &Vec<char>) -> (r: Vec<char>)
    ensures
        r@ == anchor_of(title@),
{
    let t = trim_vec(title);
    let kept = without_special_vec(&t);
    let space = chars_of(" ");
    let dash = chars_of("-");
    let dashed = replace_all_vec(&kept, &space, &dash);
    let mut out: Vec<char> = Vec::new();
    let mut i: usize = 0;
    while i < dashed.len()
        invariant
            i <= dashed.len(),
            out@ == dashed@.take(i as int).map_values(|c: char| lower_ascii(c)),
        decreases dashed.len() - i,
    {
        out.push(lower_ascii_exec(dashed[i]));
        assert(dashed@.take(i + 1).map_values(|c: char| lower_ascii(c)) == out@);
        i += 1;
    }
    assert(dashed@.take(dashed.len() as int) == dashed@);
    out
}

/// The anchor id of a heading title: trimmed, stripped of special characters,
/// spaces turned into hyphens, lower case.
pub fn get_anchor_id_from_title(title: &str) -> (r: String)
    ensures
        r@ == anchor_of(title@),
{
    let v = chars_of(title);
    string_of(&anchor_vec(&v))
}

pub fn heading_text_vec(line: &Vec<char>) -> (r: Vec<char>)
    ensures
        r@ == heading_text(line@),
{
    let a = trim_start_vec(line);
    let (b, _) = drop_leading_vec(&a, '#');
    let c = trim_vec(&b);
    before_last_vec(&c, '{')
}

/// Appends an anchor id `{#id}` to every heading line outside fenced code blocks;
/// every line of the result ends with a line break.
pub fn add_ids_to_headings(content: &str) -> (r: String)
    ensures
        r@ == id_lines(lines(content@), false),
{
    let v = chars_of(content);
    let n = v.len();
    let mut out: Vec<char> = Vec::new();
    let mut in_code = false;
    let mut pos: usize = 0;
    assert(v@.subrange(0, n as int) == v@);
    while pos < n
        invariant
            pos <= n == v.len(),
            id_lines(lines(v@), false) == out@ + id_lines(
                lines(v@.subrange(pos as int, n as int)),
                in_code,
            ),
        decreases n - pos,
    {
        let (line, next) = next_line(&v, pos);
        let ghost ls = lines(v@.subrange(pos as int, n as int));
        assert(ls[0] == line@);
        assert(ls.drop_first() == lines(v@.subrange(next as int, n as int)));
        if is_fence_exec(&line) {
            in_code = !in_code;
        }
        push_all(&mut out, &line);
        if is_heading_exec(&line) && !in_code {
            let anchor = anchor_vec(&heading_text_vec(&line));
            push_str(&mut out, "{#");
            push_all(&mut out, &anchor);
            push_str(&mut out, "}");
        }
        out.push('\n');
        pos = next;
    }
    assert(v@.subrange(n as int, n as int) == Seq::<char>::empty());
    assert(out@ + Seq::<char>::empty() == out@);
    string_of(&out)
}

/// Whether a delimiter line starts at `i` in `s`: a whole line of three or more dashes,
/// ended by a line break.
pub open spec fn delimiter_line_at(s: Seq<char>, i: int) -> bool {
    &&& 0 <= i <= s.len()
    &&& (i == 0 || s[i - 1] == '\n')
    &&& {
        let k = i + line_end(s.subrange(i, s.len() as int));
        &&& k < s.len()
        &&& k - i >= 3
        &&& forall|m: int| i <= m < k ==> s[m] == '-'
    }
}

/// The end of the line that starts at `pos`.
fn line_end_at(v: &Vec<char>, pos: usize) -> (k: usize)
    requires
        pos <= v.len(),
    ensures
        pos <= k <= v.len(),
        k == pos + line_end(v@.subrange(pos as int, v.len() as int)),
        k < v.len() ==> v@[k as int] == '\n',
        forall|m: int| pos <= m < k ==> v@[m] != '\n',
{
    let n = v.len();
    let mut k: usize = pos;
    while k < n && v[k] != '\n'
        invariant
            pos <= k <= n == v.len(),
            line_end(v@.subrange(pos as int, n as int)) == (k - pos) + line_end(
                v@.subrange(k as int, n as int),
            ),
            forall|m: int| pos <= m < k ==> v@[m] != '\n',
        decreases n - k,
    {
        assert(v@.subrange(k as int, n as int).drop_first() == v@.subrange(k + 1, n as int));
        k += 1;
    }
    assert(line_end(v@.subrange(k as int, n as int)) == 0);
    k
}

/// Splits a source document at its first delimiter line into the metadata block before it
/// and the content after it. Fails with `MissingFrontmatter` exactly when there is no
/// delimiter line.
pub fn split_frontmatter(source_content: &str) -> (r: Result<
    (String, String),
    crate::error::GeneretoError,
>)
    ensures
        r is Err <==> forall|i: int| !delimiter_line_at(source_content@, i),
        r matches Err(e) ==> e is MissingFrontmatter,
        r matches Ok(parts) ==> exists|i: int|
            #![trigger delimiter_line_at(source_content@, i)]
            {
                &&& delimiter_line_at(source_content@, i)
                &&& forall|j: int| 0 <= j < i ==> !delimiter_line_at(source_content@, j)
                &&& parts.0@ == source_content@.take(i)
                &&& parts.1@ == source_content@.skip(
                    i + line_end(source_content@.subrange(i, source_content@.len() as int)) + 1,
                )
            },
{
    let v = chars_of(source_content);
    let n = v.len();
    let mut pos: usize = 0;
    loop
        invariant
            pos <= n == v.len(),
            v@ == source_content@,
            pos == 0 || v@[pos - 1] == '\n',
            forall|j: int| 0 <= j < pos ==> !delimiter_line_at(v@, j),
        decreases n - pos,
    {
        let k = line_end_at(&v, pos);
        let mut dashes = k - pos >= 3 && k < n;
        let mut m: usize = pos;
        while dashes && m < k
            invariant
                pos <= m <= k <= n == v.len(),
                dashes ==> forall|q: int| pos <= q < m ==> v@[q] == '-',
                dashes ==> k - pos >= 3 && k < n,
                pos == 0 || v@[pos - 1] == '\n',
                !dashes ==> !delimiter_line_at(v@, pos as int),
                k == pos + line_end(v@.subrange(pos as int, n as int)),
            decreases k - m,
        {
            if v[m] != '-' {
                dashes = false;
            }
            m += 1;
        }
        if dashes {
            assert(delimiter_line_at(v@, pos as int));
            let meta = string_of(&subvec(&v, 0, pos));
            let content = string_of(&subvec(&v, k + 1, n));
            assert(v@.subrange(0, pos as int) == v@.take(pos as int));
            assert(v@.subrange(k + 1, n as int) == v@.skip(k + 1));
            return Ok((meta, content));
        }
        assert forall|j: int| pos < j <= k implies !delimiter_line_at(v@, j) by {
            assert(v@[j - 1] != '\n');
        }
        if k == n {
            assert forall|j: int| 0 <= j implies !delimiter_line_at(v@, j) by {
                if j > n {
                }
            }
            return Err(crate::error::GeneretoError::MissingFrontmatter);
        }
        pos = k + 1;
    }
}

/// Splits a source document into its metadata block and its content with ids added to
/// its headings (see `split_frontmatter` and `add_ids_to_headings`).
pub fn compile_page_phase_1(source_content: &str) -> (r: Result<
    (String, String),
    crate::error::GeneretoError,
>)
    ensures
        r is Err <==> forall|i: int| !delimiter_line_at(source_content@, i),
        r matches Err(e) ==> e is MissingFrontmatter,
        r matches Ok(parts) ==> exists|i: int|
            #![trigger delimiter_line_at(source_content@, i)]
            {
                &&& delimiter_line_at(source_content@, i)
                &&& forall|j: int| 0 <= j < i ==> !delimiter_line_at(source_content@, j)
                &&& parts.0@ == source_content@.take(i)
                &&& parts.1@ == id_lines(
                    lines(
                        source_content@.skip(
                            i + line_end(source_content@.subrange(i, source_content@.len() as int))
                                + 1,
                        ),
                    ),
                    false,
                )
            },
{
    match split_frontmatter(source_content) {
        Ok((metadata, content)) => {
            let with_ids = add_ids_to_headings(content.as_str());
            Ok((metadata, with_ids))
        },
        Err(e) => Err(e),
    }
}

/// Marks where the content starts in a template.
pub open spec fn start_marker() -> Seq<char> {
    "<!-- start_content -->"@
}

/// Marks where the content ends in a template.
pub open spec fn end_marker() -> Seq<char> {
    "<!-- end_content -->"@
}

/// The span of `template` from its first start marker to the end of the first end marker
/// after it, if both are there.
pub open spec fn marker_span(template: Seq<char>) -> Option<(int, int)> {
    match find_spec(template, start_marker(), 0) {
        Some(a) => match find_spec(template, end_marker(), a + start_marker().len()) {
            Some(b) => Some((a, b + end_marker().len())),
            None => None,
        },
        None => None,
    }
}

/// `template` with its marked span, markers included, replaced by `content`.
pub open spec fn with_content(template: Seq<char>, content: Seq<char>) -> Option<Seq<char>> {
    match marker_span(template) {
        Some(span) => Some(template.take(span.0) + content + template.skip(span.1)),
        None => None,
    }
}

/// Finds the marked span of `template`.
pub fn find_marker_span(template: &Vec<char>) -> (r: Option<(usize, usize)>)
    ensures
        r matches Some(span) ==> marker_span(template@) == Some((span.0 as int, span.1 as int))
            && span.0 + start_marker().len() + end_marker().len() <= span.1 <= template.len(),
        r is None ==> marker_span(template@) is None,
{
    let start = chars_of("<!-- start_content -->");
    let end = chars_of("<!-- end_content -->");
    match find_from(template, &start, 0) {
        Some(a) => {
            assert(a + start.len() <= template.len());
            match find_from(template, &end, a + start.len()) {
                Some(b) => {
                    assert(b + end.len() <= template.len());
                    Some((a, b + end.len()))
                },
                None => None,
            }
        },
        None => None,
    }
}

/// The content of a page with the `# title` heading put above it when asked for.
pub open spec fn content_with_title(
    add_title: bool,
    title: Seq<char>,
    content: Seq<char>,
) -> Seq<char> {
    if add_title {
        "# "@ + title + "\n\n"@ + content
    } else {
        content
    }
}

/// The HTML of a page's content: the `# title` heading put above it when asked for,
/// comments filtered out, rendered from markdown.
pub open spec fn content_html(add_title: bool, title: Seq<char>, content: Seq<char>) -> Seq<char> {
    crate::markdown::html_of(filter_lines(lines(content_with_title(add_title, title, content)), false))
}

/// Renders the content of a page to HTML (see `content_html`).
pub fn render_content(add_title: bool, title: &str, content: &str) -> (r: String)
    ensures
        r@ == content_html(add_title, title@, content@),
{
    let full = if add_title {
        let mut c = chars_of("# ");
        push_str(&mut c, title);
        push_str(&mut c, "\n\n");
        push_str(&mut c, content);
        string_of(&c)
    } else {
        string_of(&chars_of(content))
    };
    let filtered = filter_out_comments(full.as_str());
    crate::markdown::markdown_to_html(filtered.as_str())
}

/// The page that marker mode renders: `template` with its marked span replaced by the
/// HTML of the content, comments filtered out, and the page's placeholders substituted.
pub open spec fn rendered_page(
    template: Seq<char>,
    m: crate::page_metadata::PageMetadata,
    content: Seq<char>,
    year: i32,
) -> Option<Seq<char>> {
    match with_content(template, content_html(m.add_title, m.title@, content)) {
        Some(page) => Some(
            crate::page_metadata::substituted(crate::page_metadata::variables_of(m, year), page),
        ),
        None => None,
    }
}

/// Renders a page in marker mode with `year` as the current year; `None` when the template
/// lacks its markers.
pub fn render_page_for_year(
    template_raw: &str,
    metadata: &crate::page_metadata::PageMetadata,
    content: &str,
    year: i32,
) -> (r: Option<String>)
    ensures
        r matches Some(p) ==> rendered_page(template_raw@, *metadata, content@, year) == Some(p@),
        r is None ==> rendered_page(template_raw@, *metadata, content@, year) is None,
{
    let t = chars_of(template_raw);
    let span = find_marker_span(&t);
    match span {
        None => None,
        Some((a, e)) => {
            let html = render_content(metadata.add_title, metadata.title.as_str(), content);
            let mut page = subvec(&t, 0, a);
            push_str(&mut page, html.as_str());
            push_all(&mut page, &subvec(&t, e, t.len()));
            assert(t@.subrange(0, a as int) == t@.take(a as int));
            assert(t@.subrange(e as int, t.len() as int) == t@.skip(e as int));
            Some(metadata.apply_for_year(string_of(&page), year))
        },
    }
}

/// Enriches the metadata of a page and renders it in marker mode. Fails with
/// `InvalidDate` when a date is not a calendar date, and otherwise with
/// `MissingTemplateMarker` when the template lacks its markers.
pub fn compile_page_phase_2(
    content: String,
    template_raw: &str,
    metadata_raw: crate::page_metadata::PageMetadataRaw,
    default_cover_image: &str,
    file_name: &str,
    vcs_date: Option<String>,
) -> (r: Result<(String, crate::page_metadata::PageMetadata), crate::error::GeneretoError>)
    ensures
        r matches Err(e) ==> (e is InvalidDate <==> crate::page_metadata::last_modified_of(
            metadata_raw.publish_date@,
            crate::page_metadata::opt_view(vcs_date),
        ) is None),
        r matches Err(e) ==> (e is InvalidDate || (e is MissingTemplateMarker && marker_span(
            template_raw@,
        ) is None)),
        crate::page_metadata::last_modified_of(
            metadata_raw.publish_date@,
            crate::page_metadata::opt_view(vcs_date),
        ) is Some && marker_span(template_raw@) is Some ==> r is Ok,
        r matches Ok(out) ==> crate::page_metadata::is_enriched(
            out.1,
            metadata_raw,
            content@,
            file_name@,
            default_cover_image@,
            crate::page_metadata::opt_view(vcs_date),
        ) && exists|year: i32| rendered_page(template_raw@, out.1, content@, year) == Some(out.0@),
{
    let metadata = match crate::page_metadata::PageMetadata::new(
        metadata_raw,
        content.as_str(),
        file_name,
        default_cover_image,
        vcs_date,
    ) {
        Ok(m) => m,
        Err(e) => {
            return Err(e);
        },
    };
    let year = crate::dates::current_year();
    match render_page_for_year(template_raw, &metadata, content.as_str(), year) {
        Some(page) => {
            assert(rendered_page(template_raw@, metadata, content@, year) == Some(page@));
            Ok((page, metadata))
        },
        None => Err(crate::error::GeneretoError::MissingTemplateMarker),
    }
}

} // verus!
