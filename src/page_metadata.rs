use vstd::prelude::*;

use crate::markdown::{
    inline_events, inline_events_of, links_removed_of, plain_text, plain_text_of_events,
    remove_links,
};
use crate::parser::{
    code_after, heading_anchor, heading_text, heading_text_vec, is_fence_exec, is_heading,
    is_heading_exec,
};
use crate::text::{
    before_last, before_last_vec, chars_of, contains, contains_exec, decimal, decimal_vec,
    drop_leading_vec, is_ws, is_ws_char, lines, next_line, push_all, push_str, starts_with,
    starts_with_exec, string_of, subvec, trim, trim_start, trim_start_vec, trim_vec,
};

verus! {

/// The longest description derived from a page's content, in characters.
pub const DESCRIPTION_LENGTH: usize = 150;

/// Words read per minute.
pub const AVERAGE_READING_SPEED: usize = 238;

/// Marks a page whose content is unfinished.
pub open spec fn todo_marker() -> Seq<char> {
    "$GENERETO{TODO"@
}

/// Whether `page_content` holds the unfinished-work marker.
pub fn contains_todos(page_content: &str) -> (r: bool)
    ensures
        r == contains(page_content@, todo_marker()),
{
    let v = chars_of(page_content);
    let marker = chars_of("$GENERETO{TODO");
    contains_exec(&v, &marker)
}

/// Whether `c` has the Unicode `Alphabetic` property.
pub uninterp spec fn is_alphabetic(c: char) -> bool;

/// Relies on `char::is_alphabetic`, which depends on the character alone.
#[verifier::external_body]
fn char_is_alphabetic(c: char) -> (r: bool)
    ensures
        r == is_alphabetic(c),
{
    c.is_alphabetic()
}

/// A left-to-right scan of `s` for words: the words with a letter completed so far,
/// whether a word is open, and whether the open word has a letter.
pub open spec fn word_scan(s: Seq<char>) -> (nat, bool, bool)
    decreases s.len(),
{
    if s.len() == 0 {
        (0, false, false)
    } else {
        let p = word_scan(s.drop_last());
        let c = s.last();
        if is_ws(c) {
            ((p.0 + if p.1 && p.2 {
                1nat
            } else {
                0nat
            }) as nat, false, false)
        } else {
            (p.0, true, p.2 || is_alphabetic(c))
        }
    }
}

/// The number of whitespace-separated words of `s` that hold at least one letter.
pub open spec fn word_count(s: Seq<char>) -> nat {
    let p = word_scan(s);
    (p.0 + if p.1 && p.2 {
        1nat
    } else {
        0nat
    }) as nat
}

/// Minutes to read `words` words, rounded up, at most `u16::MAX`.
pub open spec fn reading_minutes(words: nat) -> nat {
    let m = (words + 237) / 238;
    if m > 65535 {
        65535
    } else {
        m
    }
}

/// Minutes needed to read `page_content`, rounded up to the next whole minute.
pub fn estimate_reading_time(page_content: &str) -> (r: u16)
    ensures
        r == reading_minutes(word_count(page_content@)),
{
    let v = chars_of(page_content);
    let mut count: usize = 0;
    let mut in_word = false;
    let mut has_alpha = false;
    let mut i: usize = 0;
    while i < v.len()
        invariant
            i <= v.len(),
            count + (if in_word {
                1int
            } else {
                0int
            }) <= i,
            word_scan(v@.take(i as int)) == (count as nat, in_word, has_alpha),
        decreases v.len() - i,
    {
        assert(v@.take(i + 1).drop_last() == v@.take(i as int));
        let c = v[i];
        if is_ws_char(c) {
            if in_word && has_alpha {
                count += 1;
            }
            in_word = false;
            has_alpha = false;
        } else {
            in_word = true;
            has_alpha = has_alpha || char_is_alphabetic(c);
        }
        i += 1;
    }
    assert(v@.take(v.len() as int) == v@);
    if in_word && has_alpha {
        count += 1;
    }
    let minutes = count / AVERAGE_READING_SPEED + if count % AVERAGE_READING_SPEED == 0 {
        0
    } else {
        1
    };
    assert(minutes == (count + 237) / 238) by (nonlinear_arith)
        requires
            minutes == count / 238 + if count % 238 == 0 {
                0int
            } else {
                1int
            },
    ;
    if minutes > 65535 {
        65535
    } else {
        minutes as u16
    }
}

/// `s` cut to `limit` characters at the last space within them, followed by `...`;
/// `s` itself when it has at most `limit` characters.
pub open spec fn truncated(s: Seq<char>, limit: nat) -> Seq<char> {
    if s.len() > limit {
        before_last(s.take(limit as int), ' ') + "..."@
    } else {
        s
    }
}

/// Shortens `article` to at most `limit` characters, cutting at a word boundary and
/// marking the cut with an ellipsis.
pub fn truncate_text(article: &str, limit: usize) -> (r: String)
    ensures
        r@ == truncated(article@, limit as nat),
        article@.len() <= limit ==> r@ == article@,
        article@.len() > limit ==> exists|k: int|
            #![trigger article@.take(k)]
            0 <= k <= limit && r@ == article@.take(k) + "..."@ && (k == limit || article@[k]
                == ' '),
{
    let v = chars_of(article);
    if v.len() > limit {
        let head = subvec(&v, 0, limit);
        let mut cut = before_last_vec(&head, ' ');
        let ghost k: int = match crate::text::rfind_char(head@, ' ') {
            Some(i) => i,
            None => limit as int,
        };
        proof {
            lemma_rfind_char_found(head@, ' ');
            assert(cut@ == article@.take(k));
            assert(k == limit || article@[k] == ' ');
        }
        push_str(&mut cut, "...");
        let r = string_of(&cut);
        assert(0 <= k <= limit && r@ == article@.take(k) + "..."@ && (k == limit || article@[k]
            == ' '));
        r
    } else {
        string_of(&v)
    }
}

proof fn lemma_rfind_char_found(s: Seq<char>, c: char)
    ensures
        crate::text::rfind_char(s, c) matches Some(i) ==> 0 <= i < s.len() && s[i] == c,
    decreases s.len(),
{
    if s.len() > 0 && s.last() != c {
        lemma_rfind_char_found(s.drop_last(), c);
    }
}

/// The text from which a description is derived: lines are taken in order, headings
/// dropped, links reduced to their text and a line break added after each, until the
/// text reaches `limit` characters.
pub open spec fn description_buffer(ls: Seq<Seq<char>>, buff: Seq<char>, limit: nat) -> Seq<
    char,
>
    decreases ls.len(),
{
    if ls.len() == 0 {
        buff
    } else {
        let line = ls[0];
        let b1 = if starts_with(trim(line), "#"@) {
            buff
        } else {
            buff + line
        };
        let b2 = links_removed_of(b1) + seq!['\n'];
        if b2.len() >= limit {
            b2
        } else {
            description_buffer(ls.drop_first(), b2, limit)
        }
    }
}

/// The description derived from `article`: the plain text of its first lines, trimmed and
/// truncated to `limit` characters.
pub open spec fn description_of(article: Seq<char>, limit: nat) -> Seq<char> {
    truncated(
        trim(plain_text(inline_events_of(description_buffer(lines(article), Seq::empty(), limit)))),
        limit,
    )
}

/// Derives a plain-text description of at most `limit` characters (plus an ellipsis) from
/// the start of `article`.
pub fn get_description(article: &str, limit: usize) -> (r: String)
    ensures
        r@ == description_of(article@, limit as nat),
{
    let v = chars_of(article);
    let n = v.len();
    let mut buff: Vec<char> = Vec::new();
    let mut pos: usize = 0;
    let hash = chars_of("#");
    assert(v@.subrange(0, n as int) == v@);
    while pos < n
        invariant
            pos <= n == v.len(),
            v@ == article@,
            hash@ == "#"@,
            description_buffer(lines(v@), Seq::empty(), limit as nat) == description_buffer(
                lines(v@.subrange(pos as int, n as int)),
                buff@,
                limit as nat,
            ),
        decreases n - pos,
    {
        let (line, next) = next_line(&v, pos);
        let ghost ls = lines(v@.subrange(pos as int, n as int));
        assert(ls[0] == line@);
        assert(ls.drop_first() == lines(v@.subrange(next as int, n as int)));
        let ghost old_buff = buff@;
        let t = trim_vec(&line);
        if !starts_with_exec(&t, &hash) {
            push_all(&mut buff, &line);
        }
        let joined = string_of(&buff);
        let ghost b1 = buff@;
        assert(b1 == if starts_with(trim(line@), "#"@) {
            old_buff
        } else {
            old_buff + line@
        });
        let unlinked = remove_links(joined.as_str());
        buff = chars_of(unlinked.as_str());
        buff.push('\n');
        assert(buff@ == links_removed_of(b1) + seq!['\n']);
        assert(description_buffer(ls, old_buff, limit as nat) == if buff@.len() >= limit {
            buff@
        } else {
            description_buffer(ls.drop_first(), buff@, limit as nat)
        });
        pos = next;
        if buff.len() >= limit {
            assert(description_buffer(lines(v@), Seq::empty(), limit as nat) == buff@);
            return finish_description(&buff, limit);
        }
    }
    assert(v@.subrange(n as int, n as int) == Seq::<char>::empty());
    assert(lines(v@.subrange(n as int, n as int)) == Seq::<Seq<char>>::empty());
    finish_description(&buff, limit)
}

fn finish_description(buff: &Vec<char>, limit: usize) -> (r: String)
    ensures
        r@ == truncated(trim(plain_text(inline_events_of(buff@))), limit as nat),
{
    let text = string_of(buff);
    let events = inline_events(text.as_str());
    let plain = plain_text_of_events(&events);
    let trimmed = trim_vec(&plain);
    let s = string_of(&trimmed);
    truncate_text(s.as_str(), limit)
}

/// Cuts `input` before the last occurrence of `character`; returns it whole when
/// `character` does not occur.
pub fn remove_after_last_character(input: &str, character: char) -> (r: String)
    ensures
        r@ == before_last(input@, character),
{
    let v = chars_of(input);
    string_of(&before_last_vec(&v, character))
}

/// The nesting depth of a heading line: the length of its run of `#`.
pub open spec fn heading_depth(line: Seq<char>) -> nat {
    crate::text::leading_run(trim_start(line), '#')
}

/// The list item of a heading, linking to its anchor id.
pub open spec fn toc_entry(line: Seq<char>) -> Seq<char> {
    "<li><a href=\"#"@ + heading_anchor(line) + "\" class=\"table_of_contents-indent-"@ + decimal(
        heading_depth(line),
    ) + "\">"@ + trim(heading_text(line)) + "</a>"@
}

/// `k` further list closings.
pub open spec fn closings(k: nat) -> Seq<char>
    decreases k,
{
    if k == 0 {
        Seq::empty()
    } else {
        closings((k - 1) as nat) + "</ul>\n"@
    }
}

/// What separates an entry at depth `cur` from the next one at depth `depth`: the item
/// is closed at equal depth, a list opened when going deeper, and one list closed for
/// each level when going up.
pub open spec fn toc_step(cur: nat, depth: nat) -> Seq<char> {
    if cur > depth {
        "\n</ul>\n"@ + closings((cur - depth - 1) as nat)
    } else if cur < depth {
        "\n<ul>\n"@
    } else {
        "</li>\n"@
    }
}

/// The entries of the headings among `ls` that lie outside code blocks, starting at
/// depth `cur`, and the depth of the last one.
pub open spec fn toc_walk(ls: Seq<Seq<char>>, in_code: bool, cur: nat) -> (Seq<char>, nat)
    decreases ls.len(),
{
    if ls.len() == 0 {
        (Seq::empty(), cur)
    } else {
        let line = ls[0];
        let code = code_after(line, in_code);
        if is_heading(line) && !code {
            let rest = toc_walk(ls.drop_first(), code, heading_depth(line));
            (toc_step(cur, heading_depth(line)) + toc_entry(line) + rest.0, rest.1)
        } else {
            toc_walk(ls.drop_first(), code, cur)
        }
    }
}

/// The table of contents of `markdown` as an HTML list. The walk starts at depth 2, so
/// that the page title is not listed; the separator before the first entry is dropped,
/// and lists still open at the end are closed.
pub open spec fn table_of_contents(markdown: Seq<char>) -> Seq<char> {
    let w = toc_walk(lines(markdown), false, 2);
    let body = w.0 + closings(
        if w.1 > 2 {
            (w.1 - 2) as nat
        } else {
            0
        },
    );
    let cut = if body.len() < 6 {
        body.len() as int
    } else {
        6
    };
    "<ul class=\"table_of_contents\">\n"@ + body.subrange(cut, body.len() as int) + "</ul>"@
}

fn push_closings(out: &mut Vec<char>, k: usize)
    ensures
        final(out)@ == old(out)@ + closings(k as nat),
{
    let mut i: usize = 0;
    while i < k
        invariant
            i <= k,
            out@ == old(out)@ + closings(i as nat),
        decreases k - i,
    {
        push_str(out, "</ul>\n");
        i += 1;
    }
}

/// Builds the table of contents of `markdown` (see `table_of_contents`).
pub fn generate_table_of_contents(markdown: &str) -> (r: String)
    ensures
        r@ == table_of_contents(markdown@),
{
    let v = chars_of(markdown);
    let n = v.len();
    let mut toc: Vec<char> = Vec::new();
    let mut in_code = false;
    let mut cur: usize = 2;
    let mut pos: usize = 0;
    assert(v@.subrange(0, n as int) == v@);
    while pos < n
        invariant
            pos <= n == v.len(),
            v@ == markdown@,
            ({
                let w = toc_walk(lines(v@.subrange(pos as int, n as int)), in_code, cur as nat);
                toc_walk(lines(v@), false, 2) == (toc@ + w.0, w.1)
            }),
        decreases n - pos,
    {
        let (line, next) = next_line(&v, pos);
        let ghost ls = lines(v@.subrange(pos as int, n as int));
        assert(ls[0] == line@);
        assert(ls.drop_first() == lines(v@.subrange(next as int, n as int)));
        let ghost old_toc = toc@;
        if is_fence_exec(&line) {
            in_code = !in_code;
        }
        if is_heading_exec(&line) && !in_code {
            let start = trim_start_vec(&line);
            let (_, depth) = drop_leading_vec(&start, '#');
            if cur > depth {
                push_str(&mut toc, "\n</ul>\n");
                push_closings(&mut toc, cur - depth - 1);
            } else if cur < depth {
                push_str(&mut toc, "\n<ul>\n");
            } else {
                push_str(&mut toc, "</li>\n");
            }
            assert(toc@ == old_toc + toc_step(cur as nat, depth as nat));
            let text = heading_text_vec(&line);
            let title = trim_vec(&text);
            let anchor = crate::parser::anchor_vec(&text);
            push_str(&mut toc, "<li><a href=\"#");
            push_all(&mut toc, &anchor);
            push_str(&mut toc, "\" class=\"table_of_contents-indent-");
            push_all(&mut toc, &decimal_vec(depth));
            push_str(&mut toc, "\">");
            push_all(&mut toc, &title);
            push_str(&mut toc, "</a>");
            assert(toc@ == old_toc + toc_step(cur as nat, depth as nat) + toc_entry(line@));
            cur = depth;
        }
        pos = next;
    }
    assert(v@.subrange(n as int, n as int) == Seq::<char>::empty());
    assert(toc@ + Seq::<char>::empty() == toc@);
    if cur > 2 {
        push_closings(&mut toc, cur - 2);
    } else {
        push_closings(&mut toc, 0);
    }
    let cut: usize = if toc.len() < 6 {
        toc.len()
    } else {
        6
    };
    let mut out = chars_of("<ul class=\"table_of_contents\">\n");
    push_all(&mut out, &subvec(&toc, cut, toc.len()));
    push_str(&mut out, "</ul>");
    string_of(&out)
}

/// The metadata block of a page, as written by its author.
#[derive(Clone, Debug)]
pub struct PageMetadataRaw {
    pub title: String,
    /// `year-month-day`, or empty.
    pub publish_date: String,
    pub is_draft: bool,
    pub keywords: String,
    pub show_table_of_contents: bool,
    /// Whether a `# title` heading is put above the content.
    pub add_title: bool,
    /// When absent, one is derived from the content.
    pub description: Option<String>,
    pub cover_image: Option<String>,
    /// An external link for the page.
    pub url: Option<String>,
    /// A template to use for this page instead of the shared one.
    pub template: Option<String>,
    /// Fields the schema does not name, as key and value, in the order given.
    pub custom_metadata: Vec<(String, String)>,
}

/// Everything a page needs for rendering, derived from its raw metadata and content.
#[derive(Clone, Debug)]
pub struct PageMetadata {
    pub title: String,
    pub publish_date: String,
    pub keywords: String,
    /// Reading time in whole minutes, in decimal.
    pub reading_time_mins: String,
    pub description: String,
    /// The name of the output file: the source's name with `.md` turned into `.html`.
    pub file_name: String,
    /// An HTML list, or empty.
    pub table_of_contents: String,
    pub last_modified_date: String,
    pub cover_image: String,
    pub is_draft: bool,
    pub add_title: bool,
    pub url: Option<String>,
    pub custom_metadata: Vec<(String, String)>,
}

/// Pages are equal exactly when their publish dates are.
impl PartialEq for PageMetadata {
    fn eq(&self, other: &PageMetadata) -> (r: bool) {
        self.publish_date == other.publish_date
    }
}

impl vstd::std_specs::cmp::PartialEqSpecImpl for PageMetadata {
    open spec fn obeys_eq_spec() -> bool {
        true
    }

    open spec fn eq_spec(&self, other: &PageMetadata) -> bool {
        self.publish_date@ == other.publish_date@
    }
}

/// Pages are ordered by publish date, most recent first.
impl PartialOrd for PageMetadata {
    fn partial_cmp(&self, other: &PageMetadata) -> (r: Option<core::cmp::Ordering>) {
        let mine = chars_of(self.publish_date.as_str());
        let theirs = chars_of(other.publish_date.as_str());
        if crate::blog::text_lt_exec(&theirs, &mine) {
            Some(core::cmp::Ordering::Less)
        } else if crate::blog::text_lt_exec(&mine, &theirs) {
            Some(core::cmp::Ordering::Greater)
        } else {
            proof {
                lemma_text_lt_total(mine@, theirs@);
            }
            Some(core::cmp::Ordering::Equal)
        }
    }
}

impl vstd::std_specs::cmp::PartialOrdSpecImpl for PageMetadata {
    open spec fn obeys_partial_cmp_spec() -> bool {
        true
    }

    open spec fn partial_cmp_spec(&self, other: &PageMetadata) -> Option<core::cmp::Ordering> {
        if crate::blog::text_lt(other.publish_date@, self.publish_date@) {
            Some(core::cmp::Ordering::Less)
        } else if self.publish_date@ == other.publish_date@ {
            Some(core::cmp::Ordering::Equal)
        } else {
            Some(core::cmp::Ordering::Greater)
        }
    }
}

proof fn lemma_text_lt_total(a: Seq<char>, b: Seq<char>)
    ensures
        crate::blog::text_lt(a, b) || crate::blog::text_lt(b, a) || a == b,
    decreases a.len(),
{
    if a.len() > 0 && b.len() > 0 && a[0] == b[0] {
        lemma_text_lt_total(a.drop_first(), b.drop_first());
        if a.drop_first() == b.drop_first() {
            assert(a == seq![a[0]] + a.drop_first());
            assert(b == seq![b[0]] + b.drop_first());
        }
    }
}

pub open spec fn opt_view(o: Option<String>) -> Option<Seq<char>> {
    match o {
        Some(s) => Some(s@),
        None => None,
    }
}

/// A character that may follow the first letter of a URL scheme.
pub open spec fn is_scheme_char(c: char) -> bool {
    crate::text::is_ascii_alnum(c) || c == '+' || c == '-' || c == '.'
}

/// Whether `c` begins with a URL scheme marker: a letter, then letters, digits, `+`, `-` or
/// `.`, then `://`.
pub open spec fn has_url_scheme(c: Seq<char>) -> bool {
    match crate::text::find_spec(c, "://"@, 0) {
        Some(k) => k > 0 && (('a' <= c[0] && c[0] <= 'z') || ('A' <= c[0] && c[0] <= 'Z'))
            && forall|i: int| 1 <= i < k ==> is_scheme_char(#[trigger] c[i]),
        None => false,
    }
}

/// Whether `c` begins with a URL scheme marker (see `has_url_scheme`).
pub fn has_url_scheme_exec(c: &Vec<char>) -> (r: bool)
    ensures
        r == has_url_scheme(c@),
{
    let marker = chars_of("://");
    match crate::text::find_from(c, &marker, 0) {
        None => false,
        Some(k) => {
            if k == 0 || !(('a' <= c[0] && c[0] <= 'z') || ('A' <= c[0] && c[0] <= 'Z')) {
                return false;
            }
            let mut i: usize = 1;
            while i < k
                invariant
                    1 <= i <= k <= c.len(),
                    crate::text::find_spec(c@, "://"@, 0) == Some(k as int),
                    forall|q: int| 1 <= q < i ==> is_scheme_char(#[trigger] c@[q]),
                decreases k - i,
            {
                let ch = c[i];
                if !(('a' <= ch && ch <= 'z') || ('A' <= ch && ch <= 'Z') || ('0' <= ch && ch <= '9')
                    || ch == '+' || ch == '-' || ch == '.') {
                    assert(!is_scheme_char(c@[i as int]));
                    return false;
                }
                i += 1;
            }
            true
        },
    }
}

/// The cover image of a page: an empty or absent one gives `default`, a URL with a scheme
/// is kept, and any other path lies in the folder named after the output file without `.html`.
pub open spec fn cover_image_of(
    default: Seq<char>,
    page: Option<Seq<char>>,
    file_name: Seq<char>,
) -> Seq<char> {
    match page {
        Some(c) => if c.len() == 0 {
            default
        } else if has_url_scheme(c) {
            c
        } else {
            crate::text::replace_all(file_name, ".html"@, Seq::empty()) + "/"@ + c
        },
        None => default,
    }
}

/// The last-modified date of a page published on `publish` whose history gives `vcs`
/// (absent when no history could be read): the history's date, or the publish date where
/// there is none or where it is earlier. `None` when a date that is present is not a
/// calendar date.
pub open spec fn last_modified_of(publish: Seq<char>, vcs: Option<Seq<char>>) -> Option<
    Seq<char>,
> {
    let lm = match vcs {
        Some(d) => d,
        None => publish,
    };
    if (publish.len() > 0 && crate::dates::ymd_of(publish) is None) || (lm.len() > 0
        && crate::dates::ymd_of(lm) is None) {
        None
    } else if lm.len() == 0 {
        Some(publish)
    } else {
        let pd = if publish.len() == 0 {
            lm
        } else {
            publish
        };
        if crate::dates::date_before(
            crate::dates::ymd_of(lm)->Some_0,
            crate::dates::ymd_of(pd)->Some_0,
        ) {
            Some(pd)
        } else {
            Some(lm)
        }
    }
}

/// Reconciles the date from the page's history with its publish date (see `last_modified_of`).
pub fn get_last_modified_date(publish_date: &str, vcs_date: Option<String>) -> (r: Result<
    String,
    crate::error::GeneretoError,
>)
    ensures
        r matches Ok(d) ==> last_modified_of(publish_date@, opt_view(vcs_date)) == Some(d@),
        r matches Err(e) ==> last_modified_of(publish_date@, opt_view(vcs_date)) is None
            && e is InvalidDate,
{
    let publish = chars_of(publish_date);
    let lm = match vcs_date {
        Some(d) => chars_of(d.as_str()),
        None => chars_of(publish_date),
    };
    let publish_ymd = crate::dates::parse_ymd(publish_date);
    let lm_text = string_of(&lm);
    let lm_ymd = crate::dates::parse_ymd(lm_text.as_str());
    if publish.len() > 0 && publish_ymd.is_none() {
        return Err(crate::error::GeneretoError::InvalidDate(string_of(&publish)));
    }
    if lm.len() > 0 && lm_ymd.is_none() {
        return Err(crate::error::GeneretoError::InvalidDate(lm_text));
    }
    if lm.len() == 0 {
        return Ok(string_of(&publish));
    }
    let (pd, pd_ymd) = if publish.len() == 0 {
        (lm_text.clone(), lm_ymd)
    } else {
        (string_of(&publish), publish_ymd)
    };
    assert(pd@ == lm@ || pd@ == publish@);
    match (lm_ymd, pd_ymd) {
        (Some(a), Some(b)) => {
            if crate::dates::date_before_exec(a, b) {
                Ok(pd)
            } else {
                Ok(lm_text)
            }
        },
        _ => Ok(lm_text),
    }
}

/// Whether a page is a draft: declared so, or holding the unfinished-work marker.
pub open spec fn draft_of(declared: bool, content: Seq<char>) -> bool {
    declared || contains(content, todo_marker())
}

/// The title shown for a page: drafts get the prefix `[DRAFT] `.
pub open spec fn title_of(title: Seq<char>, is_draft: bool) -> Seq<char> {
    if is_draft {
        "[DRAFT] "@ + title
    } else {
        title
    }
}

/// Whether `name` is the name of a markdown file: it ends with `.md` after a non-empty stem.
pub open spec fn is_markdown_name(name: Seq<char>) -> bool {
    name.len() > 3 && name.subrange(name.len() - 3, name.len() as int) == ".md"@
}

/// The output file name for the source file named `file_name`: a markdown file gets the
/// extension `.html` in place of `.md`, and any other name is kept.
pub open spec fn output_name_of(file_name: Seq<char>) -> Seq<char> {
    if is_markdown_name(file_name) {
        file_name.take(file_name.len() - 3) + ".html"@
    } else {
        file_name
    }
}

/// The output file name for the source file named `file_name` (see `output_name_of`).
pub fn output_file_name(file_name: &str) -> (r: String)
    ensures
        r@ == output_name_of(file_name@),
{
    let name = chars_of(file_name);
    let md = chars_of(".md");
    proof {
        reveal_strlit(".md");
    }
    if name.len() > 3 && crate::text::occurs_at_exec(&name, &md, name.len() - 3) {
        let mut out = subvec(&name, 0, name.len() - 3);
        push_str(&mut out, ".html");
        assert(name@.subrange(0, name.len() - 3) == name@.take(name.len() - 3));
        string_of(&out)
    } else {
        proof {
            if name.len() > 3 {
                assert(!crate::text::occurs_at(name@, md@, name.len() - 3));
            }
        }
        string_of(&name)
    }
}

/// What `PageMetadata::new` derives from its inputs, field by field.
pub open spec fn is_enriched(
    m: PageMetadata,
    raw: PageMetadataRaw,
    content: Seq<char>,
    file_name: Seq<char>,
    default_cover_image: Seq<char>,
    vcs_date: Option<Seq<char>>,
) -> bool {
    &&& m.file_name@ == output_name_of(file_name)
    &&& m.is_draft == draft_of(raw.is_draft, content)
    &&& m.title@ == title_of(raw.title@, m.is_draft)
    &&& m.publish_date@ == raw.publish_date@
    &&& m.keywords@ == raw.keywords@
    &&& m.reading_time_mins@ == decimal(reading_minutes(word_count(content)))
    &&& m.description@ == match raw.description {
        Some(d) => d@,
        None => description_of(content, DESCRIPTION_LENGTH as nat),
    }
    &&& m.table_of_contents@ == if raw.show_table_of_contents {
        table_of_contents(content)
    } else {
        Seq::empty()
    }
    &&& last_modified_of(raw.publish_date@, vcs_date) == Some(m.last_modified_date@)
    &&& m.cover_image@ == cover_image_of(
        default_cover_image,
        opt_view(raw.cover_image),
        m.file_name@,
    )
    &&& m.add_title == raw.add_title
    &&& m.url == raw.url
    &&& m.custom_metadata@ == raw.custom_metadata@
}

impl PageMetadata {
    /// Resolves the cover image of the page whose output file is `file_name`.
    pub fn get_cover_image(
        default_cover_image: &str,
        page_cover_image: Option<&String>,
        file_name: &str,
    ) -> (r: String)
        ensures
            r@ == cover_image_of(
                default_cover_image@,
                match page_cover_image {
                    Some(c) => Some(c@),
                    None => None,
                },
                file_name@,
            ),
    {
        match page_cover_image {
            Some(cover_image) => {
                let c = chars_of(cover_image.as_str());
                if c.len() == 0 {
                    return string_of(&chars_of(default_cover_image));
                }
                if has_url_scheme_exec(&c) {
                    return string_of(&c);
                }
                let name = chars_of(file_name);
                let empty: Vec<char> = Vec::new();
                let mut out = crate::text::replace_all_vec(&name, &chars_of(".html"), &empty);
                push_str(&mut out, "/");
                push_all(&mut out, &c);
                string_of(&out)
            },
            None => string_of(&chars_of(default_cover_image)),
        }
    }

    /// Derives the metadata of the page whose source file is named `file_name`, from its raw
    /// metadata and its content with heading ids. `vcs_date` is the date of the source's
    /// last change in version control, absent when it could not be read. Fails with
    /// `InvalidDate` when a date that is present is not a calendar date.
    pub fn new(
        page_metadata: PageMetadataRaw,
        page_content: &str,
        file_name: &str,
        default_cover_image: &str,
        vcs_date: Option<String>,
    ) -> (r: Result<Self, crate::error::GeneretoError>)
        ensures
            r is Ok <==> last_modified_of(page_metadata.publish_date@, opt_view(vcs_date)) is Some,
            r matches Ok(m) ==> is_enriched(
                m,
                page_metadata,
                page_content@,
                file_name@,
                default_cover_image@,
                opt_view(vcs_date),
            ),
            r matches Err(e) ==> e is InvalidDate,
    {
        let ghost raw = page_metadata;
        let ghost vcs = opt_view(vcs_date);
        let out_name = output_file_name(file_name);
        let last_modified_date = match get_last_modified_date(
            page_metadata.publish_date.as_str(),
            vcs_date,
        ) {
            Ok(d) => d,
            Err(e) => {
                return Err(e);
            },
        };
        let table_of_contents = if page_metadata.show_table_of_contents {
            generate_table_of_contents(page_content)
        } else {
            String::new()
        };
        let is_draft = page_metadata.is_draft || contains_todos(page_content);
        let title = if is_draft {
            let mut t = chars_of("[DRAFT] ");
            push_str(&mut t, page_metadata.title.as_str());
            string_of(&t)
        } else {
            page_metadata.title
        };
        let minutes = estimate_reading_time(page_content);
        let reading_time_mins = string_of(&decimal_vec(minutes as usize));
        let description = match page_metadata.description {
            Some(d) => d,
            None => get_description(page_content, DESCRIPTION_LENGTH),
        };
        let cover_image = Self::get_cover_image(
            default_cover_image,
            page_metadata.cover_image.as_ref(),
            out_name.as_str(),
        );
        Ok(PageMetadata {
            title,
            publish_date: page_metadata.publish_date,
            keywords: page_metadata.keywords,
            reading_time_mins,
            description,
            file_name: out_name,
            table_of_contents,
            last_modified_date,
            cover_image,
            is_draft,
            add_title: page_metadata.add_title,
            url: page_metadata.url,
            custom_metadata: page_metadata.custom_metadata,
        })
    }
}

/// An integer in decimal, with a leading `-` when negative.
pub open spec fn int_text(n: int) -> Seq<char> {
    if n < 0 {
        "-"@ + decimal((-n) as nat)
    } else {
        decimal(n as nat)
    }
}

fn int_text_vec(n: i32) -> (r: Vec<char>)
    ensures
        r@ == int_text(n as int),
{
    if n < 0 {
        let a: u32 = (-(n as i64)) as u32;
        let mut r = chars_of("-");
        push_all(&mut r, &decimal_vec(a as usize));
        r
    } else {
        decimal_vec(n as u32 as usize)
    }
}

/// The placeholder of the field `key`: `$GENERETO['key']`.
pub open spec fn placeholder(key: Seq<char>) -> Seq<char> {
    "$GENERETO['"@ + key + "']"@
}

/// The placeholders of the custom fields `cs` and their values.
pub open spec fn custom_variables(cs: Seq<(String, String)>) -> Seq<(Seq<char>, Seq<char>)> {
    cs.map_values(|kv: (String, String)| (placeholder(kv.0@), kv.1@))
}

/// The placeholders of a page and their values, in the order of substitution; `year` is the
/// current year.
pub open spec fn variables_of(m: PageMetadata, year: i32) -> Seq<(Seq<char>, Seq<char>)> {
    seq![
        (placeholder("title"@), trim(m.title@)),
        (placeholder("publish_date"@), m.publish_date@),
        (placeholder("last_modified_date"@), m.last_modified_date@),
        (placeholder("read_time_minutes"@), m.reading_time_mins@),
        (placeholder("keywords"@), trim(m.keywords@)),
        (placeholder("description"@), trim(m.description@)),
        (placeholder("file_name"@), m.file_name@),
        (placeholder("table_of_contents"@), m.table_of_contents@),
        (placeholder("cover_image"@), m.cover_image@),
        (placeholder("url"@), match m.url {
            Some(u) => u@,
            None => Seq::empty(),
        }),
        (placeholder("current_year"@), int_text(year as int)),
    ] + custom_variables(m.custom_metadata@)
}

/// `page` with the variables `vars` substituted in order, each at all its occurrences.
pub open spec fn substituted(vars: Seq<(Seq<char>, Seq<char>)>, page: Seq<char>) -> Seq<char>
    decreases vars.len(),
{
    if vars.len() == 0 {
        page
    } else {
        substituted(vars.drop_first(), crate::text::replace_all(page, vars[0].0, vars[0].1))
    }
}

pub open spec fn pairs_view(v: Seq<(String, String)>) -> Seq<(Seq<char>, Seq<char>)> {
    v.map_values(|kv: (String, String)| (kv.0@, kv.1@))
}

fn push_variable(vars: &mut Vec<(String, String)>, key: &str, value: &Vec<char>)
    ensures
        pairs_view(final(vars)@) == pairs_view(old(vars)@).push((placeholder(key@), value@)),
{
    let mut k = chars_of("$GENERETO['");
    push_str(&mut k, key);
    push_str(&mut k, "']");
    let ghost before = vars@;
    vars.push((string_of(&k), string_of(value)));
    assert(pairs_view(vars@) == pairs_view(before).push((placeholder(key@), value@)));
}

impl PageMetadata {
    /// The placeholders of this page and their values, with `year` as the current year.
    pub fn get_variables_for_year(&self, year: i32) -> (r: Vec<(String, String)>)
        ensures
            pairs_view(r@) == variables_of(*self, year),
    {
        let mut vars: Vec<(String, String)> = Vec::new();
        push_variable(&mut vars, "title", &trim_vec(&chars_of(self.title.as_str())));
        push_variable(&mut vars, "publish_date", &chars_of(self.publish_date.as_str()));
        push_variable(&mut vars, "last_modified_date", &chars_of(self.last_modified_date.as_str()));
        push_variable(&mut vars, "read_time_minutes", &chars_of(self.reading_time_mins.as_str()));
        push_variable(&mut vars, "keywords", &trim_vec(&chars_of(self.keywords.as_str())));
        push_variable(&mut vars, "description", &trim_vec(&chars_of(self.description.as_str())));
        push_variable(&mut vars, "file_name", &chars_of(self.file_name.as_str()));
        push_variable(&mut vars, "table_of_contents", &chars_of(self.table_of_contents.as_str()));
        push_variable(&mut vars, "cover_image", &chars_of(self.cover_image.as_str()));
        let url = match &self.url {
            Some(u) => chars_of(u.as_str()),
            None => Vec::new(),
        };
        push_variable(&mut vars, "url", &url);
        push_variable(&mut vars, "current_year", &int_text_vec(year));
        let ghost fixed = pairs_view(vars@);
        let mut i: usize = 0;
        while i < self.custom_metadata.len()
            invariant
                i <= self.custom_metadata.len(),
                fixed.len() == 11,
                pairs_view(vars@) == fixed + custom_variables(self.custom_metadata@.take(i as int)),
            decreases self.custom_metadata.len() - i,
        {
            let (key, value) = &self.custom_metadata[i];
            let ghost before = vars@;
            push_variable(&mut vars, key.as_str(), &chars_of(value.as_str()));
            assert(custom_variables(self.custom_metadata@.take(i + 1)) == custom_variables(
                self.custom_metadata@.take(i as int),
            ).push((placeholder(key@), value@)));
            i += 1;
        }
        assert(self.custom_metadata@.take(self.custom_metadata.len() as int)
            == self.custom_metadata@);
        proof {
            reveal_strlit("title");
        }
        assert(pairs_view(vars@) =~= variables_of(*self, year));
        vars
    }

    /// The placeholders of this page and their values, with the year of the local date.
    pub fn get_variables(&self) -> (r: Vec<(String, String)>)
        ensures
            exists|year: i32| pairs_view(r@) == variables_of(*self, year),
    {
        self.get_variables_for_year(crate::dates::current_year())
    }

    /// Substitutes the placeholders of this page in `final_page`, with `year` as the
    /// current year.
    pub fn apply_for_year(&self, final_page: String, year: i32) -> (r: String)
        ensures
            r@ == substituted(variables_of(*self, year), final_page@),
    {
        let vars = self.get_variables_for_year(year);
        let mut page = chars_of(final_page.as_str());
        let mut i: usize = 0;
        assert(pairs_view(vars@).skip(0) == pairs_view(vars@));
        while i < vars.len()
            invariant
                i <= vars.len(),
                substituted(pairs_view(vars@), final_page@) == substituted(
                    pairs_view(vars@).skip(i as int),
                    page@,
                ),
            decreases vars.len() - i,
        {
            let (key, value) = &vars[i];
            assert(pairs_view(vars@).skip(i as int).drop_first() == pairs_view(vars@).skip(i + 1));
            page = crate::text::replace_all_vec(
                &page,
                &chars_of(key.as_str()),
                &chars_of(value.as_str()),
            );
            i += 1;
        }
        assert(pairs_view(vars@).skip(vars.len() as int) == Seq::<(Seq<char>, Seq<char>)>::empty());
        string_of(&page)
    }

    /// Substitutes the placeholders of this page in `final_page`, with the year of the
    /// local date.
    pub fn apply(&self, final_page: String) -> (r: String)
        ensures
            exists|year: i32| r@ == substituted(variables_of(*self, year), final_page@),
    {
        self.apply_for_year(final_page, crate::dates::current_year())
    }
}

} // verus!
