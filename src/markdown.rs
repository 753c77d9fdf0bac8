use vstd::prelude::*;

use pulldown_cmark::Event::{
    Code, DisplayMath, End, FootnoteReference, HardBreak, Html, InlineHtml, InlineMath, Rule,
    SoftBreak, Start, TaskListMarker, Text,
};
use pulldown_cmark::{Options, Parser};

verus! {

/// The HTML that the markdown text `s` renders to, with strikethrough, heading
/// attributes and tables enabled.
pub uninterp spec fn html_of(s: Seq<char>) -> Seq<char>;

/// The inline events of the markdown text `s`.
pub uninterp spec fn inline_events_of(s: Seq<char>) -> Seq<InlineEvent>;

/// `s` with each markdown link `[text](target)` replaced by its text.
pub uninterp spec fn links_removed_of(s: Seq<char>) -> Seq<char>;

/// An event of the markdown parser, with the text it carries.
pub enum InlineEvent {
    /// The start of an element.
    Start,
    /// The end of an element.
    End,
    Text(String),
    /// Inline code.
    Code(String),
    InlineMath(String),
    DisplayMath(String),
    /// A block of raw HTML.
    Html(String),
    /// Raw HTML inside a paragraph.
    InlineHtml(String),
    FootnoteReference(String),
    SoftBreak,
    HardBreak,
    /// A horizontal rule.
    Rule,
    /// A task list checkbox, and whether it is checked.
    TaskListMarker(bool),
}

/// The plain text that an event contributes to a description: text and inline code give
/// their characters, line breaks a line break, and every other event nothing.
pub open spec fn event_text(e: InlineEvent) -> Seq<char> {
    match e {
        InlineEvent::Text(t) => t@,
        InlineEvent::Code(t) => t@,
        InlineEvent::SoftBreak => seq!['\n'],
        InlineEvent::HardBreak => seq!['\n'],
        _ => Seq::empty(),
    }
}

/// The plain text of a run of events.
pub open spec fn plain_text(evs: Seq<InlineEvent>) -> Seq<char>
    decreases evs.len(),
{
    if evs.len() == 0 {
        Seq::empty()
    } else {
        plain_text(evs.drop_last()) + event_text(evs.last())
    }
}

/// Relies on pulldown-cmark's `Parser::new_ext` and `html::push_html`: the HTML of a
/// markdown text, which depends on the text alone.
#[verifier::external_body]
pub(crate) fn markdown_to_html(s: &str) -> (r: String)
    ensures
        r@ == html_of(s@),
{
    let mut options = Options::empty();
    options.insert(Options::ENABLE_STRIKETHROUGH);
    options.insert(Options::ENABLE_HEADING_ATTRIBUTES);
    options.insert(Options::ENABLE_TABLES);
    let mut html_output = String::new();
    pulldown_cmark::html::push_html(&mut html_output, Parser::new_ext(s, options));
    html_output
}

/// Relies on pulldown-cmark's `Parser::new`: the events of a markdown text, which depend
/// on the text alone.
#[verifier::external_body]
pub(crate) fn inline_events(s: &str) -> (r: Vec<InlineEvent>)
    ensures
        r@ == inline_events_of(s@),
{
    Parser::new(s).map(|e| match e {
        Start(_) => InlineEvent::Start,
        End(_) => InlineEvent::End,
        Text(t) => InlineEvent::Text(t.to_string()),
        Code(t) => InlineEvent::Code(t.to_string()),
        InlineMath(t) => InlineEvent::InlineMath(t.to_string()),
        DisplayMath(t) => InlineEvent::DisplayMath(t.to_string()),
        Html(t) => InlineEvent::Html(t.to_string()),
        InlineHtml(t) => InlineEvent::InlineHtml(t.to_string()),
        FootnoteReference(t) => InlineEvent::FootnoteReference(t.to_string()),
        SoftBreak => InlineEvent::SoftBreak,
        HardBreak => InlineEvent::HardBreak,
        Rule => InlineEvent::Rule,
        TaskListMarker(b) => InlineEvent::TaskListMarker(b),
    }).collect()
}

/// Relies on regex's `Regex::replace_all` with the pattern `\[([^)]*)\]\([^)]*\)` and
/// the replacement `$1`: every markdown link is replaced by its text.
#[verifier::external_body]
pub(crate) fn remove_links(buff: &str) -> (r: String)
    ensures
        r@ == links_removed_of(buff@),
{
    let re = regex::Regex::new(r"\[([^)]*)\]\([^)]*\)").unwrap();
    re.replace_all(buff, "$1").into_owned()
}

/// The plain text of the events `evs`.
pub fn plain_text_of_events(evs: &Vec<InlineEvent>) -> (r: Vec<char>)
    ensures
        r@ == plain_text(evs@),
{
    let mut out: Vec<char> = Vec::new();
    let mut i: usize = 0;
    while i < evs.len()
        invariant
            i <= evs.len(),
            out@ == plain_text(evs@.take(i as int)),
        decreases evs.len() - i,
    {
        assert(evs@.take(i + 1).drop_last() == evs@.take(i as int));
        match &evs[i] {
            InlineEvent::Text(t) => {
                crate::text::push_str(&mut out, t.as_str());
            },
            InlineEvent::Code(t) => {
                crate::text::push_str(&mut out, t.as_str());
            },
            InlineEvent::SoftBreak => {
                out.push('\n');
                assert(seq!['\n'] == Seq::<char>::empty().push('\n'));
            },
            InlineEvent::HardBreak => {
                out.push('\n');
                assert(seq!['\n'] == Seq::<char>::empty().push('\n'));
            },
            _ => {
                assert(out@ + Seq::<char>::empty() == out@);
            },
        }
        i += 1;
    }
    assert(evs@.take(evs.len() as int) == evs@);
    out
}

} // verus!
