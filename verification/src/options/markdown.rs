//! Markdown text: joining blocks, and turning a document into HTML.

use vstd::prelude::*;

verus! {

/// The parts of `parts` in their order, with `separator` between each two
/// neighbours and nowhere else.
pub open spec fn join(parts: Seq<Seq<char>>, separator: Seq<char>) -> Seq<char>
    decreases parts.len(),
{
    if parts.len() == 0 {
        Seq::empty()
    } else if parts.len() == 1 {
        parts[0]
    } else {
        join(parts.drop_last(), separator) + separator + parts.last()
    }
}

/// Joins `parts` with `separator` between neighbours.
pub fn join_lines(parts: &Vec<String>, separator: &str) -> (joined: String)
    ensures
        joined@ == join(parts.deep_view(), separator@),
{
    let mut joined = String::new();
    let mut i: usize = 0;
    while i < parts.len()
        invariant
            i <= parts.len(),
            joined@ == join(parts.deep_view().take(i as int), separator@),
        decreases parts.len() - i,
    {
        let ghost before = parts.deep_view().take(i as int);
        let ghost now = parts.deep_view().take(i + 1);
        if i > 0 {
            joined.append(separator);
        }
        joined.append(parts[i].as_str());
        proof {
            assert(now.drop_last() == before);
        }
        i += 1;
    }
    proof {
        assert(parts.deep_view().take(i as int) == parts.deep_view());
    }
    joined
}

/// The HTML that `pulldown_cmark` makes of a markdown document, with tables,
/// footnotes and heading attributes each switched on or off and every other
/// extension off.
pub uninterp spec fn markdown_html(
    markdown: Seq<char>,
    tables: bool,
    footnotes: bool,
    heading_attributes: bool,
) -> Seq<char>;

/// `pulldown_cmark::html::push_html` on a fresh string, fed by
/// `pulldown_cmark::Parser::new_ext` with exactly the named extensions
/// enabled. The result depends on the arguments alone; what it is, is left to
/// `pulldown_cmark`.
#[verifier::external_body]
pub(crate) fn render_markdown(
    markdown: &str,
    tables: bool,
    footnotes: bool,
    heading_attributes: bool,
) -> (html: String)
    ensures
        html@ == markdown_html(markdown@, tables, footnotes, heading_attributes),
{
    let mut options = pulldown_cmark::Options::empty();
    options.set(pulldown_cmark::Options::ENABLE_TABLES, tables);
    options.set(pulldown_cmark::Options::ENABLE_FOOTNOTES, footnotes);
    options.set(pulldown_cmark::Options::ENABLE_HEADING_ATTRIBUTES, heading_attributes);
    let mut html = String::new();
    pulldown_cmark::html::push_html(&mut html, pulldown_cmark::Parser::new_ext(markdown, options));
    html
}

} // verus!
