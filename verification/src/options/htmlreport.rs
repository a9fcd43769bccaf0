//! The report: named sections in a fixed order, each with the markdown
//! fragments gathered for it during a run, and the rendering of all of them
//! into one piece of HTML.

use crate::options::markdown::{join, join_lines, markdown_html, render_markdown};
use crate::options::sections::{section_fragments, SectionMap};
use vstd::prelude::*;

verus! {

/// A report as a mathematical value.
pub struct ReportView {
    /// The names of the sections that are rendered, in the order in which
    /// they are rendered.
    pub order: Seq<Seq<char>>,
    /// The fragments gathered so far, by section name.
    pub sections: Map<Seq<char>, Seq<Seq<char>>>,
}

/// The heading line of a section. The name may end in `{#slug}`, which the
/// renderer turns into the heading's `id`.
pub open spec fn heading_line(section: Seq<char>) -> Seq<char> {
    "## "@ + section + "\n"@
}

/// What stands in place of the fragments of a section that has none.
pub open spec fn placeholder() -> Seq<char> {
    "not found data.\n"@
}

impl ReportView {
    /// The fragments of `section`; none if the section has no entry.
    pub open spec fn fragments_of(self, section: Seq<char>) -> Seq<Seq<char>> {
        if self.sections.contains_key(section) {
            self.sections[section]
        } else {
            Seq::empty()
        }
    }

    /// The report after `fragments` were added to the end of `section`.
    pub open spec fn append(self, section: Seq<char>, fragments: Seq<Seq<char>>) -> ReportView {
        ReportView {
            order: self.order,
            sections: self.sections.insert(section, self.fragments_of(section) + fragments),
        }
    }

    /// The report after `section` was given `fragments` in place of what it
    /// held.
    pub open spec fn replace(self, section: Seq<char>, fragments: Seq<Seq<char>>) -> ReportView {
        ReportView { order: self.order, sections: self.sections.insert(section, fragments) }
    }

    /// Whether every section that is rendered has an entry.
    pub open spec fn complete(self) -> bool {
        forall|i: int|
            0 <= i < self.order.len() ==> self.sections.contains_key(#[trigger] self.order[i])
    }

    /// What is rendered below the heading of `section`: its fragments, one
    /// per line, or the placeholder if there are none.
    pub open spec fn body(self, section: Seq<char>) -> Seq<char> {
        if self.fragments_of(section).len() == 0 {
            placeholder()
        } else {
            join(self.fragments_of(section), "\n"@)
        }
    }

    /// Heading and body of each of the first `count` rendered sections, in
    /// their order.
    pub open spec fn blocks(self, count: nat) -> Seq<Seq<char>>
        decreases count,
    {
        if count == 0 || count > self.order.len() {
            Seq::empty()
        } else {
            let section = self.order[count - 1];
            self.blocks((count - 1) as nat).push(heading_line(section)).push(self.body(section))
        }
    }

    /// The markdown document of the whole report.
    pub open spec fn markdown(self) -> Seq<char> {
        join(self.blocks(self.order.len()), "\n"@)
    }

    /// The HTML of the whole report: its markdown document as rendered with
    /// tables, footnotes and heading attributes enabled.
    pub open spec fn html(self) -> Seq<char> {
        markdown_html(self.markdown(), true, true, true)
    }
}

/// The sections of every report, in the order in which they are rendered.
pub open spec fn registry() -> Seq<Seq<char>> {
    seq!["General Overview {#general_overview}"@, "Results Summary {#results_summary}"@]
}

/// The report before anything was added: every section of the registry has
/// an entry, and every entry is empty.
pub open spec fn initial_report() -> ReportView {
    ReportView {
        order: registry(),
        sections: Map::new(
            |section: Seq<char>| registry().contains(section),
            |section: Seq<char>| Seq::empty(),
        ),
    }
}

/// Collects the markdown of a report and renders it.
pub struct HtmlReporter {
    /// The names of the rendered sections, in rendering order.
    pub section_order: Vec<String>,
    /// The fragments gathered so far, by section name.
    pub md_datas: SectionMap,
}

impl View for HtmlReporter {
    type V = ReportView;

    open spec fn view(&self) -> ReportView {
        ReportView {
            order: self.section_order.deep_view(),
            sections: section_fragments(self.md_datas),
        }
    }
}

/// The section order of a new report, and an empty entry for each of its
/// sections.
fn get_init_md_data_map() -> (init: (Vec<String>, SectionMap))
    ensures
        init.0.deep_view() == registry(),
        section_fragments(init.1) == initial_report().sections,
{
    let mut ret = SectionMap::new();
    let mut section_order: Vec<String> = Vec::new();
    section_order.push(String::from_str("General Overview {#general_overview}"));
    section_order.push(String::from_str("Results Summary {#results_summary}"));
    let mut i: usize = 0;
    while i < section_order.len()
        invariant
            i <= section_order.len(),
            section_order.deep_view() == registry(),
            section_fragments(ret) == Map::new(
                |section: Seq<char>| registry().take(i as int).contains(section),
                |section: Seq<char>| Seq::<Seq<char>>::empty(),
            ),
        decreases section_order.len() - i,
    {
        let ghost before = section_fragments(ret);
        let section = section_order[i].clone();
        let fragments: Vec<String> = Vec::new();
        assert(fragments.deep_view() == Seq::<Seq<char>>::empty());
        ret.insert(section, fragments);
        proof {
            assert(section_fragments(ret) == before.insert(
                registry()[i as int],
                Seq::<Seq<char>>::empty(),
            ));
            let done = registry().take(i as int);
            let next = registry().take(i + 1);
            assert forall|name: Seq<char>| next.contains(name) <==> (done.contains(name) || name
                == registry()[i as int]) by {
                if name == registry()[i as int] {
                    assert(next[i as int] == name);
                }
            }
            assert(section_fragments(ret) =~= Map::new(
                |section: Seq<char>| next.contains(section),
                |section: Seq<char>| Seq::<Seq<char>>::empty(),
            ));
        }
        i += 1;
    }
    proof {
        assert(registry().take(i as int) == registry());
    }
    (section_order, ret)
}

impl HtmlReporter {
    /// A report with the sections of the registry and nothing in them.
    pub fn new() -> (reporter: HtmlReporter)
        ensures
            reporter@ == initial_report(),
            reporter@.complete(),
    {
        let (init_section_order, init_data) = get_init_md_data_map();
        HtmlReporter { section_order: init_section_order, md_datas: init_data }
    }

    /// The markdown document of the report: for each section of
    /// `section_order`, in that order, its heading and then its fragments or
    /// the placeholder. Entries of sections that are not in `section_order`
    /// are left out.
    pub fn markdown(&self) -> (md: String)
        ensures
            md@ == self@.markdown(),
    {
        let mut md_data: Vec<String> = Vec::new();
        let mut i: usize = 0;
        while i < self.section_order.len()
            invariant
                i <= self.section_order.len(),
                md_data.deep_view() == self@.blocks(i as nat),
            decreases self.section_order.len() - i,
        {
            let ghost before = md_data.deep_view();
            let section_name = &self.section_order[i];
            let mut heading = String::from_str("## ");
            heading.append(section_name.as_str());
            heading.append("\n");
            let body = match self.md_datas.get(section_name.as_str()) {
                Some(fragments) if !fragments.is_empty() => join_lines(fragments, "\n"),
                _ => String::from_str("not found data.\n"),
            };
            md_data.push(heading);
            md_data.push(body);
            assert(md_data.deep_view() == before.push(heading_line(section_name@)).push(
                self@.body(section_name@),
            ));
            i += 1;
        }
        join_lines(&md_data, "\n")
    }

    /// A copy of the fragments gathered for `section_name`; `None` if the
    /// section has no entry.
    pub fn fragments(&self, section_name: &str) -> (found: Option<Vec<String>>)
        ensures
            match found {
                Some(fragments) => self@.sections.contains_key(section_name@)
                    && fragments.deep_view() == self@.sections[section_name@],
                None => !self@.sections.contains_key(section_name@),
            },
    {
        match self.md_datas.get(section_name) {
            Some(fragments) => Some(fragments.clone()),
            None => None,
        }
    }

    /// Gives the section `section_name` the fragments `data` in place of
    /// those it holds, and returns those; `None` if the section had no entry.
    /// No other section changes, and neither does the section order.
    pub fn set_md_data(&mut self, section_name: String, data: Vec<String>) -> (replaced: Option<
        Vec<String>,
    >)
        ensures
            final(self).section_order == old(self).section_order,
            final(self)@ == old(self)@.replace(section_name@, data.deep_view()),
            match replaced {
                Some(previous) => old(self)@.sections.contains_key(section_name@)
                    && previous.deep_view() == old(self)@.sections[section_name@],
                None => !old(self)@.sections.contains_key(section_name@),
            },
            old(self)@.complete() ==> final(self)@.complete(),
    {
        self.md_datas.insert(section_name, data)
    }

    /// Renders the report to HTML.
    ///
    /// The result is the renderer's output for the markdown document of the
    /// report, with tables, footnotes and heading attributes enabled, so it
    /// depends on nothing but the section order and the fragments of the
    /// sections in it.
    pub fn create_html(self) -> (html: String)
        ensures
            html@ == self@.html(),
    {
        let md_str = self.markdown();
        render_markdown(md_str.as_str(), true, true, true)
    }
}

impl Clone for HtmlReporter {
    /// A second report with the same section order and the same fragments,
    /// which later additions to either one do not reach.
    fn clone(&self) -> (copy: Self)
        ensures
            copy@ == self@,
    {
        let section_order = self.section_order.clone();
        HtmlReporter { section_order, md_datas: self.md_datas.duplicate() }
    }
}

impl Default for HtmlReporter {
    fn default() -> (reporter: Self)
        ensures
            reporter@ == initial_report(),
            reporter@.complete(),
    {
        Self::new()
    }
}

/// Adds `data` to the end of the section `section_name` of `reporter`, in the
/// order given.
///
/// A section without an entry gets one, also when `data` is empty. That holds
/// for names outside `section_order` too: their fragments are kept, and never
/// rendered. No other section changes, and neither does the section order.
pub fn add_md_data(reporter: &mut HtmlReporter, section_name: String, data: Vec<String>)
    ensures
        final(reporter).section_order == old(reporter).section_order,
        final(reporter)@ == old(reporter)@.append(section_name@, data.deep_view()),
        old(reporter)@.complete() ==> final(reporter)@.complete(),
{
    let mut data = data;
    let ghost added = data.deep_view();
    let entry = reporter.md_datas.entry_or_insert(section_name, Vec::new());
    let ghost kept = entry.deep_view();
    entry.append(&mut data);
    assert(entry.deep_view() == kept + added);
}

/// The report after one `add_md_data` per fragment of `fragments`, each for
/// `section`, in the order of `fragments`.
pub open spec fn append_each(
    report: ReportView,
    section: Seq<char>,
    fragments: Seq<Seq<char>>,
) -> ReportView
    decreases fragments.len(),
{
    if fragments.len() == 0 {
        report
    } else {
        append_each(report, section, fragments.drop_last()).append(section, seq![fragments.last()])
    }
}

proof fn lemma_blocks(report: ReportView, count: nat)
    requires
        count <= report.order.len(),
    ensures
        report.blocks(count).len() == 2 * count,
        forall|i: int|
            0 <= i < count ==> report.blocks(count)[2 * i] == heading_line(
                #[trigger] report.order[i],
            ) && report.blocks(count)[2 * i + 1] == report.body(report.order[i]),
    decreases count,
{
    if count > 0 {
        lemma_blocks(report, (count - 1) as nat);
    }
}

/// The rendered sections follow `order`: the heading of the section at
/// place `i` of the order is block `2 * i` of the document, and the section's
/// body is the block after it, whatever the sections hold.
pub proof fn lemma_blocks_follow_order(report: ReportView, i: int)
    requires
        0 <= i < report.order.len(),
    ensures
        report.blocks(report.order.len()).len() == 2 * report.order.len(),
        report.blocks(report.order.len())[2 * i] == heading_line(report.order[i]),
        report.blocks(report.order.len())[2 * i + 1] == report.body(report.order[i]),
{
    lemma_blocks(report, report.order.len());
}

/// Adding fragments moves no heading: the order is the same afterwards, and
/// so is every heading block of the document.
pub proof fn lemma_append_keeps_headings(
    report: ReportView,
    section: Seq<char>,
    fragments: Seq<Seq<char>>,
    i: int,
)
    requires
        0 <= i < report.order.len(),
    ensures
        report.append(section, fragments).order == report.order,
        report.append(section, fragments).blocks(report.order.len())[2 * i] == report.blocks(
            report.order.len(),
        )[2 * i],
{
    let after = report.append(section, fragments);
    lemma_blocks(report, report.order.len());
    lemma_blocks(after, report.order.len());
    assert(after.order[i] == report.order[i]);
}

/// Additions to two different sections give the same report in either
/// order.
pub proof fn lemma_appends_commute(
    report: ReportView,
    first: Seq<char>,
    first_fragments: Seq<Seq<char>>,
    second: Seq<char>,
    second_fragments: Seq<Seq<char>>,
)
    requires
        first != second,
    ensures
        report.append(first, first_fragments).append(second, second_fragments) == report.append(
            second,
            second_fragments,
        ).append(first, first_fragments),
{
    let one = report.append(first, first_fragments).append(second, second_fragments);
    let other = report.append(second, second_fragments).append(first, first_fragments);
    assert(one.sections =~= other.sections);
}

/// A rendered section without fragments shows the placeholder, whether it
/// has an empty entry or none.
pub proof fn lemma_empty_section_shows_placeholder(report: ReportView, i: int)
    requires
        0 <= i < report.order.len(),
        report.fragments_of(report.order[i]).len() == 0,
    ensures
        report.blocks(report.order.len())[2 * i + 1] == placeholder(),
{
    lemma_blocks(report, report.order.len());
}

proof fn lemma_blocks_agree(first: ReportView, second: ReportView, count: nat)
    requires
        first.order == second.order,
        count <= first.order.len(),
        forall|i: int|
            0 <= i < first.order.len() ==> first.fragments_of(#[trigger] first.order[i])
                == second.fragments_of(first.order[i]),
    ensures
        first.blocks(count) == second.blocks(count),
    decreases count,
{
    if count > 0 {
        lemma_blocks_agree(first, second, (count - 1) as nat);
    }
}

/// Rendering reads the section order and the fragments of the sections in
/// it, and nothing else: two reports that agree on these give the same
/// markdown and the same HTML. Entries of other sections make no difference.
pub proof fn lemma_render_reads_ordered_sections(first: ReportView, second: ReportView)
    requires
        first.order == second.order,
        forall|i: int|
            0 <= i < first.order.len() ==> first.fragments_of(#[trigger] first.order[i])
                == second.fragments_of(first.order[i]),
    ensures
        first.markdown() == second.markdown(),
        first.html() == second.html(),
{
    lemma_blocks_agree(first, second, first.order.len());
}

/// Rendering twice gives the same HTML twice: reporters that hold the same
/// report render to the same text.
pub proof fn lemma_render_is_repeatable(first: HtmlReporter, second: HtmlReporter)
    requires
        first@ == second@,
    ensures
        first@.html() == second@.html(),
{
}

/// Fragments added one call at a time are all kept, each once and in the
/// order of the calls: the section then holds what it held before, followed by
/// exactly these fragments, and the report is the one that a single call with
/// all of them gives.
pub proof fn lemma_single_appends_all_kept(
    report: ReportView,
    section: Seq<char>,
    fragments: Seq<Seq<char>>,
)
    ensures
        append_each(report, section, fragments).order == report.order,
        append_each(report, section, fragments).fragments_of(section) == report.fragments_of(
            section,
        ) + fragments,
        fragments.len() > 0 ==> append_each(report, section, fragments) == report.append(
            section,
            fragments,
        ),
    decreases fragments.len(),
{
    if fragments.len() > 0 {
        let earlier = fragments.drop_last();
        let kept = report.fragments_of(section);
        lemma_single_appends_all_kept(report, section, earlier);
        assert((kept + earlier) + seq![fragments.last()] == kept + fragments);
        let before = append_each(report, section, earlier);
        let after = before.append(section, seq![fragments.last()]);
        assert(after.sections =~= report.append(section, fragments).sections);
    }
}

/// The order in which single fragments reach a section decides their order
/// in it and nothing else: whichever way the calls interleave, the section
/// ends up with one more fragment per call and with the same fragments.
pub proof fn lemma_interleaving_keeps_fragments(
    report: ReportView,
    section: Seq<char>,
    first: Seq<Seq<char>>,
    second: Seq<Seq<char>>,
)
    requires
        first.to_multiset() == second.to_multiset(),
    ensures
        append_each(report, section, first).fragments_of(section).len() == report.fragments_of(
            section,
        ).len() + first.len(),
        append_each(report, section, first).fragments_of(section).to_multiset() == append_each(
            report,
            section,
            second,
        ).fragments_of(section).to_multiset(),
{
    let kept = report.fragments_of(section);
    lemma_single_appends_all_kept(report, section, first);
    lemma_single_appends_all_kept(report, section, second);
    vstd::seq_lib::lemma_multiset_commutative(kept, first);
    vstd::seq_lib::lemma_multiset_commutative(kept, second);
}

} // verus!
