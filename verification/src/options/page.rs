//! The page around a rendered report, and the order in which it is put on
//! disk.
//!
//! Nothing here touches the file system. `html_page` and `confirmation` build
//! text; `advance` decides, from what the caller observed, what the caller has
//! to do next.

use vstd::prelude::*;

verus! {

/// Where the page expects its style sheet, relative to itself.
pub open spec fn stylesheet_path() -> Seq<char> {
    "./hayabusa_report.css"@
}

/// Where the page expects its icon, relative to itself.
pub open spec fn icon_path() -> Seq<char> {
    "./favicon.png"@
}

/// Where the page expects its logo, relative to itself.
pub open spec fn logo_path() -> Seq<char> {
    "./logo.png"@
}

/// Everything of the page that precedes the report: doctype, head with the
/// character set and the links to style sheet and icon, and the opening of the
/// body with the logo.
pub open spec fn page_head() -> Seq<char> {
    "<!DOCTYPE html><html><head><meta charset=\"UTF-8\">"@
        + "<link rel=\"stylesheet\" type=\"text/css\" href=\""@ + stylesheet_path() + "\">"@
        + "<link rel=\"icon\" type=\"image/png\" href=\""@ + icon_path() + "\">"@
        + "</head><body><section>"@
        + "<img id=\"logo\" src=\""@ + logo_path() + "\">"@
}

/// Everything of the page that follows the report, up to the newline that
/// ends the file.
pub open spec fn page_tail() -> Seq<char> {
    "</section></body></html>\n"@
}

/// The page for a report: the report stands between head and tail exactly as
/// it was given.
pub open spec fn page_text(report: Seq<char>) -> Seq<char> {
    page_head() + report + page_tail()
}

/// Builds the full HTML document for an already rendered report.
///
/// `input_html` is trusted to be HTML and is inserted as it is, without
/// escaping.
pub fn html_page(input_html: &str) -> (page: String)
    ensures
        page@ == page_text(input_html@),
{
    let mut page = String::from_str("<!DOCTYPE html><html><head><meta charset=\"UTF-8\">");
    page.append("<link rel=\"stylesheet\" type=\"text/css\" href=\"");
    page.append("./hayabusa_report.css");
    page.append("\">");
    page.append("<link rel=\"icon\" type=\"image/png\" href=\"");
    page.append("./favicon.png");
    page.append("\">");
    page.append("</head><body><section>");
    page.append("<img id=\"logo\" src=\"");
    page.append("./logo.png");
    page.append("\">");
    page.append(input_html);
    page.append("</section></body></html>\n");
    page
}

/// The line that tells the operator where the report went.
pub open spec fn confirmation_text(path: Seq<char>) -> Seq<char> {
    "HTML Report was generated. Please check "@ + path + " for details."@
}

/// Builds the confirmation line for a report written to `path`.
pub fn confirmation(path: &str) -> (line: String)
    ensures
        line@ == confirmation_text(path@),
{
    let mut line = String::from_str("HTML Report was generated. Please check ");
    line.append(path);
    line.append(" for details.");
    line
}

/// Why a report could not be put on disk.
#[derive(Clone, Copy, Debug, PartialEq, Eq)]
pub enum WriteError {
    /// The directory meant to hold the report could not be created.
    FilesystemError,
    /// The report file could not be created or written in full.
    IoError,
}

/// What the caller has to do next to put a report on disk.
#[derive(Clone, Copy, Debug, PartialEq, Eq)]
pub enum WriteStep {
    /// Find out whether the directory that will hold the report exists.
    CheckParent,
    /// Create that directory.
    CreateParent,
    /// Create the report file and write the page to it.
    WriteDocument,
    /// Tell the operator where the report is. Nothing follows.
    Confirm,
    /// Give up with this error. Nothing follows.
    Abort(WriteError),
}

/// What the caller saw when it did what a step asked for.
#[derive(Clone, Copy, Debug, PartialEq, Eq)]
pub enum WriteEvent {
    /// The directory is there.
    ParentFound,
    /// The directory is not there.
    ParentMissing,
    /// The directory was created.
    ParentCreated,
    /// Creating the directory failed because something had created it in the
    /// meantime.
    ParentAlreadyExists,
    /// Creating the directory failed for any other reason.
    ParentNotCreated,
    /// The whole page is in the file.
    DocumentWritten,
    /// Creating, writing or flushing the file failed.
    DocumentNotWritten,
}

impl WriteStep {
    /// Whether the step ends the write.
    pub open spec fn is_final(self) -> bool {
        self is Confirm || self is Abort
    }

    /// How the write ended, once it has: `None` while there is still
    /// something to do.
    pub open spec fn outcome_spec(self) -> Option<Result<(), WriteError>> {
        match self {
            WriteStep::Confirm => Some(Ok(())),
            WriteStep::Abort(error) => Some(Err(error)),
            _ => None,
        }
    }

    /// How the write ended, once it has: `None` while there is still
    /// something to do.
    pub fn outcome(&self) -> (ended: Option<Result<(), WriteError>>)
        ensures
            ended == self.outcome_spec(),
    {
        match self {
            WriteStep::Confirm => Some(Ok(())),
            WriteStep::Abort(error) => Some(Err(*error)),
            _ => None,
        }
    }
}

/// Whether `event` is an answer to what `step` asked for.
pub open spec fn answers(step: WriteStep, event: WriteEvent) -> bool {
    match step {
        WriteStep::CheckParent => event is ParentFound || event is ParentMissing,
        WriteStep::CreateParent => event is ParentCreated || event is ParentAlreadyExists
            || event is ParentNotCreated,
        WriteStep::WriteDocument => event is DocumentWritten || event is DocumentNotWritten,
        WriteStep::Confirm => false,
        WriteStep::Abort(_) => false,
    }
}

/// The step that follows `step` once `event` was seen.
///
/// The directory is created only when it is missing, and a directory that
/// appeared in the meantime counts as created. The file is written only once
/// the directory is there. A failure ends the write with its error, and only a
/// written file leads to the confirmation. An event that does not answer the
/// step changes nothing.
pub open spec fn next_step(step: WriteStep, event: WriteEvent) -> WriteStep {
    if !answers(step, event) {
        step
    } else {
        match event {
            WriteEvent::ParentFound => WriteStep::WriteDocument,
            WriteEvent::ParentMissing => WriteStep::CreateParent,
            WriteEvent::ParentCreated => WriteStep::WriteDocument,
            WriteEvent::ParentAlreadyExists => WriteStep::WriteDocument,
            WriteEvent::ParentNotCreated => WriteStep::Abort(WriteError::FilesystemError),
            WriteEvent::DocumentWritten => WriteStep::Confirm,
            WriteEvent::DocumentNotWritten => WriteStep::Abort(WriteError::IoError),
        }
    }
}

/// The first step of every write.
pub fn first_step() -> (step: WriteStep)
    ensures
        step == WriteStep::CheckParent,
{
    WriteStep::CheckParent
}

/// Decides what to do after `event` was seen while `step` was pending.
pub fn advance(step: WriteStep, event: WriteEvent) -> (next: WriteStep)
    ensures
        next == next_step(step, event),
{
    match (step, event) {
        (WriteStep::CheckParent, WriteEvent::ParentFound) => WriteStep::WriteDocument,
        (WriteStep::CheckParent, WriteEvent::ParentMissing) => WriteStep::CreateParent,
        (WriteStep::CreateParent, WriteEvent::ParentCreated) => WriteStep::WriteDocument,
        (WriteStep::CreateParent, WriteEvent::ParentAlreadyExists) => WriteStep::WriteDocument,
        (WriteStep::CreateParent, WriteEvent::ParentNotCreated) => WriteStep::Abort(
            WriteError::FilesystemError,
        ),
        (WriteStep::WriteDocument, WriteEvent::DocumentWritten) => WriteStep::Confirm,
        (WriteStep::WriteDocument, WriteEvent::DocumentNotWritten) => WriteStep::Abort(
            WriteError::IoError,
        ),
        (pending, _) => pending,
    }
}

/// The step reached from `step` once the events of `events` were seen, in
/// their order.
pub open spec fn run(step: WriteStep, events: Seq<WriteEvent>) -> WriteStep
    decreases events.len(),
{
    if events.len() == 0 {
        step
    } else {
        next_step(run(step, events.drop_last()), events.last())
    }
}

/// Whether the events show that the directory for the report is there.
pub open spec fn saw_parent(events: Seq<WriteEvent>) -> bool {
    events.contains(WriteEvent::ParentFound) || events.contains(WriteEvent::ParentCreated)
        || events.contains(WriteEvent::ParentAlreadyExists)
}

/// A write that has ended stays as it ended, whatever is reported afterwards.
pub proof fn lemma_final_step_stays(step: WriteStep, events: Seq<WriteEvent>)
    requires
        step.is_final(),
    ensures
        run(step, events) == step,
    decreases events.len(),
{
    if events.len() > 0 {
        lemma_final_step_stays(step, events.drop_last());
    }
}

/// What a write that started at the first step has seen by the time it
/// reaches a step.
///
/// The directory is created only after it was found missing. The file is
/// written only after the directory was found or created. The confirmation
/// comes only after the file was written. A write that gave up names the
/// failure that was seen: the directory's with `FilesystemError`, the file's
/// with `IoError`.
pub proof fn lemma_step_reflects_events(events: Seq<WriteEvent>)
    ensures
        match run(WriteStep::CheckParent, events) {
            WriteStep::CheckParent => true,
            WriteStep::CreateParent => events.contains(WriteEvent::ParentMissing),
            WriteStep::WriteDocument => saw_parent(events),
            WriteStep::Confirm => saw_parent(events) && events.contains(
                WriteEvent::DocumentWritten,
            ),
            WriteStep::Abort(WriteError::FilesystemError) => events.contains(
                WriteEvent::ParentMissing,
            ) && events.contains(WriteEvent::ParentNotCreated),
            WriteStep::Abort(WriteError::IoError) => saw_parent(events) && events.contains(
                WriteEvent::DocumentNotWritten,
            ),
        },
    decreases events.len(),
{
    if events.len() > 0 {
        let earlier = events.drop_last();
        lemma_step_reflects_events(earlier);
        assert forall|event: WriteEvent| earlier.contains(event) implies events.contains(
            event,
        ) by {
            let i = choose|i: int| 0 <= i < earlier.len() && earlier[i] == event;
            assert(events[i] == event);
        }
    }
}

} // verus!
