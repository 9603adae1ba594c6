//! One run, step by step. The run itself touches nothing: it says which step
//! is due, the caller carries the step out and reports how it went.

use crate::cli::{argument_view, invocation_of, Invocation};
use crate::command::{command_line, speedtest_command, SPEEDTEST_BIN_NAME};
use crate::report::{report_of_text, speedtest_results};
use crate::workspace::{create_temp_dir_name, workspace_name};
use std::string::FromUtf8Error;
use vstd::prelude::*;
use vstd::utf8::{decode_utf8, valid_utf8};

verus! {

/// `std::string::FromUtf8Error`: the error of bytes that are no text. Nothing is known of
/// its inside.
#[verifier::external_type_specification]
#[verifier::external_body]
pub struct ExFromUtf8Error(FromUtf8Error);

/// `String::from_utf8` turns bytes into the text that they encode, and fails if and only if
/// the bytes are not valid UTF-8.
pub assume_specification[ String::from_utf8 ](bytes: Vec<u8>) -> (text: Result<
    String,
    FromUtf8Error,
>)
    ensures
        text is Ok <==> valid_utf8(bytes@),
        text is Ok ==> text->Ok_0@ == decode_utf8(bytes@),
;

/// What a run waits for.
#[derive(Clone, Copy, Debug, PartialEq, Eq, Structural)]
pub enum Stage {
    CreatingDirectory,
    Downloading,
    Extracting,
    Running,
    Reporting,
    CleaningUp,
    Finished,
}

/// The step that went wrong.
#[derive(Clone, Copy, Debug, PartialEq, Eq, Structural)]
pub enum Failure {
    DirectoryName,
    Directory,
    Download,
    Extraction,
    Tool,
    Results,
    Cleanup,
}

/// What the caller is to do next.
#[derive(Clone, Copy, Debug, PartialEq, Eq, Structural)]
pub enum Step {
    /// Print the usage message.
    Usage,
    /// Create the workspace directory.
    CreateDirectory,
    /// Fetch the archive into the workspace.
    Download,
    /// Unpack the archive in the workspace.
    Extract,
    /// Run the tool and capture what it writes.
    RunTool,
    /// Print the lines of the report.
    PrintReport,
    /// Remove the workspace directory and all that is in it.
    RemoveDirectory,
    /// Nothing is left to do.
    Finish,
    /// Give up with the failure's message.
    Abort(Failure),
    /// Tell the user of the failure; the run ends as one that went well.
    Warn(Failure),
}

/// How a step went.
#[derive(Debug)]
pub enum Event {
    /// The step was carried out.
    Done,
    /// The step could not be carried out.
    Failed,
    /// The tool ran and wrote this text.
    Output(String),
}

/// An event with its text as a sequence of characters.
pub enum EventView {
    Done,
    Failed,
    Output(Seq<char>),
}

impl View for Event {
    type V = EventView;

    open spec fn view(&self) -> EventView {
        match self {
            Event::Done => EventView::Done,
            Event::Failed => EventView::Failed,
            Event::Output(text) => EventView::Output(text@),
        }
    }
}

/// How the run of the tool went, given what the tool wrote: bytes that are
/// text are its output, and bytes that are not make the run a failure.
pub open spec fn output_event(output: Seq<u8>) -> EventView {
    if valid_utf8(output) {
        EventView::Output(decode_utf8(output))
    } else {
        EventView::Failed
    }
}

/// How the run of the tool went, given how the tool ended and what it wrote:
/// a tool that ended with a failure has failed, whatever it wrote.
pub open spec fn run_event(succeeded: bool, output: Seq<u8>) -> EventView {
    if succeeded {
        output_event(output)
    } else {
        EventView::Failed
    }
}

impl Event {
    /// The event for a tool that ran and wrote `output`.
    pub fn from_output(output: Vec<u8>) -> (event: Event)
        ensures
            event@ == output_event(output@),
    {
        match String::from_utf8(output) {
            Ok(text) => Event::Output(text),
            Err(_) => Event::Failed,
        }
    }

    /// The event for a tool that ended, with success or without, and wrote
    /// `output`.
    pub fn from_run(succeeded: bool, output: Vec<u8>) -> (event: Event)
        ensures
            event@ == run_event(succeeded, output@),
    {
        if succeeded {
            Event::from_output(output)
        } else {
            Event::Failed
        }
    }
}

/// A run: its workspace, what it waits for, and the lines of its report once
/// the tool's result has been read.
#[derive(Debug)]
pub struct Run {
    pub dir: String,
    pub stage: Stage,
    pub lines: Vec<String>,
}

/// A run with its texts as sequences of characters.
pub struct RunView {
    pub dir: Seq<char>,
    pub stage: Stage,
    pub lines: Seq<Seq<char>>,
}

impl View for Run {
    type V = RunView;

    open spec fn view(&self) -> RunView {
        RunView { dir: self.dir@, stage: self.stage, lines: self.lines.deep_view() }
    }
}

/// The step reaches outside the program: the file system, the network or
/// another process.
pub open spec fn reaches_outside(step: Step) -> bool {
    step == Step::CreateDirectory || step == Step::Download || step == Step::Extract || step
        == Step::RunTool || step == Step::RemoveDirectory
}

impl RunView {
    /// The run with another stage.
    pub open spec fn at(self, stage: Stage) -> RunView {
        RunView { stage, ..self }
    }

    /// How a run starts: a command line that names no test gives the usage
    /// message and nothing else; without a workspace name the run gives up;
    /// else the workspace is created first.
    pub open spec fn start(invocation: Invocation, name: Option<Seq<char>>) -> (RunView, Step) {
        let idle = RunView { dir: Seq::empty(), stage: Stage::Finished, lines: Seq::empty() };
        if invocation == Invocation::Usage {
            (idle, Step::Usage)
        } else {
            match name {
                Some(dir) => (
                    RunView { dir, stage: Stage::CreatingDirectory, lines: Seq::empty() },
                    Step::CreateDirectory,
                ),
                None => (idle, Step::Abort(Failure::DirectoryName)),
            }
        }
    }

    /// How a run goes on after an event. A step before the report that fails
    /// ends the run with the step's failure. The tool's output is read as soon
    /// as it is there: a result that gives no report ends the run, and one
    /// that does is printed before the workspace is removed. A workspace that
    /// cannot be removed is told to the user and the run ends as one that went
    /// well: its report is out. Output counts as done where no output is
    /// waited for, and only output counts where it is.
    pub open spec fn next(self, event: EventView) -> (RunView, Step) {
        let failed = event == EventView::Failed;
        match self.stage {
            Stage::CreatingDirectory => if failed {
                (self.at(Stage::Finished), Step::Abort(Failure::Directory))
            } else {
                (self.at(Stage::Downloading), Step::Download)
            },
            Stage::Downloading => if failed {
                (self.at(Stage::Finished), Step::Abort(Failure::Download))
            } else {
                (self.at(Stage::Extracting), Step::Extract)
            },
            Stage::Extracting => if failed {
                (self.at(Stage::Finished), Step::Abort(Failure::Extraction))
            } else {
                (self.at(Stage::Running), Step::RunTool)
            },
            Stage::Running => match event {
                EventView::Output(text) => match report_of_text(text) {
                    Ok(report) => (
                        RunView { dir: self.dir, stage: Stage::Reporting, lines: report.lines() },
                        Step::PrintReport,
                    ),
                    Err(_) => (self.at(Stage::Finished), Step::Abort(Failure::Results)),
                },
                _ => (self.at(Stage::Finished), Step::Abort(Failure::Tool)),
            },
            Stage::Reporting => (self.at(Stage::CleaningUp), Step::RemoveDirectory),
            Stage::CleaningUp => if failed {
                (self.at(Stage::Finished), Step::Warn(Failure::Cleanup))
            } else {
                (self.at(Stage::Finished), Step::Finish)
            },
            Stage::Finished => (self, Step::Finish),
        }
    }

    /// The steps that a run asks for, one for each of the events.
    pub open spec fn steps(self, events: Seq<EventView>) -> Seq<Step>
        decreases events.len(),
    {
        if events.len() == 0 {
            Seq::empty()
        } else {
            seq![self.next(events[0]).1] + self.next(events[0]).0.steps(events.drop_first())
        }
    }

    /// The run after the events.
    pub open spec fn after(self, events: Seq<EventView>) -> RunView
        decreases events.len(),
    {
        if events.len() == 0 {
            self
        } else {
            self.next(events[0]).0.after(events.drop_first())
        }
    }
}

/// The message of a failure in a run with the workspace `dir`.
pub open spec fn failure_text(failure: Failure, dir: Seq<char>) -> Seq<char> {
    match failure {
        Failure::DirectoryName => "error creating temp directory name"@,
        Failure::Directory => "error creating temp directory"@,
        Failure::Download => "error downloading speedtest"@,
        Failure::Extraction => "error extracting speedtest"@,
        Failure::Tool => "error running speedtest"@,
        Failure::Results => "error reading results"@,
        Failure::Cleanup => "Unable to clean files. Please remove directory: "@ + dir,
    }
}

/// A command line that names no test leads to the usage message and to
/// nothing else: whatever is reported afterwards, no step reaches outside the
/// program.
pub proof fn lemma_usage_reaches_nothing(
    argument: Option<Seq<char>>,
    name: Option<Seq<char>>,
    events: Seq<EventView>,
)
    requires
        argument != Some("-d"@),
        argument != Some("-u"@),
    ensures
        RunView::start(invocation_of(argument), name).1 == Step::Usage,
        forall|i: int|
            0 <= i < events.len() ==> #[trigger] RunView::start(
                invocation_of(argument),
                name,
            ).0.steps(events)[i] == Step::Finish,
        RunView::start(invocation_of(argument), name).0.steps(events).len() == events.len(),
{
    lemma_finished_stays(RunView::start(invocation_of(argument), name).0, events);
}

/// A finished run stays finished and asks for nothing more.
pub proof fn lemma_finished_stays(run: RunView, events: Seq<EventView>)
    requires
        run.stage == Stage::Finished,
    ensures
        run.after(events) == run,
        run.steps(events).len() == events.len(),
        forall|i: int| 0 <= i < events.len() ==> #[trigger] run.steps(events)[i] == Step::Finish,
    decreases events.len(),
{
    if events.len() > 0 {
        lemma_finished_stays(run, events.drop_first());
    }
}

/// The workspace is removed only once the report has been handed out, and a
/// failure to remove it neither changes the report nor makes the run give up:
/// the user is told of it, the lines stay as they were, and the run is
/// finished like one whose workspace was removed.
pub proof fn lemma_cleanup_follows_report(run: RunView, event: EventView)
    ensures
        run.next(event).1 == Step::RemoveDirectory <==> run.stage == Stage::Reporting,
        run.next(event).1 == Step::PrintReport ==> run.stage == Stage::Running,
        run.next(event).1 is Warn <==> run.stage == Stage::CleaningUp && event
            == EventView::Failed,
        run.stage == Stage::CleaningUp ==> {
            &&& !(run.next(event).1 is Abort)
            &&& run.next(event).0 == run.at(Stage::Finished)
            &&& run.next(event).1 == if event == EventView::Failed {
                Step::Warn(Failure::Cleanup)
            } else {
                Step::Finish
            }
            &&& forall|later: EventView| #[trigger]
                run.next(event).0.next(later) == (run.at(Stage::Finished), Step::Finish)
        },
{
}

/// Once the report is there the run does not give up any more: from then on
/// no step is an `Abort`.
pub proof fn lemma_no_abort_after_report(run: RunView, event: EventView)
    requires
        run.stage == Stage::Reporting || run.stage == Stage::CleaningUp || run.stage
            == Stage::Finished,
    ensures
        !(run.next(event).1 is Abort),
        run.next(event).0.lines == run.lines,
        run.next(event).0.stage == Stage::CleaningUp || run.next(event).0.stage
            == Stage::Finished,
{
}

/// A step before the report that could not be carried out ends the run: the
/// step's failure is handed out and the run is finished.
pub proof fn lemma_failure_ends_run(run: RunView)
    requires
        run.stage == Stage::CreatingDirectory || run.stage == Stage::Downloading || run.stage
            == Stage::Extracting || run.stage == Stage::Running,
    ensures
        run.next(EventView::Failed).1 is Abort,
        run.next(EventView::Failed).0 == run.at(Stage::Finished),
{
}

/// Every step of a run works in the one workspace that the run started with.
pub proof fn lemma_one_workspace(run: RunView, events: Seq<EventView>)
    ensures
        run.after(events).dir == run.dir,
    decreases events.len(),
{
    if events.len() > 0 {
        lemma_one_workspace(run.next(events[0]).0, events.drop_first());
    }
}

impl Failure {
    /// The message of the failure in a run with the workspace `dir`.
    pub fn message(&self, dir: &str) -> (message: String)
        ensures
            message@ == failure_text(*self, dir@),
    {
        match self {
            Failure::DirectoryName => "error creating temp directory name".to_owned(),
            Failure::Directory => "error creating temp directory".to_owned(),
            Failure::Download => "error downloading speedtest".to_owned(),
            Failure::Extraction => "error extracting speedtest".to_owned(),
            Failure::Tool => "error running speedtest".to_owned(),
            Failure::Results => "error reading results".to_owned(),
            Failure::Cleanup => {
                let mut message = "Unable to clean files. Please remove directory: ".to_owned();
                message.append(dir);
                message
            },
        }
    }
}

impl Run {
    fn idle() -> (run: Run)
        ensures
            run@ == (RunView { dir: Seq::empty(), stage: Stage::Finished, lines: Seq::empty() }),
    {
        let run = Run { dir: String::new(), stage: Stage::Finished, lines: Vec::new() };
        assert(run.lines.deep_view() =~= Seq::<Seq<char>>::empty());
        run
    }

    /// Starts a run for an invocation, in the workspace of the given name.
    /// `None` stands for a name that could not be made.
    pub fn start(invocation: Invocation, name: Option<String>) -> (started: (Run, Step))
        ensures
            (started.0@, started.1) == RunView::start(
                invocation,
                match name {
                    Some(dir) => Some(dir@),
                    None => None,
                },
            ),
    {
        match invocation {
            Invocation::Usage => (Run::idle(), Step::Usage),
            _ => match name {
                Some(dir) => {
                    let run = Run { dir, stage: Stage::CreatingDirectory, lines: Vec::new() };
                    assert(run.lines.deep_view() =~= Seq::<Seq<char>>::empty());
                    (run, Step::CreateDirectory)
                },
                None => (Run::idle(), Step::Abort(Failure::DirectoryName)),
            },
        }
    }

    /// Starts a run for the first argument of the command line. A run that is
    /// asked for works in a workspace named after the present moment.
    pub fn begin(argument: Option<&str>) -> (started: (Run, Step))
        ensures
            invocation_of(argument_view(argument)) == Invocation::Usage ==> (
            started.0@,
            started.1,
            ) == RunView::start(Invocation::Usage, None),
            invocation_of(argument_view(argument)) != Invocation::Usage ==> (
            started.0@,
            started.1,
            ) == RunView::start(invocation_of(argument_view(argument)), None) || exists|
                millis: u128,
            |
                (started.0@, started.1) == RunView::start(
                    invocation_of(argument_view(argument)),
                    Some(workspace_name(millis as nat)),
                ),
    {
        let invocation = Invocation::parse(argument);
        match invocation {
            Invocation::Usage => Run::start(invocation, None),
            _ => match create_temp_dir_name() {
                Ok(name) => Run::start(invocation, Some(name)),
                Err(_) => Run::start(invocation, None),
            },
        }
    }

    /// Takes the outcome of the step that was due and says which step is due
    /// now.
    pub fn advance(&mut self, event: Event) -> (step: Step)
        ensures
            (final(self)@, step) == old(self)@.next(event@),
    {
        match self.stage {
            Stage::CreatingDirectory => match event {
                Event::Failed => self.give_up(Failure::Directory),
                _ => {
                    self.stage = Stage::Downloading;
                    Step::Download
                },
            },
            Stage::Downloading => match event {
                Event::Failed => self.give_up(Failure::Download),
                _ => {
                    self.stage = Stage::Extracting;
                    Step::Extract
                },
            },
            Stage::Extracting => match event {
                Event::Failed => self.give_up(Failure::Extraction),
                _ => {
                    self.stage = Stage::Running;
                    Step::RunTool
                },
            },
            Stage::Running => match event {
                Event::Output(text) => match speedtest_results(text.as_str()) {
                    Ok(lines) => {
                        self.lines = lines;
                        self.stage = Stage::Reporting;
                        Step::PrintReport
                    },
                    Err(_) => self.give_up(Failure::Results),
                },
                _ => self.give_up(Failure::Tool),
            },
            Stage::Reporting => {
                self.stage = Stage::CleaningUp;
                Step::RemoveDirectory
            },
            Stage::CleaningUp => match event {
                Event::Failed => {
                    self.stage = Stage::Finished;
                    Step::Warn(Failure::Cleanup)
                },
                _ => {
                    self.stage = Stage::Finished;
                    Step::Finish
                },
            },
            Stage::Finished => Step::Finish,
        }
    }

    fn give_up(&mut self, failure: Failure) -> (step: Step)
        ensures
            final(self)@ == old(self)@.at(Stage::Finished),
            step == Step::Abort(failure),
    {
        self.stage = Stage::Finished;
        Step::Abort(failure)
    }

    /// The shell command that runs the tool of this run's workspace.
    pub fn command(&self) -> (command: String)
        ensures
            command@ == command_line(self@.dir, SPEEDTEST_BIN_NAME@),
    {
        speedtest_command(self.dir.as_str(), SPEEDTEST_BIN_NAME)
    }
}

} // verus!
