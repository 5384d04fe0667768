//! The single-image processor.
//!
//! The processor decides; it does not act. It hands its caller one
//! instruction at a time, the caller carries the command out (decoding,
//! scaling, encoding and writing are the caller's) and reports back what
//! happened, and the processor answers with the next instruction.

use vstd::prelude::*;

use crate::error::{ErrorKind, Failure, ProcessingError};
use crate::path::{file_stem, file_stem_of, join, joined};
use crate::utils::resized_image_details::{
    derivatives,
    planning,
    Derivative,
    ResizedImageDetails,
};
use crate::utils::text::{decimal, to_decimal};
use crate::webp::processor::{Job, Parameter};

verus! {

/// What the caller is asked to do next.
#[derive(Debug)]
pub enum Command {
    /// Decode the source image at `path` and report its dimensions.
    Load { path: String },
    /// Create the directory at `path`, with its parents, unless it exists.
    CreateDirectory { path: String },
    /// Scale the decoded source to the given dimensions with a smooth filter.
    Resize { width: u32, height: u32 },
    /// Encode the image at hand: the source, or what was resized last.
    Encode { quality: u8 },
    /// Write what was encoded last to the file at `path`.
    Save { path: String },
    /// Nothing more: the job has ended with this result.
    Finish { result: Result<(), ProcessingError> },
}

/// A command as the contracts speak of it.
pub enum CommandView {
    Load { path: Seq<char> },
    CreateDirectory { path: Seq<char> },
    Resize { width: nat, height: nat },
    Encode { quality: u8 },
    Save { path: Seq<char> },
    Finish { result: Result<(), Failure> },
}

impl View for Command {
    type V = CommandView;

    open spec fn view(&self) -> CommandView {
        match *self {
            Command::Load { path } => CommandView::Load { path: path@ },
            Command::CreateDirectory { path } => CommandView::CreateDirectory { path: path@ },
            Command::Resize { width, height } => CommandView::Resize {
                width: width as nat,
                height: height as nat,
            },
            Command::Encode { quality } => CommandView::Encode { quality },
            Command::Save { path } => CommandView::Save { path: path@ },
            Command::Finish { result } => CommandView::Finish {
                result: match result {
                    Ok(()) => Ok(()),
                    Err(e) => Err(e@),
                },
            },
        }
    }
}

/// What the caller is asked to tell the progress sink, if one is attached.
#[derive(Debug)]
pub enum Report {
    /// The label of the job.
    Prefix(String),
    /// The status of the job.
    Message(String),
    /// One more output file is complete.
    Increment,
    /// The last status of the job.
    Finished(String),
}

/// A report as the contracts speak of it.
pub enum ReportView {
    Prefix(Seq<char>),
    Message(Seq<char>),
    Increment,
    Finished(Seq<char>),
}

impl View for Report {
    type V = ReportView;

    open spec fn view(&self) -> ReportView {
        match *self {
            Report::Prefix(text) => ReportView::Prefix(text@),
            Report::Message(text) => ReportView::Message(text@),
            Report::Increment => ReportView::Increment,
            Report::Finished(text) => ReportView::Finished(text@),
        }
    }
}

/// The reports that a sequence of reports stands for.
pub open spec fn report_views(reports: Seq<Report>) -> Seq<ReportView> {
    reports.map_values(|r: Report| r@)
}

/// One step of a job: what to report, then what to do.
#[derive(Debug)]
pub struct Instruction {
    pub reports: Vec<Report>,
    pub command: Command,
}

/// An instruction as the contracts speak of it.
pub struct InstructionView {
    pub reports: Seq<ReportView>,
    pub command: CommandView,
}

impl View for Instruction {
    type V = InstructionView;

    open spec fn view(&self) -> InstructionView {
        InstructionView { reports: report_views(self.reports@), command: self.command@ }
    }
}

/// The instructions that a sequence of instructions stands for.
pub open spec fn instruction_views(instructions: Seq<Instruction>) -> Seq<InstructionView> {
    instructions.map_values(|i: Instruction| i@)
}

/// What the caller has to tell the processor.
#[derive(Debug)]
pub enum Event {
    /// The caller is ready for the first instruction.
    Started,
    /// The source was decoded; these are its dimensions.
    Loaded { width: u32, height: u32 },
    /// The last command was carried out.
    Succeeded,
    /// The last command failed, with this message.
    Failed { message: String },
}

/// How far a job has come.
pub enum Progress {
    /// Nothing was asked of the caller yet.
    Created,
    /// The caller was asked to decode the source.
    Loading,
    /// The caller works through the script of the source with this stem and
    /// these dimensions, and was handed its first `position` instructions.
    Running { stem: Seq<char>, source_width: nat, source_height: nat, position: nat },
    /// The job has ended.
    Finished,
}

/// A processor as the contracts speak of it.
pub struct ProcessorView {
    pub job: Job,
    pub progress: Progress,
}

impl ProcessorView {
    /// Whether the processor has a place in its script: behind the first
    /// instruction and before the end.
    pub open spec fn wf(self) -> bool {
        self.progress matches Progress::Running { stem, source_width, source_height, position }
            ==> 1 <= position < script(self.job, stem, source_width, source_height).len()
    }

    /// A bound on the number of instructions the processor may still hand
    /// out before the one that ends the job.
    pub open spec fn steps_left(self) -> nat {
        match self.progress {
            Progress::Created => 3 * self.job.scale_count + 6,
            Progress::Loading => 3 * self.job.scale_count + 5,
            Progress::Running { stem, source_width, source_height, position } => (script(
                self.job,
                stem,
                source_width,
                source_height,
            ).len() - position) as nat,
            Progress::Finished => 0,
        }
    }
}

/// The status while the source is decoded.
pub open spec fn loading_message() -> Seq<char> {
    "Loading image..."@
}

/// The status while an image is encoded.
pub open spec fn encoding_message() -> Seq<char> {
    "Encoding..."@
}

/// The status while a file is written.
pub open spec fn saving_message() -> Seq<char> {
    "Saving..."@
}

/// The status when a file was written.
pub open spec fn saved_message() -> Seq<char> {
    "...done!"@
}

/// The last status of a job that went well.
pub open spec fn finished_message() -> Seq<char> {
    "Done!"@
}

/// The status while the source is scaled to the given dimensions.
pub open spec fn resizing_message(width: nat, height: nat) -> Seq<char> {
    "Resizing to "@ + decimal(width) + "x"@ + decimal(height) + " ..."@
}

/// The last status of a job that failed.
pub open spec fn error_message(message: Seq<char>) -> Seq<char> {
    "Error: "@ + message
}

/// The message of the error for an input that is no regular file.
pub open spec fn not_a_file_message(input: Seq<char>) -> Seq<char> {
    "Given input ("@ + input + ") is not a file!"@
}

/// The message of the error for an input without a file name.
pub open spec fn no_stem_message() -> Seq<char> {
    "File name could not be extracted!"@
}

/// The message of the error for an output directory that cannot be made.
pub open spec fn directory_failure_message(path: Seq<char>, message: Seq<char>) -> Seq<char> {
    "Could not create folder "@ + path + "! Error: "@ + message
}

/// The message of the error for an event that answers no command.
pub open spec fn unexpected_event_message() -> Seq<char> {
    "The processor was told of something it had not asked for!"@
}

/// The file name of the full-scale derivative: the stem of the source and
/// the extension, with no width in between.
pub open spec fn full_scale_name(stem: Seq<char>) -> Seq<char> {
    stem + ".webp"@
}

/// What is reported when a file was written.
pub open spec fn saved_reports() -> Seq<ReportView> {
    seq![ReportView::Message(saved_message()), ReportView::Increment]
}

/// The first instruction of every job: decode the source.
pub open spec fn loading(job: Job) -> InstructionView {
    InstructionView {
        reports: seq![ReportView::Prefix(job.input), ReportView::Message(loading_message())],
        command: CommandView::Load { path: job.input },
    }
}

/// The instructions for the full-scale derivative: make sure the output
/// directory is there, encode the source as it is, write it.
pub open spec fn full_scale(job: Job, stem: Seq<char>) -> Seq<InstructionView> {
    seq![
        InstructionView {
            reports: Seq::empty(),
            command: CommandView::CreateDirectory { path: job.output_dir },
        },
        InstructionView {
            reports: seq![ReportView::Message(encoding_message())],
            command: CommandView::Encode { quality: job.quality },
        },
        InstructionView {
            reports: seq![ReportView::Message(saving_message())],
            command: CommandView::Save { path: joined(job.output_dir, full_scale_name(stem)) },
        },
    ]
}

/// The instructions for one scaled derivative, which follow the writing of
/// another file: resize, encode, write.
pub open spec fn rendering(job: Job, derivative: Derivative) -> Seq<InstructionView> {
    seq![
        InstructionView {
            reports: saved_reports().push(
                ReportView::Message(resizing_message(derivative.width, derivative.height)),
            ),
            command: CommandView::Resize { width: derivative.width, height: derivative.height },
        },
        InstructionView {
            reports: seq![ReportView::Message(encoding_message())],
            command: CommandView::Encode { quality: job.quality },
        },
        InstructionView {
            reports: seq![ReportView::Message(saving_message())],
            command: CommandView::Save { path: joined(job.output_dir, derivative.file_name) },
        },
    ]
}

/// The instructions for the first `count` derivatives of a plan, the last of
/// them first: the widest derivative is rendered first, the narrowest last.
pub open spec fn renderings(job: Job, plan: Seq<Derivative>, count: nat) -> Seq<InstructionView>
    decreases count,
{
    if count == 0 {
        Seq::empty()
    } else {
        rendering(job, plan[count - 1]) + renderings(job, plan, (count - 1) as nat)
    }
}

/// The last instruction of a script, which follows the writing of a file.
pub open spec fn conclusion(result: Result<(), Failure>) -> InstructionView {
    InstructionView {
        reports: saved_reports().push(
            ReportView::Finished(
                match result {
                    Ok(()) => finished_message(),
                    Err(e) => error_message(e.message),
                },
            ),
        ),
        command: CommandView::Finish { result },
    }
}

/// What follows the full-scale derivative: the scaled derivatives and the
/// end of the job, or the end alone where no plan can be made.
pub open spec fn scaled(job: Job, source_width: nat, source_height: nat) -> Seq<InstructionView> {
    match planning(job.input, source_width, source_height, job.scale_count) {
        Ok(plan) => renderings(job, plan, plan.len()).push(conclusion(Ok(()))),
        Err(e) => seq![conclusion(Err(e))],
    }
}

/// Everything a job does once its source is decoded, in order, if nothing
/// fails: the full-scale derivative first, then the scaled derivatives from
/// the widest to the narrowest, then the end.
pub open spec fn script(job: Job, stem: Seq<char>, source_width: nat, source_height: nat) -> Seq<
    InstructionView,
> {
    full_scale(job, stem) + scaled(job, source_width, source_height)
}

/// The instruction that ends a job early.
pub open spec fn abort(failure: Failure) -> InstructionView {
    InstructionView {
        reports: seq![ReportView::Finished(error_message(failure.message))],
        command: CommandView::Finish { result: Err(failure) },
    }
}

/// The failure that the failing of a command amounts to.
pub open spec fn failure_of(command: CommandView, message: Seq<char>) -> Failure {
    match command {
        CommandView::Load { path } => Failure { kind: ErrorKind::DecodeFailure, message },
        CommandView::CreateDirectory { path } => Failure {
            kind: ErrorKind::OutputDirectoryFailure,
            message: directory_failure_message(path, message),
        },
        CommandView::Resize { width, height } => Failure {
            kind: ErrorKind::UnexpectedFault,
            message,
        },
        CommandView::Encode { quality } => Failure { kind: ErrorKind::UnexpectedFault, message },
        CommandView::Save { path } => Failure { kind: ErrorKind::WriteFailure, message },
        CommandView::Finish { result } => Failure { kind: ErrorKind::UnexpectedFault, message },
    }
}

/// The failure for an event that answers no command of the processor.
pub open spec fn unexpected_event() -> Failure {
    Failure { kind: ErrorKind::UnexpectedFault, message: unexpected_event_message() }
}

/// A job that has ended early, and its last instruction.
pub open spec fn stopped(job: Job, failure: Failure) -> (ProcessorView, InstructionView) {
    (ProcessorView { job, progress: Progress::Finished }, abort(failure))
}

/// The transition of a processor: where an event takes it, and what it asks
/// of its caller next.
///
/// A failed command ends the job at once with the failure it amounts to;
/// what was written before stays. So does an event that answers nothing the
/// processor asked for.
pub open spec fn step(before: ProcessorView, event: Event) -> (ProcessorView, InstructionView) {
    match before.progress {
        Progress::Created => match event {
            Event::Started => (
                ProcessorView { job: before.job, progress: Progress::Loading },
                loading(before.job),
            ),
            _ => stopped(before.job, unexpected_event()),
        },
        Progress::Loading => match event {
            Event::Loaded { width, height } => match file_stem_of(before.job.input) {
                Some(stem) => (
                    ProcessorView {
                        job: before.job,
                        progress: Progress::Running {
                            stem,
                            source_width: width as nat,
                            source_height: height as nat,
                            position: 1,
                        },
                    },
                    script(before.job, stem, width as nat, height as nat)[0],
                ),
                None => stopped(
                    before.job,
                    Failure { kind: ErrorKind::NotAFile, message: no_stem_message() },
                ),
            },
            Event::Failed { message } => stopped(
                before.job,
                Failure { kind: ErrorKind::DecodeFailure, message: message@ },
            ),
            _ => stopped(before.job, unexpected_event()),
        },
        Progress::Running { stem, source_width, source_height, position } => match event {
            Event::Succeeded => (
                ProcessorView {
                    job: before.job,
                    progress: if position + 1 == script(
                        before.job,
                        stem,
                        source_width,
                        source_height,
                    ).len() {
                        Progress::Finished
                    } else {
                        Progress::Running {
                            stem,
                            source_width,
                            source_height,
                            position: position + 1,
                        }
                    },
                },
                script(before.job, stem, source_width, source_height)[position as int],
            ),
            Event::Failed { message } => stopped(
                before.job,
                failure_of(
                    script(before.job, stem, source_width, source_height)[position
                        - 1].command,
                    message@,
                ),
            ),
            _ => stopped(before.job, unexpected_event()),
        },
        Progress::Finished => stopped(before.job, unexpected_event()),
    }
}

/// The event by which a caller reports that it has carried out a command,
/// for a source of the given dimensions.
pub open spec fn success_of(command: Command, width: u32, height: u32) -> Event {
    if command is Load {
        Event::Loaded { width, height }
    } else {
        Event::Succeeded
    }
}

/// Whether `perform` carries out every command it is handed, for a source of
/// the given dimensions.
pub open spec fn always_succeeds<F: Fn(&Instruction) -> Event>(
    perform: F,
    width: u32,
    height: u32,
) -> bool {
    forall|instruction: Instruction, event: Event|
        call_ensures(perform, (&instruction,), event) ==> event == success_of(
            instruction.command,
            width,
            height,
        )
}

/// How a job ends when every command is carried out: well, if its plan can
/// be made, and else with the failure of the planning.
pub open spec fn result_of(job: Job, source_width: nat, source_height: nat) -> Result<
    (),
    Failure,
> {
    match planning(job.input, source_width, source_height, job.scale_count) {
        Ok(plan) => Ok(()),
        Err(e) => Err(e),
    }
}

/// Whether a processor, with the event it is about to be told, is where a
/// job stands of which every command was carried out so far.
pub open spec fn on_track(view: ProcessorView, event: Event, width: u32, height: u32) -> bool {
    match view.progress {
        Progress::Created => event is Started,
        Progress::Loading => event == (Event::Loaded { width, height }),
        Progress::Running { stem, source_width, source_height, position } => event is Succeeded
            && source_width == width && source_height == height,
        Progress::Finished => false,
    }
}

/// The paths that the `Save` commands of a script name, in order.
pub open spec fn saved_paths(instructions: Seq<InstructionView>) -> Seq<Seq<char>>
    decreases instructions.len(),
{
    if instructions.len() == 0 {
        Seq::empty()
    } else {
        match instructions.last().command {
            CommandView::Save { path } => saved_paths(instructions.drop_last()).push(path),
            _ => saved_paths(instructions.drop_last()),
        }
    }
}

/// The number of `Increment` reports in a sequence of reports.
pub open spec fn increments(reports: Seq<ReportView>) -> nat
    decreases reports.len(),
{
    if reports.len() == 0 {
        0
    } else {
        increments(reports.drop_last()) + if reports.last() is Increment {
            1nat
        } else {
            0nat
        }
    }
}

/// The number of `Increment` reports in a script.
pub open spec fn script_increments(instructions: Seq<InstructionView>) -> nat
    decreases instructions.len(),
{
    if instructions.len() == 0 {
        0
    } else {
        script_increments(instructions.drop_last()) + increments(instructions.last().reports)
    }
}

/// The paths under which the first `count` derivatives of a plan are
/// written, the last of them first.
pub open spec fn rendered_paths(job: Job, plan: Seq<Derivative>, count: nat) -> Seq<Seq<char>>
    decreases count,
{
    if count == 0 {
        Seq::empty()
    } else {
        seq![joined(job.output_dir, plan[count - 1].file_name)] + rendered_paths(
            job,
            plan,
            (count - 1) as nat,
        )
    }
}

/// The files a job writes when nothing fails: the full-scale derivative,
/// then the scaled derivatives from the widest to the narrowest.
pub open spec fn output_paths(job: Job, stem: Seq<char>, source_width: nat, source_height: nat) -> Seq<
    Seq<char>,
> {
    seq![joined(job.output_dir, full_scale_name(stem))] + match planning(
        job.input,
        source_width,
        source_height,
        job.scale_count,
    ) {
        Ok(plan) => rendered_paths(job, plan, plan.len()),
        Err(e) => Seq::empty(),
    }
}

/// The files of a directory after the given files were written into it.
pub open spec fn written(listing: Set<Seq<char>>, paths: Seq<Seq<char>>) -> Set<Seq<char>> {
    listing.union(paths.to_set())
}

/// What the result of a job stands for.
pub open spec fn result_view(result: Result<(), ProcessingError>) -> Result<(), Failure> {
    match result {
        Ok(()) => Ok(()),
        Err(e) => Err(e@),
    }
}

impl Command {
    /// A copy of the command.
    pub fn duplicate(&self) -> (r: Self)
        ensures
            r@ == self@,
    {
        match self {
            Command::Load { path } => Command::Load { path: path.clone() },
            Command::CreateDirectory { path } => Command::CreateDirectory { path: path.clone() },
            Command::Resize { width, height } => Command::Resize { width: *width, height: *height },
            Command::Encode { quality } => Command::Encode { quality: *quality },
            Command::Save { path } => Command::Save { path: path.clone() },
            Command::Finish { result } => Command::Finish {
                result: match result {
                    Ok(()) => Ok(()),
                    Err(e) => Err(e.duplicate()),
                },
            },
        }
    }
}

/// A status report with the given text.
fn message(text: &str) -> (r: Report)
    ensures
        r@ == ReportView::Message(text@),
{
    Report::Message(text.to_owned())
}

/// The reports for a file that was written.
fn saved() -> (r: Vec<Report>)
    ensures
        report_views(r@) == saved_reports(),
{
    let mut reports = Vec::new();
    reports.push(message("...done!"));
    reports.push(Report::Increment);
    assert(report_views(reports@) =~= saved_reports());
    reports
}

/// An instruction with a single status report.
fn announced(text: &str, command: Command) -> (r: Instruction)
    ensures
        r@ == (InstructionView { reports: seq![ReportView::Message(text@)], command: command@ }),
{
    let mut reports = Vec::new();
    reports.push(message(text));
    assert(report_views(reports@) =~= seq![ReportView::Message(text@)]);
    Instruction { reports, command }
}

/// The instruction to load the source of a job.
fn loading_instruction(params: &Parameter) -> (r: Instruction)
    ensures
        r@ == loading(params@),
{
    let mut reports = Vec::new();
    reports.push(Report::Prefix(params.input.clone()));
    reports.push(message("Loading image..."));
    assert(report_views(reports@) =~= loading(params@).reports);
    Instruction { reports, command: Command::Load { path: params.input.clone() } }
}

/// The instructions for the full-scale derivative.
fn full_scale_instructions(params: &Parameter, stem: &str) -> (r: Vec<Instruction>)
    ensures
        instruction_views(r@) == full_scale(params@, stem@),
{
    let mut instructions = Vec::new();
    let reports: Vec<Report> = Vec::new();
    assert(report_views(reports@) =~= Seq::<ReportView>::empty());
    instructions.push(
        Instruction {
            reports,
            command: Command::CreateDirectory { path: params.output_dir.clone() },
        },
    );
    instructions.push(
        announced("Encoding...", Command::Encode { quality: params.webp_parameter.quality }),
    );
    let mut name = stem.to_owned();
    name.append(".webp");
    instructions.push(
        announced(
            "Saving...",
            Command::Save { path: join(params.output_dir.as_str(), name.as_str()) },
        ),
    );
    assert(instruction_views(instructions@) =~= full_scale(params@, stem@));
    instructions
}

/// Appends the instructions for one scaled derivative.
fn push_rendering(
    instructions: &mut Vec<Instruction>,
    params: &Parameter,
    detail: &ResizedImageDetails,
)
    ensures
        instruction_views(final(instructions)@) == instruction_views(old(instructions)@)
            + rendering(params@, detail@),
{
    let mut text = "Resizing to ".to_owned();
    text.append(to_decimal(detail.width as u64).as_str());
    text.append("x");
    text.append(to_decimal(detail.height as u64).as_str());
    text.append(" ...");
    let mut reports = saved();
    reports.push(message(text.as_str()));
    assert(report_views(reports@) =~= saved_reports().push(
        ReportView::Message(resizing_message(detail.width as nat, detail.height as nat)),
    ));
    instructions.push(
        Instruction {
            reports,
            command: Command::Resize { width: detail.width, height: detail.height },
        },
    );
    instructions.push(
        announced("Encoding...", Command::Encode { quality: params.webp_parameter.quality }),
    );
    instructions.push(
        announced(
            "Saving...",
            Command::Save {
                path: join(params.output_dir.as_str(), detail.output_file_name.as_str()),
            },
        ),
    );
    assert(instruction_views(instructions@) =~= instruction_views(old(instructions)@) + rendering(
        params@,
        detail@,
    ));
}

/// The last instruction of a script.
fn conclusion_instruction(result: Result<(), ProcessingError>) -> (r: Instruction)
    ensures
        r@ == conclusion(result_view(result)),
{
    let text = match &result {
        Ok(()) => "Done!".to_owned(),
        Err(e) => {
            let mut text = "Error: ".to_owned();
            text.append(e.message.as_str());
            text
        },
    };
    let mut reports = saved();
    reports.push(Report::Finished(text));
    assert(report_views(reports@) =~= conclusion(result_view(result)).reports);
    Instruction { reports, command: Command::Finish { result } }
}

/// The instruction that ends a job early.
fn abort_instruction(failure: ProcessingError) -> (r: Instruction)
    ensures
        r@ == abort(failure@),
{
    let mut text = "Error: ".to_owned();
    text.append(failure.message.as_str());
    let mut reports = Vec::new();
    reports.push(Report::Finished(text));
    assert(report_views(reports@) =~= abort(failure@).reports);
    Instruction { reports, command: Command::Finish { result: Err(failure) } }
}

/// Where a processor stands.
#[derive(Clone, Copy, Debug, PartialEq, Eq, Structural)]
enum Stage {
    Created,
    Loading,
    Running,
    Finished,
}

/// Resizes and converts one input file to WebP, one instruction at a time.
///
/// Create it with `new`, tell it `Event::Started`, carry out the command of
/// each instruction it hands out and tell it what came of the command, until
/// the command is `Command::Finish`.
#[derive(Debug)]
pub struct SingleProcessor {
    params: Parameter,
    stage: Stage,
    stem: String,
    source_width: u32,
    source_height: u32,
    /// The instructions of the script that were not handed out yet.
    pending: Vec<Instruction>,
    /// The command that was handed out last.
    awaited: Command,
}

impl View for SingleProcessor {
    type V = ProcessorView;

    closed spec fn view(&self) -> ProcessorView {
        ProcessorView {
            job: self.params@,
            progress: match self.stage {
                Stage::Created => Progress::Created,
                Stage::Loading => Progress::Loading,
                Stage::Running => Progress::Running {
                    stem: self.stem@,
                    source_width: self.source_width as nat,
                    source_height: self.source_height as nat,
                    position: (self.whole().len() - self.pending.len()) as nat,
                },
                Stage::Finished => Progress::Finished,
            },
        }
    }
}

impl SingleProcessor {
    /// The script the processor works through.
    closed spec fn whole(&self) -> Seq<InstructionView> {
        script(
            self.params@,
            self.stem@,
            self.source_width as nat,
            self.source_height as nat,
        )
    }

    /// While the processor runs, what is pending is the rest of its script,
    /// and what it waits for is the command before that rest.
    #[verifier::type_invariant]
    closed spec fn wf(self) -> bool {
        self.stage == Stage::Running ==> {
            &&& 0 < self.pending.len() < self.whole().len()
            &&& instruction_views(self.pending@) == self.whole().skip(
                self.whole().len() - self.pending.len(),
            )
            &&& self.awaited@ == self.whole()[self.whole().len() - self.pending.len()
                - 1].command
        }
    }

    /// Creates the processor of a job. The caller says whether the input
    /// path leads to a regular file; if it does not, the job fails here with
    /// a `NotAFile` error.
    pub fn new(params: Parameter, input_is_file: bool) -> (r: Result<Self, ProcessingError>)
        ensures
            match r {
                Ok(processor) => input_is_file && processor@ == (ProcessorView {
                    job: params@,
                    progress: Progress::Created,
                }),
                Err(e) => !input_is_file && e@ == (Failure {
                    kind: ErrorKind::NotAFile,
                    message: not_a_file_message(params.input@),
                }),
            },
    {
        if !input_is_file {
            let mut text = "Given input (".to_owned();
            text.append(params.input.as_str());
            text.append(") is not a file!");
            return Err(ProcessingError { kind: ErrorKind::NotAFile, message: text });
        }
        Ok(
            SingleProcessor {
                params,
                stage: Stage::Created,
                stem: String::new(),
                source_width: 0,
                source_height: 0,
                pending: Vec::new(),
                awaited: Command::Encode { quality: 0 },
            },
        )
    }

    /// The parameter of the job.
    pub fn parameter(&self) -> (r: &Parameter)
        ensures
            r@ == self@.job,
    {
        &self.params
    }

    /// Whether the job has ended.
    pub fn is_finished(&self) -> (r: bool)
        ensures
            r == (self@.progress is Finished),
    {
        self.stage == Stage::Finished
    }

    /// Everything the job of these parameters does once its source, with
    /// the given stem and dimensions, is decoded, if nothing fails.
    pub fn instructions(
        params: &Parameter,
        stem: &str,
        source_width: u32,
        source_height: u32,
    ) -> (r: Vec<Instruction>)
        ensures
            instruction_views(r@) == script(
                params@,
                stem@,
                source_width as nat,
                source_height as nat,
            ),
    {
        let mut instructions = full_scale_instructions(params, stem);
        match ResizedImageDetails::from(
            params.input.as_str(),
            source_width,
            source_height,
            params.scale_count(),
        ) {
            Ok(details) => {
                let ghost plan = derivatives(details@);
                let mut remaining = details.len();
                assert(instruction_views(instructions@) + renderings(params@, plan, plan.len())
                    == full_scale(params@, stem@) + renderings(params@, plan, plan.len()));
                while remaining > 0
                    invariant
                        remaining <= details.len(),
                        plan == derivatives(details@),
                        instruction_views(instructions@) + renderings(
                            params@,
                            plan,
                            remaining as nat,
                        ) == full_scale(params@, stem@) + renderings(params@, plan, plan.len()),
                    decreases remaining,
                {
                    remaining -= 1;
                    let ghost before = instruction_views(instructions@);
                    push_rendering(&mut instructions, params, &details[remaining]);
                    proof {
                        let rest = renderings(params@, plan, remaining as nat);
                        let this = rendering(params@, plan[remaining as int]);
                        assert(renderings(params@, plan, (remaining + 1) as nat) == this + rest);
                        assert((before + this) + rest =~= before + (this + rest));
                    }
                }
                assert(renderings(params@, plan, 0) =~= Seq::<InstructionView>::empty());
                let ghost before = instruction_views(instructions@);
                instructions.push(conclusion_instruction(Ok(())));
                assert(instruction_views(instructions@) =~= before.push(conclusion(Ok(()))));
                assert(before =~= full_scale(params@, stem@) + renderings(
                    params@,
                    plan,
                    plan.len(),
                ));
                assert(instruction_views(instructions@) =~= full_scale(params@, stem@) + renderings(
                    params@,
                    plan,
                    plan.len(),
                ).push(conclusion(Ok(()))));
            },
            Err(e) => {
                let ghost before = instruction_views(instructions@);
                let ghost failure = e@;
                instructions.push(conclusion_instruction(Err(e)));
                assert(instruction_views(instructions@) =~= before + seq![
                    conclusion(Err(failure)),
                ]);
            },
        }
        instructions
    }

    /// The failure that the failing of a command amounts to.
    pub fn failure(command: &Command, message: String) -> (r: ProcessingError)
        ensures
            r@ == failure_of(command@, message@),
    {
        match command {
            Command::Load { path } => ProcessingError { kind: ErrorKind::DecodeFailure, message },
            Command::CreateDirectory { path } => {
                let mut text = "Could not create folder ".to_owned();
                text.append(path.as_str());
                text.append("! Error: ");
                text.append(message.as_str());
                ProcessingError { kind: ErrorKind::OutputDirectoryFailure, message: text }
            },
            Command::Resize { width, height } => ProcessingError {
                kind: ErrorKind::UnexpectedFault,
                message,
            },
            Command::Encode { quality } => ProcessingError {
                kind: ErrorKind::UnexpectedFault,
                message,
            },
            Command::Save { path } => ProcessingError { kind: ErrorKind::WriteFailure, message },
            Command::Finish { result } => ProcessingError {
                kind: ErrorKind::UnexpectedFault,
                message,
            },
        }
    }

    /// Ends the job early.
    fn stop(&mut self, failure: ProcessingError) -> (instruction: Instruction)
        ensures
            (final(self)@, instruction@) == stopped(old(self)@.job, failure@),
    {
        self.stage = Stage::Finished;
        abort_instruction(failure)
    }

    /// Ends the job for an event that answers nothing the processor asked.
    fn stop_unexpected(&mut self) -> (instruction: Instruction)
        ensures
            (final(self)@, instruction@) == stopped(old(self)@.job, unexpected_event()),
    {
        self.stop(
            ProcessingError::new(
                ErrorKind::UnexpectedFault,
                "The processor was told of something it had not asked for!",
            ),
        )
    }

    /// Runs the job to its end: hands every instruction to `perform`, the
    /// last one too, and takes what `perform` returns as the event that
    /// answers it. Returns the result that the last instruction carries.
    /// Whatever `perform` answers, the job ends, after no more instructions
    /// than `steps_left` says.
    ///
    /// Where the input has a file name and `perform` carries out every
    /// command, the job of a new processor ends as its plan says: well, if
    /// the plan can be made, and else with the failure of the planning.
    pub fn run<F: Fn(&Instruction) -> Event>(&mut self, perform: F) -> (r: Result<
        (),
        ProcessingError,
    >)
        requires
            forall|instruction: Instruction| call_requires(perform, (&instruction,)),
        ensures
            final(self)@ == (ProcessorView { job: old(self)@.job, progress: Progress::Finished }),
            forall|width: u32, height: u32|
                old(self)@.progress is Created && file_stem_of(old(self)@.job.input) is Some
                    && #[trigger] always_succeeds(perform, width, height) ==> result_view(r)
                    == result_of(old(self)@.job, width as nat, height as nat),
    {
        proof {
            use_type_invariant(&*self);
        }
        let mut event = Event::Started;
        loop
            invariant
                self@.job == old(self)@.job,
                self@.wf(),
                forall|instruction: Instruction| call_requires(perform, (&instruction,)),
                forall|width: u32, height: u32|
                    old(self)@.progress is Created && file_stem_of(old(self)@.job.input) is Some
                        && #[trigger] always_succeeds(perform, width, height) ==> on_track(
                        self@,
                        event,
                        width,
                        height,
                    ),
            decreases self@.steps_left(),
        {
            let ghost before = self@;
            let ghost answered = event;
            proof {
                lemma_step_nears_the_end(before, answered);
            }
            let instruction = self.next(event);
            event = perform(&instruction);
            proof {
                assert forall|width: u32, height: u32|
                    old(self)@.progress is Created && file_stem_of(old(self)@.job.input) is Some
                        && #[trigger] always_succeeds(
                        perform,
                        width,
                        height,
                    ) implies if instruction@.command is Finish {
                    instruction@.command == (CommandView::Finish {
                        result: result_of(before.job, width as nat, height as nat),
                    })
                } else {
                    on_track(self@, event, width, height)
                } by {
                    lemma_stays_on_track(before, answered, width, height);
                    assert(call_ensures(perform, (&instruction,), event));
                }
            }
            if let Command::Finish { result } = instruction.command {
                return result;
            }
        }
    }

    /// Takes the event that answers the last instruction and hands out the
    /// next one, as `step` lays down. The first event is `Event::Started`.
    /// An instruction whose command is `Command::Finish` is the last: it
    /// carries the result of the job.
    pub fn next(&mut self, event: Event) -> (instruction: Instruction)
        ensures
            (final(self)@, instruction@) == step(old(self)@, event),
    {
        proof {
            use_type_invariant(&*self);
        }
        match self.stage {
            Stage::Created => match event {
                Event::Started => {
                    self.stage = Stage::Loading;
                    loading_instruction(&self.params)
                },
                _ => self.stop_unexpected(),
            },
            Stage::Loading => match event {
                Event::Loaded { width, height } => match file_stem(self.params.input.as_str()) {
                    Some(stem) => {
                        let mut pending = Self::instructions(
                            &self.params,
                            stem.as_str(),
                            width,
                            height,
                        );
                        let ghost whole = script(
                            self.params@,
                            stem@,
                            width as nat,
                            height as nat,
                        );
                        let ghost views = instruction_views(pending@);
                        proof {
                            lemma_script_shape(self.params@, stem@, width as nat, height as nat);
                        }
                        let first = pending.remove(0);
                        assert(instruction_views(pending@) =~= whole.skip(1));
                        assert(first@ == views[0]);
                        self.awaited = first.command.duplicate();
                        self.stem = stem;
                        self.source_width = width;
                        self.source_height = height;
                        self.pending = pending;
                        self.stage = Stage::Running;
                        first
                    },
                    None => self.stop(
                        ProcessingError::new(
                            ErrorKind::NotAFile,
                            "File name could not be extracted!",
                        ),
                    ),
                },
                Event::Failed { message } => self.stop(
                    ProcessingError { kind: ErrorKind::DecodeFailure, message },
                ),
                _ => self.stop_unexpected(),
            },
            Stage::Running => match event {
                Event::Succeeded => {
                    let ghost whole = self.whole();
                    let ghost position = whole.len() - self.pending.len();
                    let ghost views = instruction_views(self.pending@);
                    self.stage = Stage::Finished;
                    let mut pending = Vec::new();
                    std::mem::swap(&mut pending, &mut self.pending);
                    let ghost handed = pending@;
                    let instruction = pending.remove(0);
                    assert(instruction@ == views[0]);
                    assert forall|j: int| 0 <= j < pending.len() implies instruction_views(
                        pending@,
                    )[j] == whole.skip(position + 1)[j] by {
                        assert(pending@[j] == handed[j + 1]);
                        assert(views[j + 1] == whole.skip(position)[j + 1]);
                    }
                    assert(instruction_views(pending@) =~= whole.skip(position + 1));
                    if pending.len() > 0 {
                        self.awaited = instruction.command.duplicate();
                        self.pending = pending;
                        self.stage = Stage::Running;
                    }
                    instruction
                },
                Event::Failed { message } => {
                    let failure = Self::failure(&self.awaited, message);
                    self.stop(failure)
                },
                _ => self.stop_unexpected(),
            },
            Stage::Finished => self.stop_unexpected(),
        }
    }
}

/// A script holds the three instructions of the full-scale derivative,
/// three for each scaled derivative of the plan, and the end.
pub proof fn lemma_script_shape(job: Job, stem: Seq<char>, source_width: nat, source_height: nat)
    ensures
        script(job, stem, source_width, source_height).len() >= 4,
        planning(job.input, source_width, source_height, job.scale_count) is Ok ==> script(
            job,
            stem,
            source_width,
            source_height,
        ).len() == 3 * job.scale_count + 4,
        planning(job.input, source_width, source_height, job.scale_count) is Err ==> script(
            job,
            stem,
            source_width,
            source_height,
        ).len() == 4,
{
    match planning(job.input, source_width, source_height, job.scale_count) {
        Ok(plan) => {
            lemma_renderings_len(job, plan, plan.len());
        },
        Err(e) => {},
    }
}

/// Each derivative takes three instructions.
proof fn lemma_renderings_len(job: Job, plan: Seq<Derivative>, count: nat)
    ensures
        renderings(job, plan, count).len() == 3 * count,
    decreases count,
{
    if count > 0 {
        lemma_renderings_len(job, plan, (count - 1) as nat);
    }
}

/// The rendering of derivatives never ends a job, and never loads a source.
proof fn lemma_renderings_never_finish(job: Job, plan: Seq<Derivative>, count: nat, index: int)
    requires
        0 <= index < renderings(job, plan, count).len(),
    ensures
        !(renderings(job, plan, count)[index].command is Finish),
        !(renderings(job, plan, count)[index].command is Load),
    decreases count,
{
    if count > 0 {
        if index >= 3 {
            lemma_renderings_never_finish(job, plan, (count - 1) as nat, index - 3);
        }
    }
}

/// A script ends a job once, with its last instruction.
pub proof fn lemma_script_ends_once(
    job: Job,
    stem: Seq<char>,
    source_width: nat,
    source_height: nat,
    index: int,
)
    requires
        0 <= index < script(job, stem, source_width, source_height).len(),
    ensures
        script(job, stem, source_width, source_height)[index].command is Finish <==> index + 1
            == script(job, stem, source_width, source_height).len(),
        index + 1 == script(job, stem, source_width, source_height).len() ==> script(
            job,
            stem,
            source_width,
            source_height,
        )[index] == conclusion(result_of(job, source_width, source_height)),
        !(script(job, stem, source_width, source_height)[index].command is Load),
{
    lemma_script_shape(job, stem, source_width, source_height);
    if index >= 3 {
        match planning(job.input, source_width, source_height, job.scale_count) {
            Ok(plan) => {
                lemma_renderings_len(job, plan, plan.len());
                if index - 3 < 3 * plan.len() {
                    lemma_renderings_never_finish(job, plan, plan.len(), index - 3);
                }
            },
            Err(e) => {},
        }
    }
}

/// Every step brings the end of the job nearer, whatever the event: a
/// processor that has not finished has fewer steps left after the step than
/// before it, and is finished when, and only when, the instruction of the
/// step is the one that ends the job. The job itself stays the same.
pub proof fn lemma_step_nears_the_end(before: ProcessorView, event: Event)
    requires
        before.wf(),
    ensures
        step(before, event).0.wf(),
        step(before, event).0.job == before.job,
        step(before, event).0.progress is Finished <==> step(before, event).1.command is Finish,
        !(before.progress is Finished) ==> step(before, event).0.steps_left()
            < before.steps_left(),
{
    match before.progress {
        Progress::Loading => {
            if let Event::Loaded { width, height } = event {
                if let Some(stem) = file_stem_of(before.job.input) {
                    lemma_script_shape(before.job, stem, width as nat, height as nat);
                    lemma_script_ends_once(before.job, stem, width as nat, height as nat, 0);
                }
            }
        },
        Progress::Running { stem, source_width, source_height, position } => {
            lemma_script_shape(before.job, stem, source_width, source_height);
            lemma_script_ends_once(
                before.job,
                stem,
                source_width,
                source_height,
                position as int,
            );
        },
        _ => {},
    }
}

/// A job of which every command is carried out stays on its way to the end
/// that its plan lays down.
proof fn lemma_stays_on_track(before: ProcessorView, event: Event, width: u32, height: u32)
    requires
        before.wf(),
        file_stem_of(before.job.input) is Some,
        on_track(before, event, width, height),
    ensures
        step(before, event).1.command is Finish ==> step(before, event).1.command
            == (CommandView::Finish {
            result: result_of(before.job, width as nat, height as nat),
        }),
        !(step(before, event).1.command is Finish) ==> on_track(
            step(before, event).0,
            if step(before, event).1.command is Load {
                Event::Loaded { width, height }
            } else {
                Event::Succeeded
            },
            width,
            height,
        ),
{
    match before.progress {
        Progress::Loading => {
            let stem = file_stem_of(before.job.input)->Some_0;
            lemma_script_shape(before.job, stem, width as nat, height as nat);
            lemma_script_ends_once(before.job, stem, width as nat, height as nat, 0);
        },
        Progress::Running { stem, source_width, source_height, position } => {
            lemma_script_shape(before.job, stem, source_width, source_height);
            lemma_script_ends_once(
                before.job,
                stem,
                source_width,
                source_height,
                position as int,
            );
        },
        _ => {},
    }
}

/// The saved paths of a script with one more instruction.
proof fn lemma_saved_paths_push(instructions: Seq<InstructionView>, last: InstructionView)
    ensures
        saved_paths(instructions.push(last)) == match last.command {
            CommandView::Save { path } => saved_paths(instructions).push(path),
            _ => saved_paths(instructions),
        },
{
    assert(instructions.push(last).drop_last() =~= instructions);
}

/// The saved paths of two scripts, one after the other.
proof fn lemma_saved_paths_add(first: Seq<InstructionView>, second: Seq<InstructionView>)
    ensures
        saved_paths(first + second) == saved_paths(first) + saved_paths(second),
    decreases second.len(),
{
    if second.len() == 0 {
        assert(first + second =~= first);
        assert(saved_paths(first) + saved_paths(second) =~= saved_paths(first));
    } else {
        lemma_saved_paths_add(first, second.drop_last());
        assert((first + second).drop_last() =~= first + second.drop_last());
        assert((first + second).last() == second.last());
        match second.last().command {
            CommandView::Save { path } => {
                assert((saved_paths(first) + saved_paths(second.drop_last())).push(path)
                    =~= saved_paths(first) + saved_paths(second.drop_last()).push(path));
            },
            _ => {},
        }
    }
}

/// Three instructions of which only the last saves, save one file.
proof fn lemma_saved_paths_of_three(
    first: InstructionView,
    second: InstructionView,
    third: InstructionView,
    path: Seq<char>,
)
    requires
        !(first.command is Save),
        !(second.command is Save),
        third.command == (CommandView::Save { path }),
    ensures
        saved_paths(seq![first, second, third]) == seq![path],
{
    let none = Seq::<InstructionView>::empty();
    lemma_saved_paths_push(none, first);
    lemma_saved_paths_push(none.push(first), second);
    lemma_saved_paths_push(none.push(first).push(second), third);
    assert(seq![first, second, third] =~= none.push(first).push(second).push(third));
    assert(Seq::<Seq<char>>::empty().push(path) =~= seq![path]);
}

/// The files that the rendering of derivatives writes.
proof fn lemma_renderings_save(job: Job, plan: Seq<Derivative>, count: nat)
    ensures
        saved_paths(renderings(job, plan, count)) == rendered_paths(job, plan, count),
    decreases count,
{
    if count > 0 {
        let derivative = plan[count - 1];
        let this = rendering(job, derivative);
        lemma_saved_paths_of_three(
            this[0],
            this[1],
            this[2],
            joined(job.output_dir, derivative.file_name),
        );
        assert(this =~= seq![this[0], this[1], this[2]]);
        lemma_renderings_save(job, plan, (count - 1) as nat);
        lemma_saved_paths_add(this, renderings(job, plan, (count - 1) as nat));
    }
}

/// The `Save` commands of a script name the files of the job, in order: the
/// full-scale derivative, then the scaled derivatives from the widest to the
/// narrowest.
pub proof fn lemma_script_saves_outputs(
    job: Job,
    stem: Seq<char>,
    source_width: nat,
    source_height: nat,
)
    ensures
        saved_paths(script(job, stem, source_width, source_height)) == output_paths(
            job,
            stem,
            source_width,
            source_height,
        ),
{
    let full = full_scale(job, stem);
    lemma_saved_paths_of_three(
        full[0],
        full[1],
        full[2],
        joined(job.output_dir, full_scale_name(stem)),
    );
    assert(full =~= seq![full[0], full[1], full[2]]);
    let rest = scaled(job, source_width, source_height);
    lemma_saved_paths_add(full, rest);
    match planning(job.input, source_width, source_height, job.scale_count) {
        Ok(plan) => {
            lemma_renderings_save(job, plan, plan.len());
            lemma_saved_paths_push(renderings(job, plan, plan.len()), conclusion(Ok(())));
        },
        Err(e) => {
            lemma_saved_paths_push(Seq::empty(), conclusion(Err(e)));
            assert(seq![conclusion(Err(e))] =~= Seq::<InstructionView>::empty().push(
                conclusion(Err(e)),
            ));
        },
    }
}

/// One file for each derivative that is rendered.
proof fn lemma_rendered_paths_len(job: Job, plan: Seq<Derivative>, count: nat)
    ensures
        rendered_paths(job, plan, count).len() == count,
    decreases count,
{
    if count > 0 {
        lemma_rendered_paths_len(job, plan, (count - 1) as nat);
    }
}

/// A job that can make its plan writes one file more than the scale count
/// says; one that cannot writes the full-scale derivative alone.
pub proof fn lemma_output_count(job: Job, stem: Seq<char>, source_width: nat, source_height: nat)
    ensures
        output_paths(job, stem, source_width, source_height).len() == if planning(
            job.input,
            source_width,
            source_height,
            job.scale_count,
        ) is Ok {
            job.scale_count + 1
        } else {
            1
        },
{
    match planning(job.input, source_width, source_height, job.scale_count) {
        Ok(plan) => {
            lemma_rendered_paths_len(job, plan, plan.len());
        },
        Err(e) => {},
    }
}

/// With a scale count of zero a job writes the full-scale derivative and
/// nothing else.
pub proof fn lemma_zero_scales_full_scale_only(
    job: Job,
    stem: Seq<char>,
    source_width: nat,
    source_height: nat,
)
    requires
        job.scale_count == 0,
    ensures
        output_paths(job, stem, source_width, source_height) == seq![
            joined(job.output_dir, full_scale_name(stem)),
        ],
{
    let plan = Seq::<Derivative>::empty();
    assert(rendered_paths(job, plan, 0) =~= Seq::<Seq<char>>::empty());
    assert(output_paths(job, stem, source_width, source_height) =~= seq![
        joined(job.output_dir, full_scale_name(stem)),
    ]);
}

/// The derivatives of a plan are rendered from its end.
proof fn lemma_rendered_paths_index(job: Job, plan: Seq<Derivative>, count: nat, index: int)
    requires
        0 <= index < count,
    ensures
        rendered_paths(job, plan, count).len() == count,
        rendered_paths(job, plan, count)[index] == joined(
            job.output_dir,
            plan[count - 1 - index].file_name,
        ),
    decreases count,
{
    lemma_rendered_paths_len(job, plan, count);
    lemma_rendered_paths_len(job, plan, (count - 1) as nat);
    if index > 0 {
        lemma_rendered_paths_index(job, plan, (count - 1) as nat, index - 1);
    }
}

/// The scaled derivatives are written from the widest to the narrowest: the
/// file that follows the full-scale derivative is the last of the plan, and
/// the last file is the first of the plan.
pub proof fn lemma_outputs_widest_first(
    job: Job,
    stem: Seq<char>,
    source_width: nat,
    source_height: nat,
    index: int,
)
    requires
        planning(job.input, source_width, source_height, job.scale_count) is Ok,
        0 <= index < job.scale_count,
    ensures
        output_paths(job, stem, source_width, source_height)[1 + index] == joined(
            job.output_dir,
            planning(job.input, source_width, source_height, job.scale_count)->Ok_0[job.scale_count
                - 1 - index].file_name,
        ),
{
    let plan = planning(job.input, source_width, source_height, job.scale_count)->Ok_0;
    lemma_rendered_paths_index(job, plan, plan.len(), index);
}

/// Running a job a second time leaves the files of the first run in place
/// and adds none: the files are written over, under the same names.
pub proof fn lemma_rerun_writes_same_files(
    listing: Set<Seq<char>>,
    job: Job,
    stem: Seq<char>,
    source_width: nat,
    source_height: nat,
)
    ensures
        written(
            written(listing, output_paths(job, stem, source_width, source_height)),
            output_paths(job, stem, source_width, source_height),
        ) == written(listing, output_paths(job, stem, source_width, source_height)),
{
    let paths = output_paths(job, stem, source_width, source_height);
    assert(written(written(listing, paths), paths) =~= written(listing, paths));
}

/// The number of increments with one more report.
proof fn lemma_increments_push(reports: Seq<ReportView>, last: ReportView)
    ensures
        increments(reports.push(last)) == increments(reports) + if last is Increment {
            1nat
        } else {
            0nat
        },
{
    assert(reports.push(last).drop_last() =~= reports);
}

/// The reports for a written file hold one increment.
proof fn lemma_saved_reports_increment()
    ensures
        increments(saved_reports()) == 1,
        forall|report: ReportView|
            !(report is Increment) ==> increments(#[trigger] saved_reports().push(report)) == 1,
        forall|report: ReportView|
            !(report is Increment) ==> increments(seq![report]) == 0,
        increments(Seq::empty()) == 0,
{
    let none = Seq::<ReportView>::empty();
    let done = ReportView::Message(saved_message());
    lemma_increments_push(none, done);
    lemma_increments_push(none.push(done), ReportView::Increment);
    assert(saved_reports() =~= none.push(done).push(ReportView::Increment));
    assert forall|report: ReportView| !(report is Increment) implies increments(
        #[trigger] saved_reports().push(report),
    ) == 1 by {
        lemma_increments_push(saved_reports(), report);
    }
    assert forall|report: ReportView| !(report is Increment) implies increments(seq![report])
        == 0 by {
        lemma_increments_push(none, report);
        assert(seq![report] =~= none.push(report));
    }
}

/// The number of increments of a script with one more instruction.
proof fn lemma_script_increments_push(instructions: Seq<InstructionView>, last: InstructionView)
    ensures
        script_increments(instructions.push(last)) == script_increments(instructions)
            + increments(last.reports),
{
    assert(instructions.push(last).drop_last() =~= instructions);
}

/// The number of increments of two scripts, one after the other.
proof fn lemma_script_increments_add(first: Seq<InstructionView>, second: Seq<InstructionView>)
    ensures
        script_increments(first + second) == script_increments(first) + script_increments(
            second,
        ),
    decreases second.len(),
{
    if second.len() == 0 {
        assert(first + second =~= first);
    } else {
        lemma_script_increments_add(first, second.drop_last());
        assert((first + second).drop_last() =~= first + second.drop_last());
        assert((first + second).last() == second.last());
    }
}

/// The number of increments of three instructions.
proof fn lemma_script_increments_of_three(
    first: InstructionView,
    second: InstructionView,
    third: InstructionView,
)
    ensures
        script_increments(seq![first, second, third]) == increments(first.reports) + increments(
            second.reports,
        ) + increments(third.reports),
{
    let none = Seq::<InstructionView>::empty();
    lemma_script_increments_push(none, first);
    lemma_script_increments_push(none.push(first), second);
    lemma_script_increments_push(none.push(first).push(second), third);
    assert(seq![first, second, third] =~= none.push(first).push(second).push(third));
}

/// The rendering of each derivative reports one increment: that of the file
/// written before it.
proof fn lemma_renderings_increments(job: Job, plan: Seq<Derivative>, count: nat)
    ensures
        script_increments(renderings(job, plan, count)) == count,
    decreases count,
{
    if count > 0 {
        let this = rendering(job, plan[count - 1]);
        lemma_saved_reports_increment();
        lemma_script_increments_of_three(this[0], this[1], this[2]);
        assert(this =~= seq![this[0], this[1], this[2]]);
        lemma_renderings_increments(job, plan, (count - 1) as nat);
        lemma_script_increments_add(this, renderings(job, plan, (count - 1) as nat));
    }
}

/// A script reports one increment for each file it writes.
pub proof fn lemma_one_increment_per_output(
    job: Job,
    stem: Seq<char>,
    source_width: nat,
    source_height: nat,
)
    ensures
        script_increments(script(job, stem, source_width, source_height)) == output_paths(
            job,
            stem,
            source_width,
            source_height,
        ).len(),
{
    let full = full_scale(job, stem);
    lemma_saved_reports_increment();
    lemma_script_increments_of_three(full[0], full[1], full[2]);
    assert(full =~= seq![full[0], full[1], full[2]]);
    let rest = scaled(job, source_width, source_height);
    lemma_script_increments_add(full, rest);
    lemma_output_count(job, stem, source_width, source_height);
    match planning(job.input, source_width, source_height, job.scale_count) {
        Ok(plan) => {
            lemma_renderings_increments(job, plan, plan.len());
            lemma_script_increments_push(renderings(job, plan, plan.len()), conclusion(Ok(())));
        },
        Err(e) => {
            lemma_script_increments_push(Seq::empty(), conclusion(Err(e)));
            assert(seq![conclusion(Err(e))] =~= Seq::<InstructionView>::empty().push(
                conclusion(Err(e)),
            ));
        },
    }
}

} // verus!
