//! The configuration of a run, its state, and the steps it is made of.

use queue::Queue;
use vstd::prelude::*;

use crate::fs::{create_output_directories, planned_directories};
use crate::path::{
    create_output_file_name_with_output_dir,
    output_file_name_in,
    result_text,
    with_extension,
    with_extension_of,
};
use crate::utils::text::{decimal, texts, to_decimal};
use crate::webp::processor::{BatchParameter, BatchProcessor, Job, Parameter};
use crate::webp::parameter::effective_quality;
use crate::webp::WebpParameter;
use crate::{collect_png_file_names, png_names};

verus! {

/// The FIFO queue of the `queue` crate.
#[verifier::external_type_specification]
#[verifier::external_body]
#[verifier::reject_recursive_types(T)]
pub struct ExQueue<T>(Queue<T>);

/// Converts the images (currently png only) of the input folder to WebP
/// format, in several sizes, and writes HTML5 `<picture>` tags for them.
#[derive(Clone, Debug)]
pub struct Config {
    /// The directory containing all images that should be processed.
    pub input_dir: String,
    /// The source image width is divided by this option (value + 1).
    /// Afterwards the source image is scaled (keeping the aspect ratio) to
    /// these widths before conversion.
    pub scaled_images_count: u8,
    /// Installs the converted and sized pictures into the given folder.
    pub install_images_into: Option<String>,
    /// The destination folder of HTML5 picture tag files.
    pub picture_tags_output_folder: Option<String>,
    /// Sets the mountpoint for links in the HTML tags.
    pub mountpoint: Option<String>,
    /// If true, existing files are overwritten.
    pub force_overwrite: bool,
    /// Defines the quality of the conversion.
    pub quality_webp: Option<u8>,
    /// If set, the processing is done single threaded.
    pub single_threaded: bool,
}

/// One step of a run.
#[derive(Clone, Copy, Debug, PartialEq, Eq, Structural)]
pub enum Step {
    /// Collect all png files of the input folder.
    CollectFileNames,
    /// Recreate the folder structure of the input directory in the working
    /// directory.
    CreateAllOutputDirectories,
    /// Copy the input folder to the working directory.
    CopyOriginalsToOutput,
    /// Resize and convert all input images.
    ProcessImages,
    /// Install the converted images into the install folder.
    InstallImagesInto,
    /// Save the `<picture>` tags to the tag folder.
    SaveHtmlPictureTags,
    /// Remove the working directory.
    CleanupTemporaryDirectory,
}

/// What to do with a file that is already there when a tree is copied.
#[derive(Clone, Copy, Debug, PartialEq, Eq, Structural)]
pub enum TransitDecision {
    Overwrite,
    Skip,
}

/// The steps that a queue holds, the next one first.
pub uninterp spec fn queue_steps(queue: Queue<Step>) -> Seq<Step>;

/// The limit that a queue was made with, if it was made with one.
pub uninterp spec fn queue_limit(queue: Queue<Step>) -> Option<usize>;

/// Calls `queue::Queue::new`, which makes an empty queue without a limit.
#[verifier::external_body]
fn new_queue() -> (queue: Queue<Step>)
    ensures
        queue_steps(queue) == Seq::<Step>::empty(),
        queue_limit(queue) is None,
{
    Queue::new()
}

/// Calls `queue::Queue::queue`, which puts the item at the end of the queue
/// and returns the new length, unless the queue has reached its limit: then
/// it returns the error and leaves the queue as it is. The queue rests on a
/// `Vec`, which cannot grow beyond `isize::MAX` bytes.
#[verifier::external_body]
fn enqueue(queue: &mut Queue<Step>, step: Step) -> (r: Result<usize, ()>)
    requires
        queue_steps(*old(queue)).len() < isize::MAX,
    ensures
        queue_limit(*final(queue)) == queue_limit(*old(queue)),
        match queue_limit(*old(queue)) {
            Some(limit) if queue_steps(*old(queue)).len() >= limit => r is Err && queue_steps(
                *final(queue),
            ) == queue_steps(*old(queue)),
            _ => r == Ok::<usize, ()>((queue_steps(*old(queue)).len() + 1) as usize)
                && queue_steps(*final(queue)) == queue_steps(*old(queue)).push(step),
        },
{
    queue.queue(step)
}

/// Calls `queue::Queue::dequeue`, which takes the first item off the queue,
/// or returns `None` where the queue is empty.
#[verifier::external_body]
fn dequeue(queue: &mut Queue<Step>) -> (r: Option<Step>)
    ensures
        queue_limit(*final(queue)) == queue_limit(*old(queue)),
        match r {
            Some(step) => queue_steps(*old(queue)).len() > 0 && step == queue_steps(
                *old(queue),
            )[0] && queue_steps(*final(queue)) == queue_steps(*old(queue)).drop_first(),
            None => queue_steps(*old(queue)).len() == 0 && queue_steps(*final(queue))
                == queue_steps(*old(queue)),
        },
{
    queue.dequeue()
}

/// Calls `queue::Queue::len`, the number of items in the queue.
#[verifier::external_body]
fn queue_len(queue: &Queue<Step>) -> (r: usize)
    ensures
        r == queue_steps(*queue).len(),
{
    queue.len()
}

/// The steps of a run, in order: the four that every run has, the
/// installation where an install folder is set, the tags where a tag folder
/// is set, and the cleanup.
pub open spec fn planned_steps(config: Config) -> Seq<Step> {
    seq![
        Step::CollectFileNames,
        Step::CreateAllOutputDirectories,
        Step::CopyOriginalsToOutput,
        Step::ProcessImages,
    ] + if config.install_images_into is Some {
        seq![Step::InstallImagesInto]
    } else {
        Seq::empty()
    } + if config.picture_tags_output_folder is Some {
        seq![Step::SaveHtmlPictureTags]
    } else {
        Seq::empty()
    } + seq![Step::CleanupTemporaryDirectory]
}

/// The prefix of the progress display: the current step and the number of
/// steps.
pub open spec fn prefix_of(current_step: nat, max_progress_steps: nat) -> Seq<char> {
    decimal(current_step) + "/"@ + decimal(max_progress_steps)
}

/// The job parameters that a configuration stands for, before a file is
/// chosen: the input directory as input and no output directory.
pub open spec fn batch_job(config: Config) -> Job {
    Job {
        input: config.input_dir@,
        output_dir: Seq::empty(),
        quality: effective_quality(config.quality_webp),
        scale_count: config.scaled_images_count as nat,
        single_threaded: config.single_threaded,
    }
}

/// The message of the step that creates the output directories.
pub open spec fn directories_message(temporary: bool, finished: bool) -> Seq<char> {
    if temporary {
        if finished {
            "Created all temporary output directories!"@
        } else {
            "Creating all temporary output directories..."@
        }
    } else {
        if finished {
            "Created all output directories!"@
        } else {
            "Creating all output directories..."@
        }
    }
}

/// The message of the step that has collected the files.
pub open spec fn collected_message(count: nat) -> Seq<char> {
    "Collected "@ + decimal(count) + " files!"@
}

/// The name of the tag file of an input file: the file's place in the tag
/// folder, with the extension `html`.
pub open spec fn tag_file_name_of(
    tag_folder: Seq<char>,
    input_dir: Seq<char>,
    file_name: Seq<char>,
) -> Result<Seq<char>, Seq<char>> {
    output_file_name_in(tag_folder, input_dir, with_extension_of(file_name, "html"@))
}

/// A copy of an optional string.
fn duplicate_text(value: &Option<String>) -> (r: Option<String>)
    ensures
        r == *value,
{
    match value {
        Some(text) => Some(text.clone()),
        None => None,
    }
}

impl Config {
    /// A copy of the configuration.
    pub fn duplicate(&self) -> (r: Self)
        ensures
            r == *self,
    {
        Config {
            input_dir: self.input_dir.clone(),
            scaled_images_count: self.scaled_images_count,
            install_images_into: duplicate_text(&self.install_images_into),
            picture_tags_output_folder: duplicate_text(&self.picture_tags_output_folder),
            mountpoint: duplicate_text(&self.mountpoint),
            force_overwrite: self.force_overwrite,
            quality_webp: self.quality_webp,
            single_threaded: self.single_threaded,
        }
    }

    /// What becomes of a file that is already there when the originals are
    /// copied or the images installed: it is overwritten where overwriting is
    /// forced, and skipped otherwise.
    pub fn transit_decision(&self) -> (r: TransitDecision)
        ensures
            r == if self.force_overwrite {
                TransitDecision::Overwrite
            } else {
                TransitDecision::Skip
            },
    {
        if self.force_overwrite {
            TransitDecision::Overwrite
        } else {
            TransitDecision::Skip
        }
    }

    /// The message of the step that creates the output directories, while it
    /// works and when it has finished. The directories are temporary where
    /// the images are installed elsewhere afterwards.
    pub fn output_directories_message(&self, finished: bool) -> (r: &'static str)
        ensures
            r@ == directories_message(self.install_images_into is Some, finished),
    {
        if self.install_images_into.is_some() {
            if finished {
                "Created all temporary output directories!"
            } else {
                "Creating all temporary output directories..."
            }
        } else {
            if finished {
                "Created all output directories!"
            } else {
                "Creating all output directories..."
            }
        }
    }

    /// Whether the working directory is removed at the end of a run: it is
    /// where the images are installed elsewhere, and it stays where it is
    /// itself the place of the images.
    pub fn removes_working_dir(&self) -> (r: bool)
        ensures
            r == (self.install_images_into is Some),
    {
        self.install_images_into.is_some()
    }

    /// Whether a tag file is to be written: always where there is none yet,
    /// and over an existing one only where overwriting is forced.
    pub fn writes_tag_file(&self, is_present: bool) -> (r: bool)
        ensures
            r == (!is_present || self.force_overwrite),
    {
        !is_present || self.force_overwrite
    }

    /// The name of the tag file of an input file. `None` where no tag folder
    /// is set; an error where the file does not lie under the input
    /// directory.
    pub fn tag_file_name(&self, file_name: &str) -> (r: Option<Result<String, String>>)
        ensures
            match self.picture_tags_output_folder {
                Some(folder) => r matches Some(name) && result_text(name) == tag_file_name_of(
                    folder@,
                    self.input_dir@,
                    file_name@,
                ),
                None => r is None,
            },
    {
        match &self.picture_tags_output_folder {
            Some(folder) => {
                proof {
                    reveal_strlit("html");
                }
                let output_name = with_extension(file_name, "html");
                Some(
                    create_output_file_name_with_output_dir(
                        folder.as_str(),
                        self.input_dir.as_str(),
                        output_name.as_str(),
                    ),
                )
            },
            None => None,
        }
    }
}

/// Contains the application state and config.
#[derive(Debug)]
pub struct State {
    pub config: Config,
    pub file_names_to_convert: Vec<String>,
    pub current_step: usize,
    pub max_progress_steps: usize,
}

impl State {
    /// Creates a new instance of the application state.
    pub fn new(config: Config, max_progress_steps: usize) -> (r: Self)
        ensures
            r.config == config,
            r.file_names_to_convert@ == Seq::<String>::empty(),
            r.current_step == 0,
            r.max_progress_steps == max_progress_steps,
    {
        Self { config, file_names_to_convert: Vec::new(), current_step: 0, max_progress_steps }
    }

    /// Takes the next step off the queue and sets the number of the current
    /// step: with `max_progress_steps` steps in all, the step that leaves a
    /// queue of `n` steps is number `max_progress_steps + 1 - n`.
    pub fn dequeue(&mut self, queue: &mut Queue<Step>) -> (r: Option<Step>)
        requires
            queue_steps(*old(queue)).len() <= old(self).max_progress_steps + 1 <= usize::MAX,
        ensures
            final(self).current_step == old(self).max_progress_steps + 1 - queue_steps(
                *old(queue),
            ).len(),
            final(self).max_progress_steps == old(self).max_progress_steps,
            final(self).config == old(self).config,
            final(self).file_names_to_convert == old(self).file_names_to_convert,
            queue_limit(*final(queue)) == queue_limit(*old(queue)),
            match r {
                Some(step) => queue_steps(*old(queue)).len() > 0 && step == queue_steps(
                    *old(queue),
                )[0] && queue_steps(*final(queue)) == queue_steps(*old(queue)).drop_first(),
                None => queue_steps(*old(queue)).len() == 0 && queue_steps(*final(queue))
                    == queue_steps(*old(queue)),
            },
    {
        self.current_step = self.max_progress_steps + 1 - queue_len(queue);
        dequeue(queue)
    }

    /// Takes the next step off the queue as `dequeue` does, where the queue
    /// holds no more steps than the state counts on. Of a longer queue, and
    /// of a state that counts on `usize::MAX` steps, it takes nothing and
    /// returns `None`.
    pub fn next_step(&mut self, queue: &mut Queue<Step>) -> (r: Option<Step>)
        ensures
            final(self).max_progress_steps == old(self).max_progress_steps,
            final(self).config == old(self).config,
            final(self).file_names_to_convert == old(self).file_names_to_convert,
            queue_limit(*final(queue)) == queue_limit(*old(queue)),
            queue_steps(*old(queue)).len() <= old(self).max_progress_steps + 1 <= usize::MAX
                ==> final(self).current_step == old(self).max_progress_steps + 1 - queue_steps(
                *old(queue),
            ).len() && match r {
                Some(step) => queue_steps(*old(queue)).len() > 0 && step == queue_steps(
                    *old(queue),
                )[0] && queue_steps(*final(queue)) == queue_steps(*old(queue)).drop_first(),
                None => queue_steps(*old(queue)).len() == 0 && queue_steps(*final(queue))
                    == queue_steps(*old(queue)),
            },
            !(queue_steps(*old(queue)).len() <= old(self).max_progress_steps + 1 <= usize::MAX)
                ==> r is None && final(self).current_step == old(self).current_step
                && queue_steps(*final(queue)) == queue_steps(*old(queue)),
    {
        if self.max_progress_steps < usize::MAX && queue_len(queue) <= self.max_progress_steps
            + 1 {
            self.dequeue(queue)
        } else {
            None
        }
    }

    /// Returns the prefix that is used in the progress display.
    pub fn get_prefix(&self) -> (r: String)
        ensures
            r@ == prefix_of(self.current_step as nat, self.max_progress_steps as nat),
    {
        let mut prefix = to_decimal(self.current_step as u64);
        prefix.append("/");
        prefix.append(to_decimal(self.max_progress_steps as u64).as_str());
        prefix
    }
}

/// Puts the steps of a run in a queue, in the order in which they are taken.
pub fn steps(config: &Config) -> (queue: Queue<Step>)
    ensures
        queue_steps(queue) == planned_steps(*config),
        queue_limit(queue) is None,
{
    let mut queue = new_queue();
    let _ = enqueue(&mut queue, Step::CollectFileNames);
    let _ = enqueue(&mut queue, Step::CreateAllOutputDirectories);
    let _ = enqueue(&mut queue, Step::CopyOriginalsToOutput);
    let _ = enqueue(&mut queue, Step::ProcessImages);
    if config.install_images_into.is_some() {
        let _ = enqueue(&mut queue, Step::InstallImagesInto);
    }
    if config.picture_tags_output_folder.is_some() {
        let _ = enqueue(&mut queue, Step::SaveHtmlPictureTags);
    }
    let _ = enqueue(&mut queue, Step::CleanupTemporaryDirectory);
    assert(queue_steps(queue) =~= planned_steps(*config));
    queue
}

/// Keeps the png files among the entries of the input folder as the files to
/// convert, and returns the message that says how many there are.
pub fn collect_file_names(state: &mut State, entries: &Vec<String>) -> (message: String)
    ensures
        texts(final(state).file_names_to_convert@) == png_names(texts(entries@)),
        final(state).config == old(state).config,
        final(state).current_step == old(state).current_step,
        final(state).max_progress_steps == old(state).max_progress_steps,
        message@ == collected_message(final(state).file_names_to_convert@.len()),
{
    state.file_names_to_convert = collect_png_file_names(entries);
    let mut message = "Collected ".to_owned();
    message.append(to_decimal(state.file_names_to_convert.len() as u64).as_str());
    message.append(" files!");
    message
}

/// The directories that recreate the folder structure of the input directory
/// in the working directory: one for each file to convert, in the order of
/// the files, up to the first file that has none. The second part of the
/// result is the error of that file.
pub fn create_all_output_directories(state: &State) -> (r: (Vec<String>, Option<String>))
    ensures
        planned_directories(
            state.config.input_dir@,
            texts(state.file_names_to_convert@),
            texts(r.0@),
            crate::path::text_of(r.1),
        ),
{
    create_output_directories(state.config.input_dir.as_str(), &state.file_names_to_convert)
}

/// Makes the batch processor of a run: every job gets the quality and the
/// scale count of the configuration.
pub fn process_images(state: &State) -> (r: BatchProcessor)
    ensures
        r@ == batch_job(state.config),
{
    let params = Parameter {
        webp_parameter: WebpParameter::new(state.config.quality_webp),
        input: state.config.input_dir.clone(),
        output_dir: String::new(),
        scaled_images_count: Some(state.config.scaled_images_count),
        single_threaded: state.config.single_threaded,
    };
    BatchProcessor::new(BatchParameter { single_params: params })
}

} // verus!
