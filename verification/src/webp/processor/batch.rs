//! The batch coordinator: one job for each input file, and the account of
//! how the jobs ended.

use vstd::prelude::*;

use crate::error::{ErrorKind, Failure, ProcessingError};
use crate::path::{create_output_file_name, directory, directory_of, output_file_name_of};
use crate::webp::processor::{Job, Parameter};

verus! {

/// Contains all the required and optional parameter for the
/// `BatchProcessor`. Currently it is only a wrapper around the single
/// processor parameter, whose `input` is the directory of the batch.
#[derive(Clone, Debug)]
pub struct BatchParameter {
    pub single_params: Parameter,
}

/// The job of one file of a batch: the batch's parameter with the file as
/// input and, as output directory, the place of the file's directory in the
/// working directory of the batch. A file that does not lie under the input
/// directory of the batch has no job.
pub open spec fn job_of(batch: Job, file_name: Seq<char>) -> Result<Job, Failure> {
    match output_file_name_of(batch.input, directory_of(file_name)) {
        Ok(output_dir) => Ok(
            Job {
                input: file_name,
                output_dir,
                quality: batch.quality,
                scale_count: batch.scale_count,
                single_threaded: batch.single_threaded,
            },
        ),
        Err(message) => Err(Failure { kind: ErrorKind::UnexpectedFault, message }),
    }
}

/// What the making of a job stands for.
pub open spec fn job_view(r: Result<Parameter, ProcessingError>) -> Result<Job, Failure> {
    match r {
        Ok(params) => Ok(params@),
        Err(e) => Err(e@),
    }
}

/// How one job of a batch ended.
#[derive(Debug)]
pub struct JobOutcome {
    /// The path of the job's input file.
    pub path: String,
    pub result: Result<(), ProcessingError>,
}

/// An outcome as the contracts speak of it.
pub struct Outcome {
    pub path: Seq<char>,
    pub result: Result<(), Failure>,
}

/// What the result of a job stands for.
pub open spec fn outcome_of(result: Result<(), ProcessingError>) -> Result<(), Failure> {
    match result {
        Ok(()) => Ok(()),
        Err(e) => Err(e@),
    }
}

impl View for JobOutcome {
    type V = Outcome;

    open spec fn view(&self) -> Outcome {
        Outcome { path: self.path@, result: outcome_of(self.result) }
    }
}

/// The outcomes that a sequence of outcomes stands for.
pub open spec fn outcome_views(outcomes: Seq<JobOutcome>) -> Seq<Outcome> {
    outcomes.map_values(|o: JobOutcome| o@)
}

/// The number of jobs that succeeded.
pub open spec fn succeeded_count(outcomes: Seq<Outcome>) -> nat
    decreases outcomes.len(),
{
    if outcomes.len() == 0 {
        0
    } else {
        succeeded_count(outcomes.drop_last()) + if outcomes.last().result is Ok {
            1nat
        } else {
            0nat
        }
    }
}

/// The jobs that failed, in the order in which they were recorded.
pub open spec fn failed_jobs(outcomes: Seq<Outcome>) -> Seq<Outcome>
    decreases outcomes.len(),
{
    if outcomes.len() == 0 {
        Seq::empty()
    } else if outcomes.last().result is Err {
        failed_jobs(outcomes.drop_last()).push(outcomes.last())
    } else {
        failed_jobs(outcomes.drop_last())
    }
}

/// Every job of a batch either succeeded or failed.
pub proof fn lemma_outcomes_add_up(outcomes: Seq<Outcome>)
    ensures
        succeeded_count(outcomes) + failed_jobs(outcomes).len() == outcomes.len(),
    decreases outcomes.len(),
{
    if outcomes.len() > 0 {
        lemma_outcomes_add_up(outcomes.drop_last());
    }
}

/// How one job ended has no bearing on the account of the others: with the
/// outcome of one job exchanged, every other job that failed is still
/// reported as failed, with its path and its failure, and the number of
/// those that succeeded changes by that one job at most.
pub proof fn lemma_fault_isolation(outcomes: Seq<Outcome>, index: int, other: Outcome)
    requires
        0 <= index < outcomes.len(),
    ensures
        forall|i: int|
            0 <= i < outcomes.len() && i != index && outcomes[i].result is Err
                ==> failed_jobs(outcomes.update(index, other)).contains(#[trigger] outcomes[i]),
        succeeded_count(outcomes.update(index, other)) + if outcomes[index].result is Ok {
            1nat
        } else {
            0nat
        } == succeeded_count(outcomes) + if other.result is Ok {
            1nat
        } else {
            0nat
        },
    decreases outcomes.len(),
{
    let changed = outcomes.update(index, other);
    if index == outcomes.len() - 1 {
        assert(changed.drop_last() =~= outcomes.drop_last());
        assert forall|i: int|
            0 <= i < outcomes.len() && i != index && outcomes[i].result is Err implies failed_jobs(
            changed,
        ).contains(#[trigger] outcomes[i]) by {
            lemma_failed_jobs_complete(outcomes.drop_last(), i);
            lemma_failed_jobs_grow(changed);
        }
    } else {
        lemma_fault_isolation(outcomes.drop_last(), index, other);
        assert(changed.drop_last() =~= outcomes.drop_last().update(index, other));
        assert(changed.last() == outcomes.last());
        assert forall|i: int|
            0 <= i < outcomes.len() && i != index && outcomes[i].result is Err implies failed_jobs(
            changed,
        ).contains(#[trigger] outcomes[i]) by {
            lemma_failed_jobs_grow(changed);
            if i == outcomes.len() - 1 {
                assert(failed_jobs(changed).last() == outcomes[i]);
            } else {
                assert(outcomes.drop_last()[i] == outcomes[i]);
            }
        }
    }
}

/// A job that failed is among the failed jobs.
proof fn lemma_failed_jobs_complete(outcomes: Seq<Outcome>, index: int)
    requires
        0 <= index < outcomes.len(),
        outcomes[index].result is Err,
    ensures
        failed_jobs(outcomes).contains(outcomes[index]),
    decreases outcomes.len(),
{
    lemma_failed_jobs_grow(outcomes);
    if index == outcomes.len() - 1 {
        assert(failed_jobs(outcomes).last() == outcomes[index]);
    } else {
        lemma_failed_jobs_complete(outcomes.drop_last(), index);
        assert(outcomes.drop_last()[index] == outcomes[index]);
    }
}

/// What failed among all but the last job is among the failed jobs of all.
proof fn lemma_failed_jobs_grow(outcomes: Seq<Outcome>)
    requires
        outcomes.len() > 0,
    ensures
        forall|o: Outcome|
            failed_jobs(outcomes.drop_last()).contains(o) ==> #[trigger] failed_jobs(
                outcomes,
            ).contains(o),
{
    let before = failed_jobs(outcomes.drop_last());
    assert forall|o: Outcome| before.contains(o) implies #[trigger] failed_jobs(
        outcomes,
    ).contains(o) by {
        if outcomes.last().result is Err {
            let i = choose|i: int| 0 <= i < before.len() && before[i] == o;
            assert(before.push(outcomes.last())[i] == o);
        }
    }
}

/// The account of a batch: how each job ended, in the order in which the
/// jobs ended.
#[derive(Debug)]
pub struct BatchReport {
    pub outcomes: Vec<JobOutcome>,
}

impl View for BatchReport {
    type V = Seq<Outcome>;

    open spec fn view(&self) -> Seq<Outcome> {
        outcome_views(self.outcomes@)
    }
}

impl BatchReport {
    /// The account of a batch of which no job has ended yet.
    pub fn new() -> (r: Self)
        ensures
            r@ == Seq::<Outcome>::empty(),
    {
        let report = BatchReport { outcomes: Vec::new() };
        assert(report@ =~= Seq::<Outcome>::empty());
        report
    }

    /// Records how the job of the input file at `path` ended.
    pub fn record(&mut self, path: &str, result: Result<(), ProcessingError>)
        ensures
            final(self)@ == old(self)@.push(
                Outcome { path: path@, result: outcome_of(result) },
            ),
    {
        self.outcomes.push(JobOutcome { path: path.to_owned(), result });
        assert(self@ =~= old(self)@.push(
            Outcome { path: path@, result: outcome_of(result) },
        ));
    }

    /// The number of jobs that have ended.
    pub fn total(&self) -> (r: usize)
        ensures
            r == self@.len(),
    {
        self.outcomes.len()
    }

    /// The number of jobs that succeeded.
    pub fn succeeded(&self) -> (r: usize)
        ensures
            r == succeeded_count(self@),
    {
        let mut count: usize = 0;
        let mut i: usize = 0;
        while i < self.outcomes.len()
            invariant
                i <= self.outcomes.len(),
                count <= i,
                count == succeeded_count(self@.subrange(0, i as int)),
            decreases self.outcomes.len() - i,
        {
            proof {
                let next = self@.subrange(0, i + 1);
                assert(next.drop_last() =~= self@.subrange(0, i as int));
                assert(next.last() == self.outcomes[i as int]@);
            }
            if self.outcomes[i].result.is_ok() {
                count += 1;
            }
            i += 1;
        }
        assert(self@.subrange(0, i as int) =~= self@);
        count
    }

    /// The number of jobs that failed.
    pub fn failed(&self) -> (r: usize)
        ensures
            r == failed_jobs(self@).len(),
    {
        proof {
            lemma_outcomes_add_up(self@);
        }
        self.outcomes.len() - self.succeeded()
    }

    /// The jobs that failed, each with the path of its input file, in the
    /// order in which they were recorded.
    pub fn failures(&self) -> (r: Vec<&JobOutcome>)
        ensures
            r@.map_values(|o: &JobOutcome| o@) == failed_jobs(self@),
    {
        let mut failures: Vec<&JobOutcome> = Vec::new();
        let mut i: usize = 0;
        assert(failures@.map_values(|o: &JobOutcome| o@) =~= failed_jobs(
            self@.subrange(0, 0),
        ));
        while i < self.outcomes.len()
            invariant
                i <= self.outcomes.len(),
                failures@.map_values(|o: &JobOutcome| o@) == failed_jobs(
                    self@.subrange(0, i as int),
                ),
            decreases self.outcomes.len() - i,
        {
            let ghost before = failures@.map_values(|o: &JobOutcome| o@);
            proof {
                let next = self@.subrange(0, i + 1);
                assert(next.drop_last() =~= self@.subrange(0, i as int));
                assert(next.last() == self.outcomes[i as int]@);
            }
            if self.outcomes[i].result.is_err() {
                failures.push(&self.outcomes[i]);
                assert(failures@.map_values(|o: &JobOutcome| o@) =~= before.push(
                    self.outcomes[i as int]@,
                ));
            }
            i += 1;
        }
        assert(self@.subrange(0, i as int) =~= self@);
        failures
    }
}

/// Makes the jobs of a batch. How the jobs are run is the caller's business.
#[derive(Debug)]
pub struct BatchProcessor {
    params: BatchParameter,
}

impl View for BatchProcessor {
    type V = Job;

    closed spec fn view(&self) -> Job {
        self.params.single_params@
    }
}

impl BatchProcessor {
    /// Creates a new instance.
    pub fn new(params: BatchParameter) -> (r: Self)
        ensures
            r@ == params.single_params@,
    {
        Self { params }
    }

    /// Whether the jobs are to run one after the other, in the order of the
    /// input files.
    pub fn single_threaded(&self) -> (r: bool)
        ensures
            r == self@.single_threaded,
    {
        self.params.single_params.single_threaded
    }

    /// Makes the job of one input file. A file that does not lie under the
    /// input directory of the batch is an `UnexpectedFault` of its own job
    /// and of no other.
    pub fn job(&self, file_name: &str) -> (r: Result<Parameter, ProcessingError>)
        ensures
            job_view(r) == job_of(self@, file_name@),
    {
        let file_dir = directory(file_name);
        match create_output_file_name(self.params.single_params.input.as_str(), file_dir.as_str()) {
            Ok(output_dir) => Ok(
                Parameter {
                    webp_parameter: self.params.single_params.webp_parameter,
                    input: file_name.to_owned(),
                    output_dir,
                    scaled_images_count: self.params.single_params.scaled_images_count,
                    single_threaded: self.params.single_params.single_threaded,
                },
            ),
            Err(message) => Err(ProcessingError { kind: ErrorKind::UnexpectedFault, message }),
        }
    }

    /// Runs the jobs of all input files one after the other, in the order of
    /// the files, and returns the account of how they ended. `run_job` runs
    /// one job to its end. Every file gets its entry in the account, under
    /// its path: a file without a job fails with the failure of `job`, every
    /// other file ends as `run_job` ended for its job. No failure keeps the
    /// jobs that follow from being run.
    pub fn run_single_threaded<F: Fn(Parameter) -> Result<(), ProcessingError>>(
        &self,
        file_names: &Vec<String>,
        run_job: F,
    ) -> (report: BatchReport)
        requires
            forall|params: Parameter| call_requires(run_job, (params,)),
        ensures
            report@.len() == file_names.len(),
            forall|i: int|
                0 <= i < file_names.len() ==> (#[trigger] report@[i]).path == file_names[i]@,
            forall|i: int|
                0 <= i < file_names.len() ==> match job_of(self@, file_names[i]@) {
                    Ok(job) => exists|params: Parameter, result: Result<(), ProcessingError>|
                        params@ == job && call_ensures(run_job, (params,), result)
                            && (#[trigger] report@[i]).result == outcome_of(result),
                    Err(failure) => (#[trigger] report@[i]).result == Err::<(), Failure>(failure),
                },
    {
        let mut report = BatchReport::new();
        let mut i: usize = 0;
        while i < file_names.len()
            invariant
                i <= file_names.len(),
                report@.len() == i,
                forall|params: Parameter| call_requires(run_job, (params,)),
                forall|j: int| 0 <= j < i ==> (#[trigger] report@[j]).path == file_names[j]@,
                forall|j: int|
                    0 <= j < i ==> match job_of(self@, file_names[j]@) {
                        Ok(job) => exists|params: Parameter, result: Result<(), ProcessingError>|
                            params@ == job && call_ensures(run_job, (params,), result)
                                && (#[trigger] report@[j]).result == outcome_of(result),
                        Err(failure) => (#[trigger] report@[j]).result == Err::<(), Failure>(
                            failure,
                        ),
                    },
            decreases file_names.len() - i,
        {
            let ghost before = report@;
            let result = match self.job(file_names[i].as_str()) {
                Ok(params) => {
                    let ghost handed = params;
                    let result = run_job(params);
                    assert(handed@ == job_of(self@, file_names[i as int]@)->Ok_0
                        && call_ensures(run_job, (handed,), result));
                    result
                },
                Err(failure) => Err(failure),
            };
            report.record(file_names[i].as_str(), result);
            assert(forall|j: int| 0 <= j < i ==> report@[j] == before[j]);
            i += 1;
        }
        report
    }

    /// Makes the jobs of all input files, in the order of the files. There
    /// is one entry for each file, whatever becomes of the others.
    pub fn jobs(&self, file_names: &Vec<String>) -> (r: Vec<Result<Parameter, ProcessingError>>)
        ensures
            r.len() == file_names.len(),
            forall|i: int|
                0 <= i < r.len() ==> job_view(#[trigger] r[i]) == job_of(self@, file_names[i]@),
    {
        let mut jobs: Vec<Result<Parameter, ProcessingError>> = Vec::new();
        let mut i: usize = 0;
        while i < file_names.len()
            invariant
                i <= file_names.len(),
                jobs.len() == i,
                forall|j: int|
                    0 <= j < i ==> job_view(#[trigger] jobs[j]) == job_of(self@, file_names[j]@),
            decreases file_names.len() - i,
        {
            jobs.push(self.job(file_names[i].as_str()));
            i += 1;
        }
        jobs
    }
}

} // verus!
