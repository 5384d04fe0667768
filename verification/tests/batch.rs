use html5_picture::error::{ErrorKind, ProcessingError};
use html5_picture::webp::processor::batch::BatchReport;
use html5_picture::webp::processor::single::{Command, Event};
use html5_picture::webp::processor::{BatchParameter, BatchProcessor, Parameter, SingleProcessor};
use html5_picture::webp::WebpParameter;

fn batch(input_dir: &str, count: u8, single_threaded: bool) -> BatchProcessor {
    BatchProcessor::new(BatchParameter {
        single_params: Parameter {
            webp_parameter: WebpParameter::new(None),
            input: String::from(input_dir),
            output_dir: String::new(),
            scaled_images_count: Some(count),
            single_threaded,
        },
    })
}

/// Runs one job against a file system in which only `present` exist, all of
/// them images of 800x600, and returns the files it has written.
fn run_job(
    params: Parameter,
    present: &[&str],
    written: &mut Vec<String>,
) -> Result<(), ProcessingError> {
    let is_file = present.contains(&params.input.as_str());
    let mut processor = SingleProcessor::new(params, is_file)?;
    let mut event = Event::Started;
    loop {
        event = match processor.next(event).command {
            Command::Load { .. } => Event::Loaded { width: 800, height: 600 },
            Command::Save { path } => {
                written.push(path);
                Event::Succeeded
            }
            Command::Finish { result } => return result,
            _ => Event::Succeeded,
        };
    }
}

#[test]
fn one_missing_file_among_five_fails_alone() {
    let files: Vec<String> = ["in/1.png", "in/2.png", "in/sub/3.png", "in/sub/4.png", "in/5.png"]
        .iter()
        .map(|name| name.to_string())
        .collect();
    let present = ["in/1.png", "in/2.png", "in/sub/4.png", "in/5.png"];
    let coordinator = batch("in", 1, true);
    let mut report = BatchReport::new();
    let mut written = Vec::new();
    let jobs = coordinator.jobs(&files);
    assert_eq!(jobs.len(), 5);
    for (file, job) in files.iter().zip(jobs) {
        let result = match job {
            Ok(params) => run_job(params, &present, &mut written),
            Err(error) => Err(error),
        };
        report.record(file, result);
    }
    assert_eq!(report.total(), 5);
    assert_eq!(report.succeeded(), 4);
    assert_eq!(report.failed(), 1);
    let failures = report.failures();
    assert_eq!(failures.len(), 1);
    assert_eq!(failures[0].path, "in/sub/3.png");
    let error = failures[0].result.clone().unwrap_err();
    assert_eq!(error.kind, ErrorKind::NotAFile);
    assert_eq!(error.message, "Given input (in/sub/3.png) is not a file!");
    assert_eq!(
        written,
        vec![
            ".in-html5picture/1.webp",
            ".in-html5picture/1-w400.webp",
            ".in-html5picture/2.webp",
            ".in-html5picture/2-w400.webp",
            ".in-html5picture/sub/4.webp",
            ".in-html5picture/sub/4-w400.webp",
            ".in-html5picture/5.webp",
            ".in-html5picture/5-w400.webp",
        ]
    );
}

#[test]
fn a_sequential_batch_runs_every_job_in_order() {
    let files: Vec<String> = ["in/1.png", "in/2.png", "in/sub/3.png", "in/sub/4.png", "in/5.png"]
        .iter()
        .map(|name| name.to_string())
        .collect();
    let present = ["in/1.png", "in/2.png", "in/sub/4.png", "in/5.png"];
    let written = std::cell::RefCell::new(Vec::new());
    let started = std::cell::RefCell::new(Vec::new());
    let report = batch("in", 0, true).run_single_threaded(&files, |params| {
        started.borrow_mut().push(params.input.clone());
        run_job(params, &present, &mut written.borrow_mut())
    });
    assert_eq!(started.into_inner(), files);
    assert_eq!(report.total(), 5);
    assert_eq!(report.succeeded(), 4);
    assert_eq!(report.failed(), 1);
    let paths: Vec<&str> = report.outcomes.iter().map(|o| o.path.as_str()).collect();
    assert_eq!(paths, vec!["in/1.png", "in/2.png", "in/sub/3.png", "in/sub/4.png", "in/5.png"]);
    let failures = report.failures();
    assert_eq!(failures[0].path, "in/sub/3.png");
    assert_eq!(failures[0].result.clone().unwrap_err().kind, ErrorKind::NotAFile);
    assert_eq!(
        written.into_inner(),
        vec![
            ".in-html5picture/1.webp",
            ".in-html5picture/2.webp",
            ".in-html5picture/sub/4.webp",
            ".in-html5picture/5.webp",
        ]
    );
}

#[test]
fn a_sequential_batch_reports_files_without_job() {
    let files = vec![String::from("elsewhere/a.png"), String::from("in/b.png")];
    let runs = std::cell::Cell::new(0);
    let report = batch("in", 0, true).run_single_threaded(&files, |_| {
        runs.set(runs.get() + 1);
        Ok(())
    });
    assert_eq!(runs.get(), 1);
    assert_eq!(report.total(), 2);
    assert_eq!(report.succeeded(), 1);
    let failures = report.failures();
    assert_eq!(failures.len(), 1);
    assert_eq!(failures[0].path, "elsewhere/a.png");
    let error = failures[0].result.clone().unwrap_err();
    assert_eq!(error.kind, ErrorKind::UnexpectedFault);
    assert_eq!(error.message, "Could not remove base dir of elsewhere");
}

#[test]
fn every_file_gets_its_job() {
    let coordinator = batch("../assets", 3, false);
    assert!(!coordinator.single_threaded());
    let params = coordinator.job("../assets/some/picture.png").unwrap();
    assert_eq!(params.input, "../assets/some/picture.png");
    assert_eq!(params.output_dir, "../.assets-html5picture/some");
    assert_eq!(params.scaled_images_count, Some(3));
    assert_eq!(params.webp_parameter.quality, 70);
    assert!(!params.single_threaded);
    assert!(batch("a", 0, true).single_threaded());
    assert!(batch("a", 0, true).job("a/b/c.png").unwrap().single_threaded);
}

#[test]
fn a_file_outside_the_batch_fails_alone() {
    let coordinator = batch("assets", 2, true);
    let files = vec![
        String::from("assets/a.png"),
        String::from("elsewhere/b.png"),
        String::from("assets/x/c.png"),
    ];
    let jobs = coordinator.jobs(&files);
    assert_eq!(jobs.len(), 3);
    assert_eq!(jobs[0].as_ref().unwrap().input, "assets/a.png");
    let error = jobs[1].as_ref().unwrap_err();
    assert_eq!(error.kind, ErrorKind::UnexpectedFault);
    assert_eq!(error.message, "Could not remove base dir of elsewhere");
    assert_eq!(jobs[2].as_ref().unwrap().output_dir, ".assets-html5picture/x");
}

#[test]
fn a_batch_without_files_has_no_jobs() {
    let coordinator = batch("assets", 2, true);
    assert!(coordinator.jobs(&Vec::new()).is_empty());
    let report = BatchReport::new();
    assert_eq!(report.total(), 0);
    assert_eq!(report.succeeded(), 0);
    assert_eq!(report.failed(), 0);
    assert!(report.failures().is_empty());
}

#[test]
fn the_report_counts_what_was_recorded() {
    let mut report = BatchReport::new();
    report.record("a.png", Ok(()));
    report.record("b.png", Err(ProcessingError::new(ErrorKind::DecodeFailure, "corrupt")));
    report.record("c.png", Ok(()));
    report.record("d.png", Err(ProcessingError::new(ErrorKind::WriteFailure, "disk full")));
    report.record("e.png", Ok(()));
    assert_eq!(report.total(), 5);
    assert_eq!(report.succeeded(), 3);
    assert_eq!(report.failed(), 2);
    assert_eq!(report.succeeded() + report.failed(), report.total());
    let failures = report.failures();
    assert_eq!(failures.len(), 2);
    assert_eq!(failures[0].path, "b.png");
    assert_eq!(failures[0].result.clone().unwrap_err().kind, ErrorKind::DecodeFailure);
    assert_eq!(failures[1].path, "d.png");
    assert_eq!(failures[1].result.clone().unwrap_err().message, "disk full");
    assert_eq!(report.outcomes[4].path, "e.png");
}
