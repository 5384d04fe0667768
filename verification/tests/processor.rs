use html5_picture::error::{ErrorKind, ProcessingError};
use html5_picture::webp::processor::single::{Command, Event, Instruction, Report};
use html5_picture::webp::processor::{Parameter, SingleProcessor};
use html5_picture::webp::WebpParameter;

fn job(input: &str, output_dir: &str, count: Option<u8>) -> Parameter {
    Parameter {
        webp_parameter: WebpParameter::new(Some(80)),
        input: String::from(input),
        output_dir: String::from(output_dir),
        scaled_images_count: count,
        single_threaded: false,
    }
}

/// What a run of a job has left behind.
struct Run {
    commands: Vec<String>,
    saved: Vec<String>,
    messages: Vec<String>,
    increments: usize,
    result: Result<(), ProcessingError>,
}

fn describe(command: &Command) -> String {
    match command {
        Command::Load { path } => format!("load {}", path),
        Command::CreateDirectory { path } => format!("mkdir {}", path),
        Command::Resize { width, height } => format!("resize {}x{}", width, height),
        Command::Encode { quality } => format!("encode {}", quality),
        Command::Save { path } => format!("save {}", path),
        Command::Finish { result } => format!("finish {}", result.is_ok()),
    }
}

/// Runs a job against a source of the given dimensions. The command with the
/// number `fail_at`, counted from 0, fails with the message "broken".
fn run(params: Parameter, dimensions: (u32, u32), fail_at: Option<usize>) -> Run {
    let mut processor = SingleProcessor::new(params, true).unwrap();
    let mut run = Run {
        commands: Vec::new(),
        saved: Vec::new(),
        messages: Vec::new(),
        increments: 0,
        result: Ok(()),
    };
    let mut event = Event::Started;
    loop {
        assert!(!processor.is_finished());
        let Instruction { reports, command } = processor.next(event);
        for report in reports {
            match report {
                Report::Prefix(text) => run.messages.push(format!("[{}]", text)),
                Report::Message(text) => run.messages.push(text),
                Report::Increment => run.increments += 1,
                Report::Finished(text) => run.messages.push(format!("<{}>", text)),
            }
        }
        let number = run.commands.len();
        run.commands.push(describe(&command));
        if let Command::Finish { result } = command {
            assert!(processor.is_finished());
            run.result = result;
            return run;
        }
        if fail_at == Some(number) {
            event = Event::Failed { message: String::from("broken") };
            continue;
        }
        event = match command {
            Command::Load { .. } => Event::Loaded { width: dimensions.0, height: dimensions.1 },
            Command::Save { path } => {
                run.saved.push(path);
                Event::Succeeded
            }
            _ => Event::Succeeded,
        };
    }
}

#[test]
fn job_of_6000_by_962_with_three_scales() {
    let run = run(job("assets/photo.png", "out", Some(3)), (6000, 962), None);
    assert_eq!(run.result, Ok(()));
    assert_eq!(
        run.commands,
        vec![
            "load assets/photo.png",
            "mkdir out",
            "encode 80",
            "save out/photo.webp",
            "resize 4500x721",
            "encode 80",
            "save out/photo-w4500.webp",
            "resize 3000x481",
            "encode 80",
            "save out/photo-w3000.webp",
            "resize 1500x240",
            "encode 80",
            "save out/photo-w1500.webp",
            "finish true",
        ]
    );
    assert_eq!(
        run.saved,
        vec![
            "out/photo.webp",
            "out/photo-w4500.webp",
            "out/photo-w3000.webp",
            "out/photo-w1500.webp"
        ]
    );
    assert_eq!(run.increments, 4);
    assert_eq!(
        run.messages,
        vec![
            "[assets/photo.png]",
            "Loading image...",
            "Encoding...",
            "Saving...",
            "...done!",
            "Resizing to 4500x721 ...",
            "Encoding...",
            "Saving...",
            "...done!",
            "Resizing to 3000x481 ...",
            "Encoding...",
            "Saving...",
            "...done!",
            "Resizing to 1500x240 ...",
            "Encoding...",
            "Saving...",
            "...done!",
            "<Done!>",
        ]
    );
}

#[test]
fn zero_scale_count_yields_the_full_scale_file_only() {
    for count in [Some(0), None] {
        let run = run(job("assets/photo.png", "out/dir", count), (6000, 962), None);
        assert_eq!(run.result, Ok(()));
        assert_eq!(run.saved, vec!["out/dir/photo.webp"]);
        assert_eq!(run.increments, 1);
        assert_eq!(
            run.commands,
            vec![
                "load assets/photo.png",
                "mkdir out/dir",
                "encode 80",
                "save out/dir/photo.webp",
                "finish true"
            ]
        );
        assert!(run.saved.iter().all(|path| !path.contains("-w")));
    }
}

#[test]
fn running_a_job_twice_writes_the_same_files() {
    let first = run(job("in/a.b.png", "out", Some(5)), (1921, 1080), None);
    let second = run(job("in/a.b.png", "out", Some(5)), (1921, 1080), None);
    assert_eq!(first.result, Ok(()));
    assert_eq!(second.result, Ok(()));
    assert_eq!(first.saved.len(), 6);
    assert_eq!(first.saved, second.saved);
    assert_eq!(first.commands, second.commands);
    let mut listing: std::collections::BTreeSet<String> = std::collections::BTreeSet::new();
    listing.insert(String::from("out/unrelated.txt"));
    listing.extend(first.saved.iter().cloned());
    let after_first = listing.clone();
    listing.extend(second.saved.iter().cloned());
    assert_eq!(listing, after_first);
    assert_eq!(listing.len(), 7);
}

#[test]
fn scaled_derivatives_are_rendered_widest_first() {
    let run = run(job("x.png", "o", Some(4)), (1000, 500), None);
    assert_eq!(
        run.saved,
        vec!["o/x.webp", "o/x-w800.webp", "o/x-w600.webp", "o/x-w400.webp", "o/x-w200.webp"]
    );
}

#[test]
fn one_increment_for_each_file() {
    for count in [0u8, 1, 2, 10, 255] {
        let run = run(job("x.png", "o", Some(count)), (5000, 4000), None);
        assert_eq!(run.result, Ok(()));
        assert_eq!(run.saved.len(), count as usize + 1);
        assert_eq!(run.increments, count as usize + 1);
        assert_eq!(run.commands.len(), 3 * count as usize + 5);
    }
}

#[test]
fn an_input_that_is_no_file_fails_at_once() {
    let error = SingleProcessor::new(job("assets/missing.png", "out", Some(3)), false).unwrap_err();
    assert_eq!(error.kind, ErrorKind::NotAFile);
    assert_eq!(error.message, "Given input (assets/missing.png) is not a file!");
}

#[test]
fn a_source_that_cannot_be_decoded_fails_the_job() {
    let run = run(job("assets/photo.png", "out", Some(3)), (6000, 962), Some(0));
    let error = run.result.unwrap_err();
    assert_eq!(error.kind, ErrorKind::DecodeFailure);
    assert_eq!(error.message, "broken");
    assert!(run.saved.is_empty());
    assert_eq!(run.increments, 0);
    assert_eq!(run.commands, vec!["load assets/photo.png", "finish false"]);
    assert_eq!(
        run.messages,
        vec!["[assets/photo.png]", "Loading image...", "<Error: broken>"]
    );
}

#[test]
fn an_output_directory_that_cannot_be_created_fails_the_job() {
    let run = run(job("assets/photo.png", "out", Some(3)), (6000, 962), Some(1));
    let error = run.result.unwrap_err();
    assert_eq!(error.kind, ErrorKind::OutputDirectoryFailure);
    assert_eq!(error.message, "Could not create folder out! Error: broken");
    assert!(run.saved.is_empty());
    assert_eq!(run.commands, vec!["load assets/photo.png", "mkdir out", "finish false"]);
}

#[test]
fn an_encoder_that_fails_is_an_unexpected_fault() {
    let run = run(job("assets/photo.png", "out", Some(3)), (6000, 962), Some(2));
    let error = run.result.unwrap_err();
    assert_eq!(error.kind, ErrorKind::UnexpectedFault);
    assert_eq!(error.message, "broken");
    assert!(run.saved.is_empty());
}

#[test]
fn a_file_that_cannot_be_written_fails_the_job() {
    let run = run(job("assets/photo.png", "out", Some(3)), (6000, 962), Some(3));
    let error = run.result.unwrap_err();
    assert_eq!(error.kind, ErrorKind::WriteFailure);
    assert_eq!(error.message, "broken");
    assert!(run.saved.is_empty());
    assert_eq!(run.increments, 0);
}

#[test]
fn a_failure_keeps_what_was_written_before() {
    // command 7 is the resizing of the second scaled derivative
    let run_resize = run(job("assets/photo.png", "out", Some(3)), (6000, 962), Some(7));
    let error = run_resize.result.unwrap_err();
    assert_eq!(error.kind, ErrorKind::UnexpectedFault);
    assert_eq!(run_resize.saved, vec!["out/photo.webp", "out/photo-w4500.webp"]);
    assert_eq!(run_resize.increments, 2);
    assert_eq!(run_resize.commands.last().unwrap(), "finish false");
    // command 9 is the writing of the second scaled derivative
    let run_save = run(job("assets/photo.png", "out", Some(3)), (6000, 962), Some(9));
    let error = run_save.result.unwrap_err();
    assert_eq!(error.kind, ErrorKind::WriteFailure);
    assert_eq!(run_save.saved, vec!["out/photo.webp", "out/photo-w4500.webp"]);
    assert_eq!(run_save.increments, 2);
    assert_eq!(run_save.messages.last().unwrap(), "<Error: broken>");
}

#[test]
fn a_source_without_width_fails_after_the_full_scale_file() {
    let run = run(job("assets/photo.png", "out", Some(3)), (0, 962), None);
    let error = run.result.unwrap_err();
    assert_eq!(error.kind, ErrorKind::InvalidImage);
    assert_eq!(error.message, "The image has a width of zero!");
    assert_eq!(run.saved, vec!["out/photo.webp"]);
    assert_eq!(run.increments, 1);
    assert_eq!(
        run.messages.last().unwrap(),
        "<Error: The image has a width of zero!>"
    );
}

#[test]
fn a_path_without_file_name_has_no_job() {
    let mut processor = SingleProcessor::new(job("assets/..", "out", Some(1)), true).unwrap();
    let first = processor.next(Event::Started);
    assert!(matches!(first.command, Command::Load { .. }));
    let second = processor.next(Event::Loaded { width: 10, height: 10 });
    match second.command {
        Command::Finish { result } => {
            let error = result.unwrap_err();
            assert_eq!(error.kind, ErrorKind::NotAFile);
            assert_eq!(error.message, "File name could not be extracted!");
        }
        _ => panic!("the job has to end"),
    }
    assert!(processor.is_finished());
}

#[test]
fn an_event_nobody_asked_for_ends_the_job() {
    let unexpected = "The processor was told of something it had not asked for!";
    let mut processor = SingleProcessor::new(job("a.png", "out", Some(1)), true).unwrap();
    match processor.next(Event::Succeeded).command {
        Command::Finish { result } => {
            let error = result.unwrap_err();
            assert_eq!(error.kind, ErrorKind::UnexpectedFault);
            assert_eq!(error.message, unexpected);
        }
        _ => panic!("the job has to end"),
    }
    assert!(processor.is_finished());
    // a finished processor stays finished
    match processor.next(Event::Started).command {
        Command::Finish { result } => {
            assert_eq!(result.unwrap_err().kind, ErrorKind::UnexpectedFault);
        }
        _ => panic!("the job has ended"),
    }
    let mut processor = SingleProcessor::new(job("a.png", "out", Some(1)), true).unwrap();
    processor.next(Event::Started);
    match processor.next(Event::Succeeded).command {
        Command::Finish { result } => {
            assert_eq!(result.unwrap_err().message, unexpected);
        }
        _ => panic!("the job has to end"),
    }
    let mut processor = SingleProcessor::new(job("a.png", "out", Some(1)), true).unwrap();
    processor.next(Event::Started);
    processor.next(Event::Loaded { width: 4, height: 4 });
    match processor.next(Event::Loaded { width: 4, height: 4 }).command {
        Command::Finish { result } => {
            assert_eq!(result.unwrap_err().message, unexpected);
        }
        _ => panic!("the job has to end"),
    }
}

#[test]
fn run_drives_the_job_to_its_end() {
    let saved = std::cell::RefCell::new(Vec::new());
    let shown = std::cell::Cell::new(0usize);
    let mut processor = SingleProcessor::new(job("in/pic.png", "out", Some(2)), true).unwrap();
    let result = processor.run(|instruction| {
        shown.set(shown.get() + instruction.reports.len());
        match &instruction.command {
            Command::Load { .. } => Event::Loaded { width: 900, height: 300 },
            Command::Save { path } => {
                saved.borrow_mut().push(path.clone());
                Event::Succeeded
            }
            _ => Event::Succeeded,
        }
    });
    assert_eq!(result, Ok(()));
    assert!(processor.is_finished());
    assert_eq!(
        saved.into_inner(),
        vec!["out/pic.webp", "out/pic-w600.webp", "out/pic-w300.webp"]
    );
    // prefix and loading, 3 x (encoding, saving, done, increment), 2 x resizing, the end
    assert_eq!(shown.get(), 2 + 12 + 2 + 1);
}

#[test]
fn run_ends_with_the_first_failure() {
    let commands = std::cell::Cell::new(0usize);
    let mut processor = SingleProcessor::new(job("in/pic.png", "out", Some(2)), true).unwrap();
    let result = processor.run(|instruction| {
        commands.set(commands.get() + 1);
        match &instruction.command {
            Command::Load { .. } => Event::Loaded { width: 900, height: 300 },
            Command::Resize { .. } => Event::Failed { message: String::from("out of memory") },
            _ => Event::Succeeded,
        }
    });
    let error = result.unwrap_err();
    assert_eq!(error.kind, ErrorKind::UnexpectedFault);
    assert_eq!(error.message, "out of memory");
    assert!(processor.is_finished());
    // load, mkdir, encode, save, resize, finish
    assert_eq!(commands.get(), 6);
}

#[test]
fn run_ends_whatever_it_is_told() {
    for count in [0u8, 3, 255] {
        let commands = std::cell::Cell::new(0usize);
        let mut processor = SingleProcessor::new(job("in/pic.png", "o", Some(count)), true).unwrap();
        let result = processor.run(|_| {
            commands.set(commands.get() + 1);
            Event::Started
        });
        assert_eq!(result.unwrap_err().kind, ErrorKind::UnexpectedFault);
        assert_eq!(commands.get(), 2);
        let commands = std::cell::Cell::new(0usize);
        let mut processor = SingleProcessor::new(job("in/pic.png", "o", Some(count)), true).unwrap();
        let result = processor.run(|instruction| {
            commands.set(commands.get() + 1);
            match &instruction.command {
                Command::Load { .. } => Event::Loaded { width: 7000, height: 1 },
                _ => Event::Succeeded,
            }
        });
        assert_eq!(result, Ok(()));
        assert_eq!(commands.get(), 3 * count as usize + 5);
        // a job that has ended does not start again
        let result = processor.run(|_| Event::Succeeded);
        assert_eq!(result.unwrap_err().kind, ErrorKind::UnexpectedFault);
    }
}

#[test]
fn instructions_are_the_script_of_a_job() {
    let params = job("in/pic.png", "out", Some(1));
    let instructions = SingleProcessor::instructions(&params, "pic", 100, 50);
    let commands: Vec<String> = instructions.iter().map(|i| describe(&i.command)).collect();
    assert_eq!(
        commands,
        vec![
            "mkdir out",
            "encode 80",
            "save out/pic.webp",
            "resize 50x25",
            "encode 80",
            "save out/pic-w50.webp",
            "finish true"
        ]
    );
    assert!(instructions[0].reports.is_empty());
    assert_eq!(instructions[3].reports.len(), 3);
    assert_eq!(instructions[6].reports.len(), 3);
}

#[test]
fn failures_are_classified_by_the_command() {
    let load = Command::Load { path: String::from("a.png") };
    let mkdir = Command::CreateDirectory { path: String::from("some/dir") };
    let resize = Command::Resize { width: 1, height: 1 };
    let encode = Command::Encode { quality: 1 };
    let save = Command::Save { path: String::from("a.webp") };
    let finish = Command::Finish { result: Ok(()) };
    let message = || String::from("why");
    assert_eq!(SingleProcessor::failure(&load, message()).kind, ErrorKind::DecodeFailure);
    assert_eq!(
        SingleProcessor::failure(&mkdir, message()),
        ProcessingError {
            kind: ErrorKind::OutputDirectoryFailure,
            message: String::from("Could not create folder some/dir! Error: why")
        }
    );
    assert_eq!(SingleProcessor::failure(&resize, message()).kind, ErrorKind::UnexpectedFault);
    assert_eq!(SingleProcessor::failure(&encode, message()).kind, ErrorKind::UnexpectedFault);
    assert_eq!(
        SingleProcessor::failure(&save, message()),
        ProcessingError { kind: ErrorKind::WriteFailure, message: String::from("why") }
    );
    assert_eq!(SingleProcessor::failure(&finish, message()).kind, ErrorKind::UnexpectedFault);
}

#[test]
fn errors_are_described_by_kind_and_message() {
    let error = ProcessingError::new(ErrorKind::WriteFailure, "disk full");
    assert_eq!(error.describe(), "WriteFailure: disk full");
    assert_eq!(error.duplicate(), error);
    assert_eq!(ErrorKind::NotAFile.label(), "NotAFile");
    assert_eq!(ErrorKind::DecodeFailure.label(), "DecodeFailure");
    assert_eq!(ErrorKind::InvalidImage.label(), "InvalidImage");
    assert_eq!(ErrorKind::OutputDirectoryFailure.label(), "OutputDirectoryFailure");
    assert_eq!(ErrorKind::UnexpectedFault.label(), "UnexpectedFault");
}

#[test]
fn commands_can_be_copied() {
    let save = Command::Save { path: String::from("a.webp") };
    assert_eq!(describe(&save.duplicate()), "save a.webp");
    let finish = Command::Finish {
        result: Err(ProcessingError::new(ErrorKind::WriteFailure, "no")),
    };
    match finish.duplicate() {
        Command::Finish { result } => assert_eq!(result.unwrap_err().message, "no"),
        _ => panic!("a copy has the variant of its original"),
    }
}

#[test]
fn the_processor_keeps_its_parameter() {
    let processor = SingleProcessor::new(job("a.png", "out", Some(2)), true).unwrap();
    assert_eq!(processor.parameter().input, "a.png");
    assert_eq!(processor.parameter().output_dir, "out");
    assert_eq!(processor.parameter().scaled_images_count, Some(2));
    assert!(!processor.is_finished());
}
