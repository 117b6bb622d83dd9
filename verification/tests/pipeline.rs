use grrs::cli::Cli;
use grrs::grrserror::{Category, Report, Wrap};
use grrs::pipeline::{
    check_args, get_contents, rejected, search_file, sink_result, start, step, Action, Event,
    ReadOutcome, Stage,
};
use std::io::Read;

/// What stands in for the outside of a run: the answer to the check of the
/// path, the bytes of the file if it can be opened, and how the sink behaves.
struct Outside {
    exists: Result<bool, String>,
    file: Result<Vec<u8>, String>,
    write: Result<(), String>,
    flush: Result<(), String>,
}

impl Outside {
    fn with_file(bytes: &[u8]) -> Outside {
        Outside { exists: Ok(true), file: Ok(bytes.to_vec()), write: Ok(()), flush: Ok(()) }
    }

    fn without_file() -> Outside {
        Outside {
            exists: Ok(false),
            file: Err("No such file or directory (os error 2)".to_string()),
            write: Ok(()),
            flush: Ok(()),
        }
    }
}

/// Runs the stages as a driver does, and gives back what reached standard
/// output and how the run ended.
fn run(pattern: &str, path: &str, outside: Outside) -> (Vec<u8>, Report) {
    let cli = match Cli::new(pattern.to_string(), path.to_string()) {
        Ok(cli) => cli,
        Err(failure) => return (vec![], Wrap(Err(failure)).report()),
    };
    let mut stdout = vec![];
    let mut pending = vec![];
    let (mut stage, mut action) = start();
    loop {
        let event = match action {
            Action::CheckPath => Event::PathChecked(outside.exists.clone()),
            Action::ReadFile => Event::FileRead(match &outside.file {
                Err(detail) => ReadOutcome::OpenFailed(detail.clone()),
                Ok(bytes) => {
                    let mut content = String::new();
                    match std::io::BufReader::new(&bytes[..]).read_to_string(&mut content) {
                        Ok(_) => ReadOutcome::Content(content),
                        Err(error) => ReadOutcome::ReadFailed(error.to_string()),
                    }
                }
            }),
            Action::Write(bytes) => {
                if outside.write.is_ok() {
                    pending = bytes;
                }
                Event::Written(outside.write.clone())
            }
            Action::Flush => {
                if outside.flush.is_ok() {
                    stdout.append(&mut pending);
                }
                Event::Flushed(outside.flush.clone())
            }
            Action::Exit(wrap) => {
                assert_eq!(stage, Stage::Done);
                return (stdout, wrap.report());
            }
        };
        (stage, action) = step(stage, &cli, event).unwrap();
    }
}

#[test]
fn file_doesnt_exist() {
    let (stdout, report) = run("foo", "does/not/exist.txt", Outside::without_file());
    assert_ne!(report.status, 0);
    assert!(report.diagnostic.unwrap().contains("path does not exists"));
    assert!(stdout.is_empty());
}

#[test]
fn no_match() {
    let file = "A test\nActual content\nMore content\nAnother test";
    let (stdout, report) = run("foobar", "temp_test.txt", Outside::with_file(file.as_bytes()));
    assert_eq!(report.status, 0);
    assert!(stdout.is_empty());
    assert_eq!(report.diagnostic, None);
}

#[test]
fn file_with_non_utf8() {
    let invalid = b"\xE0\x80\x80\n\xED\xBF\xBF\n\xF0\x80\x80\x80\n\xF4\xBF\xBF\xBF";
    let (stdout, report) = run("foobar", "temp_test.txt", Outside::with_file(invalid));
    assert_ne!(report.status, 0);
    let line = report.diagnostic.unwrap();
    assert!(line.contains("Error: error while reading file:"));
    assert!(line.contains("stream did not contain valid UTF-8"));
    assert!(stdout.is_empty());
}

#[test]
fn find_contents_in_file() {
    let file = "A test\nActual content\nMore content\nAnother test";
    let (stdout, report) = run("test", "temp_test.txt", Outside::with_file(file.as_bytes()));
    assert_eq!(report.status, 0);
    assert!(String::from_utf8(stdout).unwrap().contains("A test\nAnother test"));
}

#[test]
fn a_run_prints_the_matching_lines_and_nothing_else() {
    let (stdout, report) =
        run("lorem", "temp_test.txt", Outside::with_file(b"lorem ipsum\ndolor sit amet"));
    assert_eq!(stdout, b"lorem ipsum\n".to_vec());
    assert_eq!(report.status, 0);
    assert_eq!(report.diagnostic, None);
}

#[test]
fn a_run_without_matches_succeeds_with_empty_output() {
    let (stdout, report) =
        run("@@@", "temp_test.txt", Outside::with_file(b"lorem ipsum\ndolor sit amet"));
    assert_eq!(stdout, b"".to_vec());
    assert_eq!(report.status, 0);
}

#[test]
fn a_missing_path_ends_the_run_with_66() {
    let (stdout, report) = run("foo", "does/not/exist.txt", Outside::without_file());
    assert_eq!(report.status, 66);
    assert_eq!(report.diagnostic, Some("Error: path does not exists".to_string()));
    assert!(stdout.is_empty());
}

#[test]
fn undecodable_bytes_end_the_run_with_74() {
    let (stdout, report) = run("foobar", "temp_test.txt", Outside::with_file(b"ok\n\xff\xfe\n"));
    assert_eq!(report.status, 74);
    assert_eq!(
        report.diagnostic,
        Some(
            "Error: error while reading file: temp_test.txt: stream did not contain valid UTF-8"
                .to_string()
        )
    );
    assert!(stdout.is_empty());
}

#[test]
fn a_path_that_cannot_be_checked_ends_the_run_with_66() {
    let mut outside = Outside::with_file(b"never read");
    outside.exists = Err("Permission denied (os error 13)".to_string());
    let (stdout, report) = run("foo", "locked/file.txt", outside);
    assert_eq!(report.status, 66);
    assert_eq!(
        report.diagnostic,
        Some(
            "Error: while checking existince of path: Permission denied (os error 13)".to_string()
        )
    );
    assert!(stdout.is_empty());
}

#[test]
fn a_file_that_cannot_be_opened_ends_the_run_with_66() {
    let mut outside = Outside::without_file();
    outside.exists = Ok(true);
    let (stdout, report) = run("foo", "gone.txt", outside);
    assert_eq!(report.status, 66);
    assert_eq!(
        report.diagnostic,
        Some(
            "Error: could not read file: gone.txt: No such file or directory (os error 2)"
                .to_string()
        )
    );
    assert!(stdout.is_empty());
}

#[test]
fn a_failed_write_ends_the_run_with_74() {
    let mut outside = Outside::with_file(b"foo\nbar");
    outside.write = Err("Broken pipe (os error 32)".to_string());
    let (stdout, report) = run("foo", "temp_test.txt", outside);
    assert_eq!(report.status, 74);
    assert_eq!(report.diagnostic, Some("Error: Broken pipe (os error 32)".to_string()));
    assert!(stdout.is_empty());
}

#[test]
fn a_failed_flush_ends_the_run_with_74() {
    let mut outside = Outside::with_file(b"foo\nbar");
    outside.flush = Err("No space left on device (os error 28)".to_string());
    let (stdout, report) = run("foo", "temp_test.txt", outside);
    assert_eq!(report.status, 74);
    assert_eq!(
        report.diagnostic,
        Some("Error: No space left on device (os error 28)".to_string())
    );
    assert!(stdout.is_empty());
}

#[test]
fn an_empty_argument_ends_the_run_with_64() {
    let (_, report) = run("", "temp_test.txt", Outside::with_file(b"foo"));
    assert_eq!(report.status, 64);
    let (_, report) = run("foo", "", Outside::with_file(b"foo"));
    assert_eq!(report.status, 64);
}

#[test]
fn arguments_that_are_turned_down_end_the_run_with_64() {
    let report = rejected("error: Found argument '--nope' which wasn't expected".to_string())
        .report();
    assert_eq!(report.status, 64);
    assert_eq!(
        report.diagnostic,
        Some("Error: error: Found argument '--nope' which wasn't expected".to_string())
    );
}

#[test]
fn every_run_starts_with_the_check_of_the_path() {
    let (stage, action) = start();
    assert_eq!(stage, Stage::ValidateArgs);
    assert!(matches!(action, Action::CheckPath));
}

#[test]
fn the_stages_follow_one_another() {
    let cli = Cli::new("b".to_string(), "file.txt".to_string()).unwrap();
    let (stage, action) = step(Stage::ValidateArgs, &cli, Event::PathChecked(Ok(true))).unwrap();
    assert_eq!(stage, Stage::ReadFile);
    assert!(matches!(action, Action::ReadFile));
    let read = Event::FileRead(ReadOutcome::Content("a\nb\nabc".to_string()));
    let (stage, action) = step(Stage::ReadFile, &cli, read).unwrap();
    assert_eq!(stage, Stage::Search);
    match action {
        Action::Write(bytes) => assert_eq!(bytes, b"b\nabc\n".to_vec()),
        _ => panic!("the matches are to be written"),
    }
    let (stage, action) = step(Stage::Search, &cli, Event::Written(Ok(()))).unwrap();
    assert_eq!(stage, Stage::Flush);
    assert!(matches!(action, Action::Flush));
    let (stage, action) = step(Stage::Flush, &cli, Event::Flushed(Ok(()))).unwrap();
    assert_eq!(stage, Stage::Done);
    match action {
        Action::Exit(wrap) => assert!(wrap.is_ok()),
        _ => panic!("the run is over"),
    }
}

#[test]
fn a_failure_at_any_stage_ends_the_run() {
    let cli = Cli::new("b".to_string(), "file.txt".to_string()).unwrap();
    let failures = [
        (Stage::ValidateArgs, Event::PathChecked(Ok(false)), Category::NoInput),
        (Stage::ValidateArgs, Event::PathChecked(Err("denied".to_string())), Category::NoInput),
        (
            Stage::ReadFile,
            Event::FileRead(ReadOutcome::OpenFailed("denied".to_string())),
            Category::NoInput,
        ),
        (
            Stage::ReadFile,
            Event::FileRead(ReadOutcome::ReadFailed("bad bytes".to_string())),
            Category::IoError,
        ),
        (Stage::Search, Event::Written(Err("broken pipe".to_string())), Category::IoError),
        (Stage::Flush, Event::Flushed(Err("full".to_string())), Category::IoError),
    ];
    for (stage, event, category) in failures {
        let (stage, action) = step(stage, &cli, event).unwrap();
        assert_eq!(stage, Stage::Done);
        match action {
            Action::Exit(Wrap(Err(failure))) => assert_eq!(failure.category(), category),
            _ => panic!("a failure ends the run"),
        }
    }
}

#[test]
fn each_stage_takes_only_its_own_report() {
    let cli = Cli::new("b".to_string(), "file.txt".to_string()).unwrap();
    let stages = [Stage::ValidateArgs, Stage::ReadFile, Stage::Search, Stage::Flush, Stage::Done];
    for stage in stages {
        assert_eq!(
            step(stage, &cli, Event::PathChecked(Ok(true))).is_some(),
            stage == Stage::ValidateArgs
        );
        assert_eq!(
            step(stage, &cli, Event::FileRead(ReadOutcome::Content(String::new()))).is_some(),
            stage == Stage::ReadFile
        );
        assert_eq!(step(stage, &cli, Event::Written(Ok(()))).is_some(), stage == Stage::Search);
        assert_eq!(step(stage, &cli, Event::Flushed(Ok(()))).is_some(), stage == Stage::Flush);
    }
}

#[test]
fn nothing_follows_the_end_of_a_run() {
    let cli = Cli::new("b".to_string(), "file.txt".to_string()).unwrap();
    assert!(step(Stage::Done, &cli, Event::PathChecked(Ok(false))).is_none());
    assert!(step(Stage::Done, &cli, Event::Flushed(Err("late".to_string()))).is_none());
}

#[test]
fn check_args_decides_on_the_path() {
    assert!(check_args(Ok(true)).is_ok());
    let failure = check_args(Ok(false)).unwrap_err();
    assert_eq!(failure.cause(), "path does not exists");
    assert_eq!(failure.exit_code(), 66);
    let failure = check_args(Err("Permission denied (os error 13)".to_string())).unwrap_err();
    assert_eq!(
        failure.cause(),
        "while checking existince of path: Permission denied (os error 13)"
    );
    assert_eq!(failure.exit_code(), 66);
}

#[test]
fn get_contents_decides_on_the_reading() {
    let content = get_contents("a.txt", ReadOutcome::Content("text\n".to_string())).unwrap();
    assert_eq!(content, "text\n");
    let failure =
        get_contents("a.txt", ReadOutcome::OpenFailed("denied".to_string())).unwrap_err();
    assert_eq!(failure.cause(), "could not read file: a.txt: denied");
    assert_eq!(failure.exit_code(), 66);
    let failure =
        get_contents("a.txt", ReadOutcome::ReadFailed("bad bytes".to_string())).unwrap_err();
    assert_eq!(failure.cause(), "error while reading file: a.txt: bad bytes");
    assert_eq!(failure.exit_code(), 74);
}

#[test]
fn search_file_gives_the_bytes_to_print() {
    assert_eq!(
        search_file("A test\nActual content\nMore content\nAnother test", "test"),
        b"A test\nAnother test\n".to_vec()
    );
    assert_eq!(search_file("lorem ipsum\ndolor sit amet", "@@@"), b"".to_vec());
}

#[test]
fn sink_result_keeps_the_text_of_the_sink() {
    assert!(sink_result(Ok(())).is_ok());
    let failure = sink_result(Err("Broken pipe (os error 32)".to_string())).unwrap_err();
    assert_eq!(failure.cause(), "Broken pipe (os error 32)");
    assert_eq!(failure.category(), Category::IoError);
    assert_eq!(failure.exit_code(), 74);
}
