use std::io::{Error, ErrorKind};
use texpres::error::{io_error_message, load_failure_report};
use texpres::AppError;

#[test]
fn empty_file_message() {
    assert_eq!(AppError::EmptyFile.message(), "Empty file or no slides found");
}

#[test]
fn parse_error_message() {
    assert_eq!(AppError::ParseError("line 3".to_string()).message(), "Parse error: line 3");
    assert_eq!(AppError::ParseError(String::new()).message(), "Parse error: ");
}

#[test]
fn io_error_message_names_the_cause() {
    let error = AppError::IoError(Error::new(ErrorKind::NotFound, "no such deck"));
    assert_eq!(error.message(), "IO Error: no such deck");
}

#[test]
fn io_error_converts() {
    let error = AppError::from(Error::new(ErrorKind::PermissionDenied, "locked"));
    match &error {
        AppError::IoError(cause) => {
            assert_eq!(cause.kind(), ErrorKind::PermissionDenied);
            assert_eq!(cause.to_string(), "locked");
        }
        other => panic!("unexpected error: {:?}", other),
    }
    assert_eq!(error.message(), "IO Error: locked");
}

#[test]
fn question_mark_converts() {
    fn read() -> Result<String, AppError> {
        let failed: Result<String, Error> = Err(Error::new(ErrorKind::Other, "broken"));
        Ok(failed?)
    }
    assert!(matches!(read(), Err(AppError::IoError(_))));
}

#[test]
fn errors_can_be_printed_for_debugging() {
    assert_eq!(format!("{:?}", AppError::EmptyFile), "EmptyFile");
}

#[test]
fn io_error_message_puts_the_cause_after_the_prefix() {
    assert_eq!(io_error_message("No such file or directory (os error 2)"),
        "IO Error: No such file or directory (os error 2)");
    assert_eq!(io_error_message(""), "IO Error: ");
    assert_eq!(io_error_message("caf\u{e9}"), "IO Error: caf\u{e9}");
}

#[test]
fn load_failure_report_names_the_path() {
    assert_eq!(load_failure_report("deck.txt", "IO Error: denied"), "IO Error: denied (deck.txt)");
    assert_eq!(load_failure_report("", ""), " ()");
    assert_eq!(load_failure_report("a b/\u{fc}.txt", "x"), "x (a b/\u{fc}.txt)");
}

#[test]
fn report_of_an_io_error_holds_cause_and_path() {
    let error = AppError::from(Error::new(ErrorKind::NotFound, "no such deck"));
    assert_eq!(error.report("slides/talk.txt"), "IO Error: no such deck (slides/talk.txt)");
}

#[test]
fn report_of_the_other_errors_is_their_message() {
    assert_eq!(AppError::EmptyFile.report("talk.txt"), "Empty file or no slides found");
    assert_eq!(AppError::ParseError("bad".to_string()).report("talk.txt"), "Parse error: bad");
}

#[test]
fn the_three_diagnostics_differ() {
    let io = AppError::from(Error::new(ErrorKind::Other, "x")).message();
    let empty = AppError::EmptyFile.message();
    let parse = AppError::ParseError("x".to_string()).message();
    assert_ne!(io, empty);
    assert_ne!(io, parse);
    assert_ne!(empty, parse);
}
