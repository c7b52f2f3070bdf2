//! The errors that loading a presentation can end in.
use vstd::prelude::*;
use vstd::std_specs::convert::FromSpecImpl;
use vstd::string::StringExecFns;

verus! {

/// The I/O error of the standard library, carried through as an opaque
/// value.
#[verifier::external_type_specification]
#[verifier::external_body]
pub struct ExIoError(std::io::Error);

/// Why a presentation could not be loaded.
#[derive(Debug)]
pub enum AppError {
    /// The source could not be read; the cause is carried along.
    IoError(std::io::Error),
    /// The source was read but holds no slide.
    EmptyFile,
    /// The source is malformed; the text says how.
    ParseError(String),
}

impl From<std::io::Error> for AppError {
    fn from(err: std::io::Error) -> (r: AppError) {
        AppError::IoError(err)
    }
}

impl FromSpecImpl<std::io::Error> for AppError {
    open spec fn obeys_from_spec() -> bool {
        true
    }

    open spec fn from_spec(err: std::io::Error) -> AppError {
        AppError::IoError(err)
    }
}

/// Renders an I/O error as text, by the `Display` impl that the standard
/// library gives `std::io::Error`. Nothing is claimed of the text: it
/// depends on the error and on the platform that raised it.
#[verifier::external_body]
fn io_error_text(err: &std::io::Error) -> (text: String) {
    format!("{}", err)
}

/// The diagnostic for an I/O error whose cause reads `cause`.
pub open spec fn io_error_message_of(cause: Seq<char>) -> Seq<char> {
    "IO Error: "@ + cause
}

/// The report of a failure to load the source at `path`: the diagnostic,
/// then the path in parentheses.
pub open spec fn load_failure_report_of(path: Seq<char>, message: Seq<char>) -> Seq<char> {
    message + " ("@ + path + ")"@
}

/// The report of a source that could not be read holds the cause and the
/// path, each whole: the cause after the ten characters of the prefix, the
/// path between the parentheses at the end.
pub proof fn lemma_report_holds_cause_and_path(path: Seq<char>, cause: Seq<char>)
    ensures
        ({
            let text = load_failure_report_of(path, io_error_message_of(cause));
            &&& text.len() == 13 + cause.len() + path.len()
            &&& text.subrange(10, 10 + cause.len() as int) == cause
            &&& text.subrange(12 + cause.len() as int, 12 + cause.len() + path.len() as int) == path
        }),
{
    reveal_strlit("IO Error: ");
    reveal_strlit(" (");
    reveal_strlit(")");
    let text = load_failure_report_of(path, io_error_message_of(cause));
    assert(text.len() == 13 + cause.len() + path.len());
    assert(text.subrange(10, 10 + cause.len() as int) =~= cause);
    assert(text.subrange(12 + cause.len() as int, 12 + cause.len() + path.len() as int) =~= path);
}

/// The diagnostics of the three kinds of error differ, whatever their
/// details: each begins in its own way.
pub proof fn lemma_messages_differ(io: Seq<char>, empty: Seq<char>, parse: Seq<char>)
    requires
        "IO Error: "@.is_prefix_of(io),
        "Empty file or no slides found"@.is_prefix_of(empty),
        "Parse error: "@.is_prefix_of(parse),
    ensures
        io != empty,
        io != parse,
        empty != parse,
{
    reveal_strlit("IO Error: ");
    reveal_strlit("Empty file or no slides found");
    reveal_strlit("Parse error: ");
    assert(io[0] == "IO Error: "@[0]);
    assert(empty[0] == "Empty file or no slides found"@[0]);
    assert(parse[0] == "Parse error: "@[0]);
}

/// Writes the diagnostic for an I/O error out of the text of its cause.
pub fn io_error_message(cause: &str) -> (text: String)
    ensures
        text@ == "IO Error: "@ + cause@,
        text@ == io_error_message_of(cause@),
{
    String::from_str("IO Error: ").concat(cause)
}

/// Writes the report of a failure to load the source at `path`, out of the
/// diagnostic `message` of the error that it ended in.
pub fn load_failure_report(path: &str, message: &str) -> (text: String)
    ensures
        text@ == message@ + " ("@ + path@ + ")"@,
        text@ == load_failure_report_of(path@, message@),
{
    String::from_str(message).concat(" (").concat(path).concat(")")
}

impl AppError {
    /// How the diagnostic for this error begins. For `EmptyFile` this is
    /// the whole diagnostic; for the others the detail follows.
    pub open spec fn message_prefix(self) -> Seq<char> {
        match self {
            AppError::IoError(_) => "IO Error: "@,
            AppError::EmptyFile => "Empty file or no slides found"@,
            AppError::ParseError(_) => "Parse error: "@,
        }
    }

    /// The diagnostic for this error. For an I/O error it is what
    /// [`io_error_message`] makes of the cause's text, which is the
    /// platform's.
    pub fn message(&self) -> (text: String)
        ensures
            self.message_prefix().is_prefix_of(text@),
            match self {
                AppError::IoError(_) => exists|cause: Seq<char>|
                    text@ == io_error_message_of(cause),
                AppError::EmptyFile => text@ == self.message_prefix(),
                AppError::ParseError(detail) => text@ == self.message_prefix() + detail@,
            },
    {
        match self {
            AppError::IoError(err) => {
                let cause = io_error_text(err);
                let text = io_error_message(cause.as_str());
                assert(text@ == io_error_message_of(cause@));
                text
            },
            AppError::EmptyFile => String::from_str("Empty file or no slides found"),
            AppError::ParseError(detail) => String::from_str("Parse error: ").concat(
                detail.as_str(),
            ),
        }
    }

    /// The report of this error for the source at `path`: the diagnostic of
    /// the error, and for a source that could not be read the path too.
    pub fn report(&self, path: &str) -> (text: String)
        ensures
            match self {
                AppError::IoError(_) => exists|cause: Seq<char>|
                    text@ == load_failure_report_of(path@, io_error_message_of(cause)),
                AppError::EmptyFile => text@ == self.message_prefix(),
                AppError::ParseError(detail) => text@ == self.message_prefix() + detail@,
            },
    {
        match self {
            AppError::IoError(err) => {
                let cause = io_error_text(err);
                let message = io_error_message(cause.as_str());
                let text = load_failure_report(path, message.as_str());
                assert(text@ == load_failure_report_of(path@, io_error_message_of(cause@)));
                text
            },
            _ => self.message(),
        }
    }
}

} // verus!
