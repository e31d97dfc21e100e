use vstd::prelude::*;

verus! {

#[verifier::external_type_specification]
#[verifier::external_body]
pub struct ExIoError(std::io::Error);

/// The errors that `nr` reports; each carries the process exit code it maps to.
#[derive(Debug)]
pub enum NrError {
    Message(String),
    MissingCommand(String),
    CommandFailed { command: String, code: i32 },
    Io { context: String, source: std::io::Error },
}

pub type Result<T> = core::result::Result<T, NrError>;

impl NrError {
    /// A plain message error.
    pub fn message(message: &str) -> (r: NrError)
        ensures
            r matches NrError::Message(m) && m@ == message@,
    {
        NrError::Message(message.to_owned())
    }

    /// The process exit code: 127 for a missing command, the command's own
    /// code for a failed command, 1 otherwise.
    pub fn exit_code(&self) -> (r: i32)
        ensures
            r == match self {
                NrError::MissingCommand(_) => 127,
                NrError::CommandFailed { code, .. } => *code,
                _ => 1i32,
            },
    {
        match self {
            NrError::MissingCommand(_) => 127,
            NrError::CommandFailed { code, .. } => *code,
            NrError::Message(_) => 1,
            NrError::Io { .. } => 1,
        }
    }
}


/// Trusted: the `Display` text of an I/O error (`<std::io::Error as
/// Display>::fmt`); it depends on the operating system's message for the
/// error, so nothing is promised of it.
#[verifier::external_body]
fn io_error_text(error: &std::io::Error) -> (r: String) {
    format!("{}", error)
}

impl NrError {
    /// The text an error is reported with.
    pub fn describe(&self) -> (r: String)
        ensures
            match self {
                NrError::Message(m) => r@ == m@,
                NrError::MissingCommand(c) => r@ == "required command not found: "@ + c@,
                NrError::CommandFailed { command, code } => r@ == "command failed with exit code "@
                    + crate::text::signed_decimal(*code as int) + ": "@ + command@,
                NrError::Io { context, .. } => exists|t: Seq<char>| r@ == context@ + ": "@ + t,
            },
    {
        match self {
            NrError::Message(m) => m.clone(),
            NrError::MissingCommand(c) => crate::text::concat("required command not found: ", c.as_str()),
            NrError::CommandFailed { command, code } => {
                let mut r = "command failed with exit code ".to_owned();
                r.append(crate::text::i32_to_string(*code).as_str());
                r.append(": ");
                r.append(command.as_str());
                r
            },
            NrError::Io { context, source } => {
                let t = io_error_text(source);
                let mut r = context.clone();
                r.append(": ");
                r.append(t.as_str());
                assert(r@ == context@ + ": "@ + t@);
                r
            },
        }
    }
}

/// Attaches what was being done to an I/O error.
pub trait IoContext<T>: Sized {
    fn with_context(self, context: &str) -> (r: Result<T>);
}

impl<T> IoContext<T> for core::result::Result<T, std::io::Error> {
    fn with_context(self, context: &str) -> (r: Result<T>)
        ensures
            match self {
                Ok(v) => r matches Ok(x) && x == v,
                Err(_) => r matches Err(NrError::Io { context: c, .. }) && c@ == context@,
            },
    {
        match self {
            Ok(v) => Ok(v),
            Err(source) => Err(NrError::Io { context: context.to_owned(), source }),
        }
    }
}

} // verus!
