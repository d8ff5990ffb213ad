use vstd::prelude::*;

verus! {

/// The error of an input or output operation, carried as it is.
#[verifier::external_type_specification]
#[verifier::external_body]
pub struct ExIoError(std::io::Error);

/// What can go wrong while serving a request or starting the server.
#[derive(Debug)]
pub enum ApplicationError {
    /// The selector could not be read, or the markup could not be parsed.
    ParseError,
    /// The serialized fragment did not carry the wrapper that was to be removed.
    StringManipulationError,
    /// The server could not be started.
    ServerInitError(std::io::Error),
}

impl ApplicationError {
    /// The text shown for this error.
    pub open spec fn message_text(self) -> Seq<char> {
        match self {
            ApplicationError::ParseError => "Unable to parse HTML"@,
            ApplicationError::StringManipulationError => "Failed to manipulate string correctly"@,
            ApplicationError::ServerInitError(_) => "Server init error"@,
        }
    }

    /// The text shown for this error, as a string.
    pub fn message(&self) -> (text: String)
        ensures
            text@ == self.message_text(),
    {
        match self {
            ApplicationError::ParseError => "Unable to parse HTML".to_owned(),
            ApplicationError::StringManipulationError => {
                "Failed to manipulate string correctly".to_owned()
            },
            ApplicationError::ServerInitError(_) => "Server init error".to_owned(),
        }
    }
}

impl From<std::io::Error> for ApplicationError {
    fn from(cause: std::io::Error) -> (error: ApplicationError) {
        ApplicationError::ServerInitError(cause)
    }
}

impl vstd::std_specs::convert::FromSpecImpl<std::io::Error> for ApplicationError {
    open spec fn obeys_from_spec() -> bool {
        true
    }

    open spec fn from_spec(cause: std::io::Error) -> ApplicationError {
        ApplicationError::ServerInitError(cause)
    }
}

} // verus!
