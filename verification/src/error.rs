use vstd::prelude::*;

verus! {

/// The application-level errors the proxy surfaces to clients.
#[derive(Debug)]
pub enum RouterError {
    UserAlreadyExists,
    InvalidCredentials,
    IncorrectCredentials,
    MissingToken,
    InvalidToken,
    UnexpectedError,
}

/// The JSON body of an error reply.
#[derive(Debug)]
pub struct ErrorResponse {
    pub error: String,
}

impl RouterError {
    /// The HTTP status code each error is surfaced as.
    pub open spec fn spec_status_code(&self) -> u16 {
        match self {
            RouterError::UserAlreadyExists => 409,
            RouterError::InvalidCredentials => 400,
            RouterError::IncorrectCredentials => 401,
            RouterError::MissingToken => 400,
            RouterError::InvalidToken => 401,
            RouterError::UnexpectedError => 500,
        }
    }

    /// The message body each error is surfaced with.
    pub open spec fn spec_message(&self) -> Seq<char> {
        match self {
            RouterError::UserAlreadyExists => "User already exists"@,
            RouterError::InvalidCredentials => "Invalid credentials"@,
            RouterError::IncorrectCredentials => "Incorrect credentials"@,
            RouterError::MissingToken => "Missing auth token"@,
            RouterError::InvalidToken => "Invalid auth token"@,
            RouterError::UnexpectedError => "Unexpected error"@,
        }
    }

    pub fn status_code(&self) -> (r: u16)
        ensures
            r == self.spec_status_code(),
    {
        match self {
            RouterError::UserAlreadyExists => 409,
            RouterError::InvalidCredentials => 400,
            RouterError::IncorrectCredentials => 401,
            RouterError::MissingToken => 400,
            RouterError::InvalidToken => 401,
            RouterError::UnexpectedError => 500,
        }
    }

    pub fn error_message(&self) -> (r: String)
        ensures
            r@ == self.spec_message(),
    {
        match self {
            RouterError::UserAlreadyExists => "User already exists".to_owned(),
            RouterError::InvalidCredentials => "Invalid credentials".to_owned(),
            RouterError::IncorrectCredentials => "Incorrect credentials".to_owned(),
            RouterError::MissingToken => "Missing auth token".to_owned(),
            RouterError::InvalidToken => "Invalid auth token".to_owned(),
            RouterError::UnexpectedError => "Unexpected error".to_owned(),
        }
    }

    /// The status and body of the HTTP reply for this error, ready for
    /// the framework boundary to serialize.
    pub fn response_parts(&self) -> (r: (u16, ErrorResponse))
        ensures
            r.0 == self.spec_status_code(),
            r.1.error@ == self.spec_message(),
    {
        (self.status_code(), ErrorResponse { error: self.error_message() })
    }
}

} // verus!
