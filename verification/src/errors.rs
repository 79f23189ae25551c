use vstd::prelude::*;

verus! {

/// The error taxonomy of the authentication core.
///
/// `InvalidCredentials` deliberately covers both "no such user" and "wrong
/// password", and `InvalidToken` / `Unauthenticated` cover every way a token
/// can be rejected, so that a client probing the boundary learns nothing from
/// the shape of a failure.
#[derive(Clone, Copy, Debug, PartialEq, Eq, Structural)]
pub enum AuthError {
    ValidationFailure,
    DuplicateEmail,
    InvalidCredentials,
    InvalidToken,
    Unauthenticated,
    NotFound,
    StorageFailure,
    HashingFailure,
    VerificationFailure,
    TokenIssuanceFailure,
}

/// The HTTP status that each error maps to at the service boundary.
pub open spec fn status_spec(e: AuthError) -> u16 {
    match e {
        AuthError::ValidationFailure => 400,
        AuthError::DuplicateEmail => 409,
        AuthError::InvalidCredentials => 401,
        AuthError::InvalidToken => 401,
        AuthError::Unauthenticated => 401,
        AuthError::NotFound => 404,
        AuthError::StorageFailure => 500,
        AuthError::HashingFailure => 500,
        AuthError::VerificationFailure => 500,
        AuthError::TokenIssuanceFailure => 500,
    }
}

/// The client-visible message for each error. Internal failures all map to
/// fixed strings: no detail of the underlying fault ever reaches a response.
pub open spec fn message_spec(e: AuthError) -> Seq<char> {
    match e {
        AuthError::ValidationFailure => "email, full_name and a role of 'student' or 'instructor' are required"@,
        AuthError::DuplicateEmail => "Email already registered"@,
        AuthError::InvalidCredentials => "Invalid email or password"@,
        AuthError::InvalidToken => "Invalid token"@,
        AuthError::Unauthenticated => "Unauthorized"@,
        AuthError::NotFound => "User not found"@,
        AuthError::StorageFailure => "Database error"@,
        AuthError::HashingFailure => "Failed to hash password"@,
        AuthError::VerificationFailure => "Failed to verify password"@,
        AuthError::TokenIssuanceFailure => "Failed to create token"@,
    }
}

impl AuthError {
    /// The HTTP status code of this error.
    pub fn status(&self) -> (r: u16)
        ensures
            r == status_spec(*self),
    {
        match self {
            AuthError::ValidationFailure => 400,
            AuthError::DuplicateEmail => 409,
            AuthError::InvalidCredentials => 401,
            AuthError::InvalidToken => 401,
            AuthError::Unauthenticated => 401,
            AuthError::NotFound => 404,
            AuthError::StorageFailure => 500,
            AuthError::HashingFailure => 500,
            AuthError::VerificationFailure => 500,
            AuthError::TokenIssuanceFailure => 500,
        }
    }

    /// The client-visible message of this error.
    pub fn message(&self) -> (r: String)
        ensures
            r@ == message_spec(*self),
    {
        match self {
            AuthError::ValidationFailure => String::from_str("email, full_name and a role of 'student' or 'instructor' are required"),
            AuthError::DuplicateEmail => String::from_str("Email already registered"),
            AuthError::InvalidCredentials => String::from_str("Invalid email or password"),
            AuthError::InvalidToken => String::from_str("Invalid token"),
            AuthError::Unauthenticated => String::from_str("Unauthorized"),
            AuthError::NotFound => String::from_str("User not found"),
            AuthError::StorageFailure => String::from_str("Database error"),
            AuthError::HashingFailure => String::from_str("Failed to hash password"),
            AuthError::VerificationFailure => String::from_str("Failed to verify password"),
            AuthError::TokenIssuanceFailure => String::from_str("Failed to create token"),
        }
    }
}

/// The single narrowing step from an internal error to the client-visible
/// response: a status code and a fixed message, nothing else. Every handler
/// failure passes through here, so two failures that collapse to the same
/// variant are bit-identical on the wire.
pub fn error_response(e: AuthError) -> (r: (u16, String))
    ensures
        r.0 == status_spec(e),
        r.1@ == message_spec(e),
{
    (e.status(), e.message())
}

} // verus!
