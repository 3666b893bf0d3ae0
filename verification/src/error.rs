//! The failures of the library, by kind.

use vstd::prelude::*;

verus! {

/// A failure of the password hashing crate, carried through unread.
#[verifier::external_type_specification]
#[verifier::external_body]
pub struct ExBcryptError(bcrypt::BcryptError);

/// Why an operation failed.
#[derive(Debug)]
pub enum Error {
    /// No session, an invalid or expired one; or the organization does not
    /// exist or is not visible to the caller.
    Unauthorized(String),
    /// The caller is known and the organization visible, but the required
    /// scope is missing.
    Forbidden(String),
    /// A resource that the request names does not exist.
    NotFound(String),
    /// The request is malformed, or names an unknown scope.
    BadRequest(String),
    /// The row to create exists already.
    Conflict(String),
    /// The stored data contradicts itself.
    InvalidState(String),
    /// A stored name is no variant of its enumeration.
    UnknownEnumVariant,
    /// The verification token is unknown, or belongs to another user.
    UnknownToken,
    /// The verification token has expired.
    ExpiredToken,
    /// Password hashing failed.
    Bcrypt(bcrypt::BcryptError),
}

/// The kind of a failure, with its message as plain text.
pub enum ErrorView {
    Unauthorized(Seq<char>),
    Forbidden(Seq<char>),
    NotFound(Seq<char>),
    BadRequest(Seq<char>),
    Conflict(Seq<char>),
    InvalidState(Seq<char>),
    UnknownEnumVariant,
    UnknownToken,
    ExpiredToken,
    Bcrypt,
}

impl View for Error {
    type V = ErrorView;

    open spec fn view(&self) -> ErrorView {
        match self {
            Error::Unauthorized(m) => ErrorView::Unauthorized(m@),
            Error::Forbidden(m) => ErrorView::Forbidden(m@),
            Error::NotFound(m) => ErrorView::NotFound(m@),
            Error::BadRequest(m) => ErrorView::BadRequest(m@),
            Error::Conflict(m) => ErrorView::Conflict(m@),
            Error::InvalidState(m) => ErrorView::InvalidState(m@),
            Error::UnknownEnumVariant => ErrorView::UnknownEnumVariant,
            Error::UnknownToken => ErrorView::UnknownToken,
            Error::ExpiredToken => ErrorView::ExpiredToken,
            Error::Bcrypt(_) => ErrorView::Bcrypt,
        }
    }
}

impl ErrorView {
    /// The text that describes a failure of this kind; `None` for a failure
    /// of the hashing crate, which words its own.
    pub open spec fn text(self) -> Option<Seq<char>> {
        match self {
            ErrorView::Unauthorized(m) => Some("Unauthorized: "@ + m),
            ErrorView::Forbidden(m) => Some("Forbidden: "@ + m),
            ErrorView::NotFound(m) => Some("Not found: "@ + m),
            ErrorView::BadRequest(m) => Some("Bad request: "@ + m),
            ErrorView::Conflict(m) => Some("Conflict: "@ + m),
            ErrorView::InvalidState(m) => Some("Invalid state: "@ + m),
            ErrorView::UnknownEnumVariant => Some("Unknown enum variant"@),
            ErrorView::UnknownToken => Some("Unknown token"@),
            ErrorView::ExpiredToken => Some("Token has expired"@),
            ErrorView::Bcrypt => None,
        }
    }

    /// The HTTP status that answers a failure of this kind.
    pub open spec fn status(self) -> int {
        match self {
            ErrorView::Unauthorized(_) => 401,
            ErrorView::Forbidden(_) => 403,
            ErrorView::NotFound(_) => 404,
            ErrorView::BadRequest(_) => 400,
            ErrorView::Conflict(_) => 409,
            ErrorView::InvalidState(_) => 500,
            ErrorView::UnknownEnumVariant => 500,
            ErrorView::UnknownToken => 500,
            ErrorView::ExpiredToken => 500,
            ErrorView::Bcrypt => 500,
        }
    }
}

/// The message of the failure to create a row whose key is taken.
pub open spec fn taken_text() -> Seq<char> {
    "A row with this key exists already"@
}

/// The message of the failure to resolve a session.
pub open spec fn no_session_text() -> Seq<char> {
    "Session does not exist or has expired"@
}

/// The message of the failure to find the organization of a request.
pub open spec fn no_org_text() -> Seq<char> {
    "The requested organization does not exist or the user has no access"@
}

/// The message of the failure to find the membership that a request names.
pub open spec fn no_member_text() -> Seq<char> {
    "The user is not a member of the organization"@
}

/// The message of the failure to use a row that is gone.
pub open spec fn gone_text() -> Seq<char> {
    "The row that the handle names does not exist"@
}

/// The message of the failure to compute an expiry from the clock.
pub open spec fn clock_text() -> Seq<char> {
    "The clock is out of range"@
}

/// The message of the failure to find the user that a request names.
pub open spec fn no_user_text() -> Seq<char> {
    "User not found"@
}

/// The message of the failure to read the authentication method of a request.
pub open spec fn bad_method_text() -> Seq<char> {
    "Invalid authentication method"@
}

/// The message of the failure to find the secret in a request.
pub open spec fn no_secret_text() -> Seq<char> {
    "Missing authentication"@
}

/// The message that names a text which is no scope.
pub open spec fn bad_scope_text(name: Seq<char>) -> Seq<char> {
    "Unknown scope '"@ + name + "'"@
}

/// The message that names a member without a user row.
pub open spec fn dangling_text(user: Seq<char>, org: Seq<char>) -> Seq<char> {
    "User "@ + user + " is linked to organization "@ + org + ", but does not exist"@
}

/// The text that `bcrypt::BcryptError` prints for itself, through its
/// `Display`. Nothing is claimed of the text.
#[verifier::external_body]
fn bcrypt_error_text(e: &bcrypt::BcryptError) -> (text: String) {
    format!("{}", e)
}

impl Error {
    /// The text that describes the failure: its kind and its message.
    pub fn message(&self) -> (text: String)
        ensures
            self@.text() is Some ==> text@ == self@.text()->Some_0,
    {
        match self {
            Error::Unauthorized(m) => String::from_str("Unauthorized: ").concat(m.as_str()),
            Error::Forbidden(m) => String::from_str("Forbidden: ").concat(m.as_str()),
            Error::NotFound(m) => String::from_str("Not found: ").concat(m.as_str()),
            Error::BadRequest(m) => String::from_str("Bad request: ").concat(m.as_str()),
            Error::Conflict(m) => String::from_str("Conflict: ").concat(m.as_str()),
            Error::InvalidState(m) => String::from_str("Invalid state: ").concat(m.as_str()),
            Error::UnknownEnumVariant => String::from_str("Unknown enum variant"),
            Error::UnknownToken => String::from_str("Unknown token"),
            Error::ExpiredToken => String::from_str("Token has expired"),
            Error::Bcrypt(e) => bcrypt_error_text(e),
        }
    }

    /// The failure to create a row whose key is taken.
    pub fn taken() -> (e: Error)
        ensures
            e@ == ErrorView::Conflict(taken_text()),
    {
        Error::Conflict(String::from_str("A row with this key exists already"))
    }

    /// The failure to resolve a session.
    pub fn no_session() -> (e: Error)
        ensures
            e@ == ErrorView::Unauthorized(no_session_text()),
    {
        Error::Unauthorized(String::from_str("Session does not exist or has expired"))
    }

    /// The failure to find the organization of a request.
    pub fn no_org() -> (e: Error)
        ensures
            e@ == ErrorView::Unauthorized(no_org_text()),
    {
        Error::Unauthorized(
            String::from_str("The requested organization does not exist or the user has no access"),
        )
    }

    /// The failure to find the membership that a request names.
    pub fn no_member() -> (e: Error)
        ensures
            e@ == ErrorView::NotFound(no_member_text()),
    {
        Error::NotFound(String::from_str("The user is not a member of the organization"))
    }

    /// The failure to use a row that is gone.
    pub fn gone() -> (e: Error)
        ensures
            e@ == ErrorView::InvalidState(gone_text()),
    {
        Error::InvalidState(String::from_str("The row that the handle names does not exist"))
    }

    /// The failure to compute an expiry from the clock.
    pub fn clock() -> (e: Error)
        ensures
            e@ == ErrorView::InvalidState(clock_text()),
    {
        Error::InvalidState(String::from_str("The clock is out of range"))
    }

    /// The failure to find the user that a request names.
    pub fn no_user() -> (e: Error)
        ensures
            e@ == ErrorView::NotFound(no_user_text()),
    {
        Error::NotFound(String::from_str("User not found"))
    }

    /// The failure to read the authentication method of a request.
    pub fn bad_method() -> (e: Error)
        ensures
            e@ == ErrorView::BadRequest(bad_method_text()),
    {
        Error::BadRequest(String::from_str("Invalid authentication method"))
    }

    /// The failure to find the secret in a request.
    pub fn no_secret() -> (e: Error)
        ensures
            e@ == ErrorView::BadRequest(no_secret_text()),
    {
        Error::BadRequest(String::from_str("Missing authentication"))
    }

    /// The failure that names a text which is no scope.
    pub fn bad_scope(name: &str) -> (e: Error)
        ensures
            e@ == ErrorView::BadRequest(bad_scope_text(name@)),
    {
        Error::BadRequest(String::from_str("Unknown scope '").concat(name).concat("'"))
    }

    /// The refusal without a message: the credentials are wrong.
    pub fn unauthorized() -> (e: Error)
        ensures
            e@ == ErrorView::Unauthorized(Seq::<char>::empty()),
    {
        Error::Unauthorized(String::new())
    }

    /// The failure that names a member without a user row.
    pub fn dangling(user: &str, org: &str) -> (e: Error)
        ensures
            e@ == ErrorView::InvalidState(dangling_text(user@, org@)),
    {
        let text = String::from_str("User ").concat(user).concat(" is linked to organization ").concat(
            org,
        ).concat(", but does not exist");
        Error::InvalidState(text)
    }

    /// The missing scope: the caller is known, the organization visible.
    pub fn forbidden() -> (e: Error)
        ensures
            e@ == ErrorView::Forbidden(Seq::<char>::empty()),
    {
        Error::Forbidden(String::new())
    }

    /// The HTTP status that answers this failure: the client's fault by its
    /// kind, and 500 for every failure of the data layer.
    pub fn status_code(&self) -> (code: u16)
        ensures
            code == self@.status(),
    {
        match self {
            Error::Unauthorized(_) => 401,
            Error::Forbidden(_) => 403,
            Error::NotFound(_) => 404,
            Error::BadRequest(_) => 400,
            Error::Conflict(_) => 409,
            Error::InvalidState(_) => 500,
            Error::UnknownEnumVariant => 500,
            Error::UnknownToken => 500,
            Error::ExpiredToken => 500,
            Error::Bcrypt(_) => 500,
        }
    }
}

} // verus!
