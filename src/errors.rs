//! The service's error taxonomy and the HTTP reply each error becomes.

use vstd::prelude::*;
use crate::validation::ValidationErrors;

verus! {

/// Every way a request can fail.
#[derive(Debug, Clone, PartialEq, Eq)]
pub enum AppError {
    /// A persistence failure other than a uniqueness violation.
    DatabaseError(String),
    /// A KMS or upstream-provider failure, or no key-encryption key exists.
    KmsError(String),
    NotFoundError,
    /// A uniqueness violation.
    Conflict,
    InvalidInput(String),
    /// A malformed or unauthentic ciphertext, or decrypted bytes that are not UTF-8.
    CryptoError(String),
    /// A version write against a proxied secret.
    MethodNotAllowed,
    Unauthorized,
    /// The body could not be taken as JSON: the status and text of the rejection.
    JsonExtractionError(u16, String),
    /// JSON that does not parse: the parser's message.
    ParseJsonError(String),
    ValidationError(ValidationErrors),
}

/// What a vault provider reports when it cannot serve a request.
#[derive(Debug, Clone, PartialEq, Eq)]
pub enum ProviderError {
    InvalidConfiguration(String),
    SecretNotFound(String),
    ClientError(String),
}

/// The reply an error becomes: a status code, the message shown to the
/// caller, and the field report of a validation failure.
#[derive(Debug, Clone, PartialEq, Eq)]
pub struct ErrorReply {
    pub status: u16,
    pub error: String,
    pub data: Option<ValidationErrors>,
}

pub open spec fn status_of(e: AppError) -> u16 {
    match e {
        AppError::DatabaseError(_) => 500,
        AppError::KmsError(_) => 500,
        AppError::NotFoundError => 404,
        AppError::Conflict => 409,
        AppError::InvalidInput(_) => 400,
        AppError::CryptoError(_) => 500,
        AppError::MethodNotAllowed => 405,
        AppError::Unauthorized => 401,
        AppError::JsonExtractionError(status, _) => status,
        AppError::ParseJsonError(_) => 400,
        AppError::ValidationError(_) => 400,
    }
}

/// The message shown to the caller: internal failures get a generic text,
/// so no detail of a database, KMS or cryptographic error leaves the service.
pub open spec fn public_message_of(e: AppError) -> Seq<char> {
    match e {
        AppError::DatabaseError(_) => "An internal database error occurred"@,
        AppError::KmsError(_) => "An internal KMS error occurred"@,
        AppError::NotFoundError => "The requested item was not found"@,
        AppError::Conflict => "A conflict occurred. The resource may already exist."@,
        AppError::InvalidInput(msg) => msg@,
        AppError::CryptoError(_) => "A cryptographic operation failed"@,
        AppError::MethodNotAllowed => "This method is not allowed for the requested resource"@,
        AppError::Unauthorized => "You are not authorized to perform this action"@,
        AppError::JsonExtractionError(_, msg) => msg@,
        AppError::ParseJsonError(msg) => "JSON Error: "@ + msg@,
        AppError::ValidationError(_) => "Payload Validation Error"@,
    }
}

/// `r` failed with invalid input carrying the message `msg`.
pub open spec fn is_invalid_input<T>(r: Result<T, AppError>, msg: Seq<char>) -> bool {
    match r {
        Err(AppError::InvalidInput(m)) => m@ == msg,
        _ => false,
    }
}

/// The error that a provider failure becomes.
pub open spec fn is_error_of_provider(e: ProviderError, r: AppError) -> bool {
    match e {
        ProviderError::InvalidConfiguration(msg) => r == AppError::InvalidInput(msg),
        ProviderError::SecretNotFound(_) => r == AppError::NotFoundError,
        ProviderError::ClientError(msg) => r matches AppError::KmsError(m) && m@
            == "Provider client error: "@ + msg@,
    }
}

impl AppError {
    pub fn status_code(&self) -> (r: u16)
        ensures
            r == status_of(*self),
    {
        match self {
            AppError::DatabaseError(_) => 500,
            AppError::KmsError(_) => 500,
            AppError::NotFoundError => 404,
            AppError::Conflict => 409,
            AppError::InvalidInput(_) => 400,
            AppError::CryptoError(_) => 500,
            AppError::MethodNotAllowed => 405,
            AppError::Unauthorized => 401,
            AppError::JsonExtractionError(status, _) => *status,
            AppError::ParseJsonError(_) => 400,
            AppError::ValidationError(_) => 400,
        }
    }

    pub fn public_message(&self) -> (r: String)
        ensures
            r@ == public_message_of(*self),
    {
        match self {
            AppError::DatabaseError(_) => String::from_str("An internal database error occurred"),
            AppError::KmsError(_) => String::from_str("An internal KMS error occurred"),
            AppError::NotFoundError => String::from_str("The requested item was not found"),
            AppError::Conflict => String::from_str(
                "A conflict occurred. The resource may already exist.",
            ),
            AppError::InvalidInput(msg) => msg.clone(),
            AppError::CryptoError(_) => String::from_str("A cryptographic operation failed"),
            AppError::MethodNotAllowed => String::from_str(
                "This method is not allowed for the requested resource",
            ),
            AppError::Unauthorized => String::from_str(
                "You are not authorized to perform this action",
            ),
            AppError::JsonExtractionError(_, msg) => msg.clone(),
            AppError::ParseJsonError(msg) => String::from_str("JSON Error: ").concat(msg.as_str()),
            AppError::ValidationError(_) => String::from_str("Payload Validation Error"),
        }
    }

    /// The reply sent for this error; only a validation failure carries data.
    pub fn into_reply(self) -> (r: ErrorReply)
        ensures
            r.status == status_of(self),
            r.error@ == public_message_of(self),
            match self {
                AppError::ValidationError(v) => r.data == Some(v),
                _ => r.data is None,
            },
    {
        let status = self.status_code();
        let error = self.public_message();
        let data = match self {
            AppError::ValidationError(v) => Some(v),
            _ => None,
        };
        ErrorReply { status, error, data }
    }

    /// The error for a failed database operation: a uniqueness violation is a
    /// conflict, anything else a database error with the driver's message.
    pub fn from_database(unique_violation: bool, message: String) -> (r: AppError)
        ensures
            r == (if unique_violation {
                AppError::Conflict
            } else {
                AppError::DatabaseError(message)
            }),
    {
        if unique_violation {
            AppError::Conflict
        } else {
            AppError::DatabaseError(message)
        }
    }

    /// A provider's configuration problem is invalid input, a missing
    /// upstream secret is not found, and a client failure is a KMS error.
    pub fn from_provider(err: ProviderError) -> (r: AppError)
        ensures
            is_error_of_provider(err, r),
    {
        match err {
            ProviderError::InvalidConfiguration(msg) => AppError::InvalidInput(msg),
            ProviderError::SecretNotFound(_) => AppError::NotFoundError,
            ProviderError::ClientError(e) => {
                let msg = String::from_str("Provider client error: ").concat(e.as_str());
                AppError::KmsError(msg)
            },
        }
    }

    pub fn invalid_input(message: &str) -> (r: AppError)
        ensures
            r matches AppError::InvalidInput(m) && m@ == message@,
    {
        AppError::InvalidInput(message.to_owned())
    }

    pub fn crypto(message: &str) -> (r: AppError)
        ensures
            r matches AppError::CryptoError(m) && m@ == message@,
    {
        AppError::CryptoError(message.to_owned())
    }

    pub fn kms(message: &str) -> (r: AppError)
        ensures
            r matches AppError::KmsError(m) && m@ == message@,
    {
        AppError::KmsError(message.to_owned())
    }
}

} // verus!
