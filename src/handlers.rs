//! Checks that the endpoints make on path parameters and on the outcome of
//! a delete before and after calling the services.

use vstd::prelude::*;
use crate::encoding::text_eq;
use crate::errors::{is_invalid_input, AppError};
use crate::validation::{
    is_public_id, is_secret_name_format, is_version_tag_format, is_valid_public_id,
    matches_secret_name_format, matches_version_tag_format,
};

verus! {

/// Whether a request is the health probe, answered before authentication.
pub fn is_healthcheck(method: &str, path: &str) -> (r: bool)
    ensures
        r == (method@ == "GET"@ && path@ == "/healthcheck"@),
{
    text_eq(method, "GET") && text_eq(path, "/healthcheck")
}

/// Checks of the secret endpoints.
pub struct SecretHandler;

impl SecretHandler {
    /// A secret name in a path must have the secret name format.
    pub fn check_name(name: &str) -> (r: Result<(), AppError>)
        ensures
            is_secret_name_format(name@) ==> r is Ok,
            !is_secret_name_format(name@) ==> is_invalid_input(r, "Invalid secret name format"@),
    {
        if matches_secret_name_format(name) {
            Ok(())
        } else {
            Err(AppError::invalid_input("Invalid secret name format"))
        }
    }

    /// A name and a version tag in a path: the name is checked first.
    pub fn check_name_and_tag(name: &str, tag: &str) -> (r: Result<(), AppError>)
        ensures
            is_secret_name_format(name@) && is_version_tag_format(tag@) ==> r is Ok,
            !is_secret_name_format(name@) ==> is_invalid_input(r, "Invalid secret name format"@),
            is_secret_name_format(name@) && !is_version_tag_format(tag@) ==> is_invalid_input(
                r,
                "Invalid version tag format"@,
            ),
    {
        match Self::check_name(name) {
            Ok(()) => {},
            Err(e) => {
                return Err(e);
            },
        }
        if matches_version_tag_format(tag) {
            Ok(())
        } else {
            Err(AppError::invalid_input("Invalid version tag format"))
        }
    }
}

/// Checks of the vault connection endpoints.
pub struct ConnectionHandler;

impl ConnectionHandler {
    /// A public id in a path must have the public id format.
    pub fn check_public_id(public_id: &str) -> (r: Result<(), AppError>)
        ensures
            is_public_id(public_id@) ==> r is Ok,
            !is_public_id(public_id@) ==> is_invalid_input(r, "Invalid public ID format"@),
    {
        if is_valid_public_id(public_id) {
            Ok(())
        } else {
            Err(AppError::invalid_input("Invalid public ID format"))
        }
    }

    /// Deleting a connection that does not exist is not found.
    pub fn delete_outcome(deleted: bool) -> (r: Result<(), AppError>)
        ensures
            deleted ==> r is Ok,
            !deleted ==> r == Err::<(), AppError>(AppError::NotFoundError),
    {
        if deleted {
            Ok(())
        } else {
            Err(AppError::NotFoundError)
        }
    }
}

} // verus!
