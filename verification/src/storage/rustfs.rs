//! What the photo store's answers decide.

use vstd::prelude::*;

use crate::error::ArachneError;
use crate::text::{chars_of, concat, contains, contains_chars, decimal, push_decimal, string_of};

verus! {

/// How making sure of the bucket went.
#[derive(Debug, PartialEq, Eq, Structural)]
pub enum BucketOutcome {
    Created,
    AlreadyThere,
}

/// The outcome of creating bucket `bucket_name`, given the store's error text if it
/// refused: a bucket that exists already (`BucketAlreadyOwnedByYou`,
/// `BucketAlreadyExists`) is fine, any other refusal is an error.
pub fn bucket_creation_outcome(bucket_name: &str, error_text: Option<&str>) -> (r: Result<
    BucketOutcome,
    ArachneError,
>)
    ensures
        error_text is None ==> r == Ok::<BucketOutcome, ArachneError>(BucketOutcome::Created),
        error_text is Some && (contains(error_text->0@, "BucketAlreadyOwnedByYou"@) || contains(
            error_text->0@,
            "BucketAlreadyExists"@,
        )) ==> r == Ok::<BucketOutcome, ArachneError>(BucketOutcome::AlreadyThere),
        error_text is Some && !(contains(error_text->0@, "BucketAlreadyOwnedByYou"@) || contains(
            error_text->0@,
            "BucketAlreadyExists"@,
        )) ==> (r matches Err(ArachneError::S3(m)) && m@ == "failed to create bucket '"@
            + bucket_name@ + "': "@ + error_text->0@),
{
    match error_text {
        None => Ok(BucketOutcome::Created),
        Some(e) => {
            let ec = chars_of(e);
            let owned = chars_of("BucketAlreadyOwnedByYou");
            let exists = chars_of("BucketAlreadyExists");
            if contains_chars(&ec, &owned) || contains_chars(&ec, &exists) {
                Ok(BucketOutcome::AlreadyThere)
            } else {
                let a = chars_of("failed to create bucket '");
                let b = chars_of(bucket_name);
                let c = chars_of("': ");
                let ab = concat(&a, &b);
                let abc = concat(&ab, &c);
                Err(ArachneError::S3(string_of(&concat(&abc, &ec))))
            }
        },
    }
}

/// An upload answered with an HTTP status of 300 or more failed.
pub fn check_upload_status(status: u16) -> (r: Result<(), ArachneError>)
    ensures
        status < 300 ==> r is Ok,
        status >= 300 ==> (r matches Err(ArachneError::S3(m)) && m@ == "upload returned HTTP "@
            + decimal(status as nat)),
{
    if status >= 300 {
        let mut m = chars_of("upload returned HTTP ");
        push_decimal(&mut m, status as u64);
        Err(ArachneError::S3(string_of(&m)))
    } else {
        Ok(())
    }
}

} // verus!
