use vstd::prelude::*;

verus! {

#[verifier::external_type_specification]
#[verifier::external_body]
pub struct ExIoError(std::io::Error);

#[verifier::external_type_specification]
#[verifier::external_body]
#[verifier::reject_recursive_types(E)]
pub struct ExRusotoError<E>(rusoto_core::RusotoError<E>);

#[verifier::external_type_specification]
#[verifier::external_body]
pub struct ExListObjectsV2Error(rusoto_s3::ListObjectsV2Error);

#[verifier::external_type_specification]
#[verifier::external_body]
pub struct ExGetObjectError(rusoto_s3::GetObjectError);

#[verifier::external_type_specification]
#[verifier::external_body]
pub struct ExPutObjectError(rusoto_s3::PutObjectError);

#[verifier::external_type_specification]
#[verifier::external_body]
pub struct ExCreateMultipartUploadError(rusoto_s3::CreateMultipartUploadError);

#[verifier::external_type_specification]
#[verifier::external_body]
pub struct ExUploadPartError(rusoto_s3::UploadPartError);

#[verifier::external_type_specification]
#[verifier::external_body]
pub struct ExCompleteMultipartUploadError(rusoto_s3::CompleteMultipartUploadError);

#[verifier::external_type_specification]
#[verifier::external_body]
pub struct ExAbortMultipartUploadError(rusoto_s3::AbortMultipartUploadError);

pub type S4Result<T> = Result<T, S4Error>;

/// Errors returned by the listing iterators and the upload session.
#[derive(Debug)]
pub enum S4Error {
    /// The service answered in a way the protocol does not allow.
    Other(&'static str),
    /// Reading the upload source failed.
    IoError(std::io::Error),
    /// Retrieving a listed object failed.
    GetObjectError(rusoto_core::RusotoError<rusoto_s3::GetObjectError>),
    /// Fetching a page of the listing failed.
    ListObjectV2Error(rusoto_core::RusotoError<rusoto_s3::ListObjectsV2Error>),
    /// The single-call upload failed.
    PutObjectError(rusoto_core::RusotoError<rusoto_s3::PutObjectError>),
    /// The multipart upload could not be created.
    CreateMultipartUploadError(rusoto_core::RusotoError<rusoto_s3::CreateMultipartUploadError>),
    /// The service rejected a part.
    UploadPartError(rusoto_core::RusotoError<rusoto_s3::UploadPartError>),
    /// Completing the upload failed after every part was accepted; the
    /// upload is left open at the service.
    CompleteMultipartUploadError(rusoto_core::RusotoError<rusoto_s3::CompleteMultipartUploadError>),
    /// Aborting the upload failed.
    AbortMultipartUploadError(rusoto_core::RusotoError<rusoto_s3::AbortMultipartUploadError>),
}

} // verus!
