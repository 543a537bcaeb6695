use crate::codec::image_error_text;
use vstd::prelude::*;
use vstd::string::StringExecFns;

verus! {

/// The error type of the `base64` crate's decoder, carried through unopened.
#[verifier::external_type_specification]
#[verifier::external_body]
pub struct ExDecodeError(base64::DecodeError);

/// The error of a conversion from bytes that are not UTF-8, carried through unopened.
#[verifier::external_type_specification]
#[verifier::external_body]
pub struct ExFromUtf8Error(std::string::FromUtf8Error);

/// Why a pipeline run was abandoned.
#[derive(Debug)]
pub enum ImageProcessingError {
    /// An operation was given too few parameters, or parameters that make no sense.
    ParamsInvalid { message: String },
    /// No decoder or encoder serves the format that the extension names.
    UnsupportedFormat { extension: String },
    /// The inline data of a load is not base64.
    Base64Decode { source: base64::DecodeError },
    /// The bytes could not be decoded, or the raster could not be encoded.
    Image { source: image::ImageError },
    /// A numeric parameter is not a number of the expected range; `text` is
    /// what stood in its place.
    ParseInt { text: String },
    /// A percent-encoded parameter does not decode to UTF-8.
    FromUtf { source: std::string::FromUtf8Error },
}

/// `ToString::to_string` on a `base64::DecodeError`: the text of the error.
#[verifier::external_body]
fn base64_error_text(error: &base64::DecodeError) -> (r: String) {
    error.to_string()
}

/// `ToString::to_string` on a `std::string::FromUtf8Error`: the text of the error.
#[verifier::external_body]
fn from_utf8_error_text(error: &std::string::FromUtf8Error) -> (r: String) {
    error.to_string()
}

impl ImageProcessingError {
    /// An invalid-parameters error with the given message.
    pub fn params_invalid(message: &str) -> (r: Self)
        ensures
            r == (ImageProcessingError::ParamsInvalid { message: r->ParamsInvalid_message }),
            r->ParamsInvalid_message@ == message@,
    {
        ImageProcessingError::ParamsInvalid { message: String::from_str(message) }
    }

    /// The text shown for this error. For invalid parameters it is the fixed
    /// lead-in followed by the message; otherwise it is the text of the cause.
    pub fn message(&self) -> (r: String)
        ensures
            self is ParamsInvalid ==> r@ == "Process image fail, message:"@
                + self->ParamsInvalid_message@,
            self is ParseInt ==> r@ == "invalid number: "@ + self->ParseInt_text@,
            self is UnsupportedFormat ==> r@ == "format is not supported: "@
                + self->UnsupportedFormat_extension@,
    {
        match self {
            ImageProcessingError::UnsupportedFormat { extension } => {
                String::from_str("format is not supported: ").concat(extension.as_str())
            },
            ImageProcessingError::ParamsInvalid { message } => {
                String::from_str("Process image fail, message:").concat(message.as_str())
            },
            ImageProcessingError::Base64Decode { source } => base64_error_text(source),
            ImageProcessingError::Image { source } => image_error_text(source),
            ImageProcessingError::ParseInt { text } => String::from_str("invalid number: ").concat(
                text.as_str(),
            ),
            ImageProcessingError::FromUtf { source } => from_utf8_error_text(source),
        }
    }
}

/// An error as it is reported to an HTTP client: a message, the category of
/// the component that failed, and the status code of the response.
#[derive(Debug, Clone)]
pub struct HTTPError {
    pub message: String,
    pub category: String,
    pub status: u16,
}

impl HTTPError {
    /// A client error (status 400) with the given message and category.
    pub fn new(message: &str, category: &str) -> (r: Self)
        ensures
            r.message@ == message@,
            r.category@ == category@,
            r.status == 400,
    {
        HTTPError {
            message: String::from_str(message),
            category: String::from_str(category),
            status: 400,
        }
    }

    /// An error with the given message, category and status code.
    pub fn new_with_category_status(message: &str, category: &str, status: u16) -> (r: Self)
        ensures
            r.message@ == message@,
            r.category@ == category@,
            r.status == status,
    {
        HTTPError {
            message: String::from_str(message),
            category: String::from_str(category),
            status,
        }
    }

    /// How a failed pipeline run is reported: as a client error without a
    /// category, whose message is the text of the failure.
    pub fn from_processing(error: &ImageProcessingError) -> (r: Self)
        ensures
            r.status == 400,
            r.category@ == Seq::<char>::empty(),
            error is ParamsInvalid ==> r.message@ == "Process image fail, message:"@
                + error->ParamsInvalid_message@,
            error is ParseInt ==> r.message@ == "invalid number: "@ + error->ParseInt_text@,
            error is UnsupportedFormat ==> r.message@ == "format is not supported: "@
                + error->UnsupportedFormat_extension@,
    {
        HTTPError { message: error.message(), category: String::new(), status: 400 }
    }
}

/// The message of the error for a request that ran out of time.
pub open spec fn took_too_long() -> Seq<char> {
    "Request took too long"@
}

/// How a failure of the service around a handler is reported: a request
/// that ran out of time as status 408 in the category `timeout`, anything
/// else as a client error in the category `exception` with the text of the
/// failure.
pub fn handle_error(timed_out: bool, message: &str) -> (r: HTTPError)
    ensures
        timed_out ==> r.message@ == took_too_long() && r.category@ == "timeout"@ && r.status == 408,
        !timed_out ==> r.message@ == message@ && r.category@ == "exception"@ && r.status == 400,
{
    if timed_out {
        HTTPError::new_with_category_status("Request took too long", "timeout", 408)
    } else {
        HTTPError::new(message, "exception")
    }
}

impl Default for HTTPError {
    /// The empty client error: no message, no category, status 400.
    fn default() -> (r: Self)
        ensures
            r.message@ == Seq::<char>::empty(),
            r.category@ == Seq::<char>::empty(),
            r.status == 400,
    {
        HTTPError { message: String::new(), category: String::new(), status: 400 }
    }
}

} // verus!
