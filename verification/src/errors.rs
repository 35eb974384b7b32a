//! The service's errors: how each is worded, and the gRPC status it is
//! answered with.
use vstd::prelude::*;
use crate::text::{append_str, append_string, owned};

verus! {

/// An error of a call to the model provider; `source` is the wording of the
/// underlying error.
#[derive(Debug)]
pub enum OpenRouterClientError {
    Request { message: String, source: String },
    ReadResponse { message: String, source: String },
    ResponseFormat { message: String },
    ResponseConversion { message: String, source: String },
    ResponseValidation { source: String },
    /// `status` as it is shown, code and reason.
    NoSuccessResponse { status: String, body: String },
    Deserialization { message: String, source: String },
    DataGeneration { message: String },
}

/// An error of the service.
#[derive(Debug)]
pub enum AppError {
    /// A failed call to another service, with its wording.
    GrpcClient { message: String },
    OpenRouterClient(OpenRouterClientError),
    FileParsing { message: String, source: String },
}

/// The gRPC status codes that the service answers errors with.
#[derive(Clone, Copy, PartialEq, Eq, Debug, Structural)]
pub enum StatusCode {
    InvalidArgument,
    Unavailable,
    Internal,
}

/// How a provider error is worded.
pub open spec fn client_error_text(e: OpenRouterClientError) -> Seq<char> {
    match e {
        OpenRouterClientError::Request { message, .. } => "HTTP request failed: "@ + message@,
        OpenRouterClientError::ReadResponse { message, .. } => "Failed to read OpenRouter API response: "@
            + message@,
        OpenRouterClientError::ResponseFormat { message } =>
            "OpenRouter API returned an invalid response format: "@ + message@,
        OpenRouterClientError::ResponseConversion { message, source } =>
            "Failed to convert OpenRouter API response: "@ + message@ + ": "@ + source@,
        OpenRouterClientError::ResponseValidation { source } =>
            "OpenRouter API response validation failed: "@ + source@,
        OpenRouterClientError::NoSuccessResponse { status, body } =>
            "OpenRouter API returned non-success status "@ + status@ + ": "@ + body@,
        OpenRouterClientError::Deserialization { message, source } =>
            "Failed to deserialize OpenRouter API response: "@ + message@ + ": "@ + source@,
        OpenRouterClientError::DataGeneration { message } =>
            "AI failed to generate valid data after multiple attempts: "@ + message@,
    }
}

/// How a service error is worded; a wrapped error keeps its own wording.
pub open spec fn app_error_text(e: AppError) -> Seq<char> {
    match e {
        AppError::GrpcClient { message } => message@,
        AppError::OpenRouterClient(c) => client_error_text(c),
        AppError::FileParsing { message, .. } => "File parsing failed: "@ + message@,
    }
}

/// The status of a service error: a file that cannot be read is the caller's
/// fault; a provider that cannot be reached, or answers with a failure, is
/// unavailable; anything else is internal.
pub open spec fn app_error_code(e: AppError) -> StatusCode {
    match e {
        AppError::FileParsing { .. } => StatusCode::InvalidArgument,
        AppError::OpenRouterClient(OpenRouterClientError::Request { .. })
        | AppError::OpenRouterClient(OpenRouterClientError::ReadResponse { .. })
        | AppError::OpenRouterClient(OpenRouterClientError::NoSuccessResponse { .. }) =>
            StatusCode::Unavailable,
        _ => StatusCode::Internal,
    }
}

fn joined(a: &str, b: &String) -> (s: String)
    ensures
        s@ == a@ + b@,
{
    let mut s = owned(a);
    append_string(&mut s, b);
    s
}

impl OpenRouterClientError {
    /// How the error is worded (see `client_error_text`).
    pub fn message(&self) -> (s: String)
        ensures
            s@ == client_error_text(*self),
    {
        match self {
            OpenRouterClientError::Request { message, .. } => joined("HTTP request failed: ", message),
            OpenRouterClientError::ReadResponse { message, .. } => joined(
                "Failed to read OpenRouter API response: ",
                message,
            ),
            OpenRouterClientError::ResponseFormat { message } => joined(
                "OpenRouter API returned an invalid response format: ",
                message,
            ),
            OpenRouterClientError::ResponseConversion { message, source } => {
                let mut s = joined("Failed to convert OpenRouter API response: ", message);
                append_str(&mut s, ": ");
                append_string(&mut s, source);
                s
            },
            OpenRouterClientError::ResponseValidation { source } => joined(
                "OpenRouter API response validation failed: ",
                source,
            ),
            OpenRouterClientError::NoSuccessResponse { status, body } => {
                let mut s = joined("OpenRouter API returned non-success status ", status);
                append_str(&mut s, ": ");
                append_string(&mut s, body);
                s
            },
            OpenRouterClientError::Deserialization { message, source } => {
                let mut s = joined("Failed to deserialize OpenRouter API response: ", message);
                append_str(&mut s, ": ");
                append_string(&mut s, source);
                s
            },
            OpenRouterClientError::DataGeneration { message } => joined(
                "AI failed to generate valid data after multiple attempts: ",
                message,
            ),
        }
    }
}

impl AppError {
    /// How the error is worded (see `app_error_text`).
    pub fn message(&self) -> (s: String)
        ensures
            s@ == app_error_text(*self),
    {
        match self {
            AppError::GrpcClient { message } => message.clone(),
            AppError::OpenRouterClient(c) => c.message(),
            AppError::FileParsing { message, .. } => joined("File parsing failed: ", message),
        }
    }

    /// The status the error is answered with (see `app_error_code`).
    pub fn status_code(&self) -> (c: StatusCode)
        ensures
            c == app_error_code(*self),
    {
        match self {
            AppError::FileParsing { .. } => StatusCode::InvalidArgument,
            AppError::OpenRouterClient(OpenRouterClientError::Request { .. }) => StatusCode::Unavailable,
            AppError::OpenRouterClient(OpenRouterClientError::ReadResponse { .. }) => StatusCode::Unavailable,
            AppError::OpenRouterClient(OpenRouterClientError::NoSuccessResponse { .. }) => StatusCode::Unavailable,
            _ => StatusCode::Internal,
        }
    }
}

} // verus!
