//! The service's error kinds and how each one is answered over HTTP.

use vstd::prelude::*;

use crate::responses::ErrorResponse;

verus! {

pub enum AppError {
    NotFound(String),
    BadRequest(String),
    ValidationError(String),
    Unauthorized(String),
    DownloadFailed(String),
    InvalidUrl(String),
    VideoUnavailable(String),
    InternalError(String),
}

/// HTTP status codes the errors map to.
pub const STATUS_BAD_REQUEST: u16 = 400;
pub const STATUS_UNAUTHORIZED: u16 = 401;
pub const STATUS_NOT_FOUND: u16 = 404;
pub const STATUS_UNPROCESSABLE_ENTITY: u16 = 422;
pub const STATUS_INTERNAL_SERVER_ERROR: u16 = 500;

impl AppError {
    /// The text an error carries.
    pub open spec fn detail(self) -> Seq<char> {
        match self {
            AppError::NotFound(m) => m@,
            AppError::BadRequest(m) => m@,
            AppError::ValidationError(m) => m@,
            AppError::Unauthorized(m) => m@,
            AppError::DownloadFailed(m) => m@,
            AppError::InvalidUrl(m) => m@,
            AppError::VideoUnavailable(m) => m@,
            AppError::InternalError(m) => m@,
        }
    }

    /// The HTTP status an error is answered with.
    pub open spec fn spec_status(self) -> u16 {
        match self {
            AppError::NotFound(_) => STATUS_NOT_FOUND,
            AppError::BadRequest(_) | AppError::ValidationError(_) | AppError::InvalidUrl(_) =>
                STATUS_BAD_REQUEST,
            AppError::Unauthorized(_) => STATUS_UNAUTHORIZED,
            AppError::DownloadFailed(_) | AppError::VideoUnavailable(_) =>
                STATUS_UNPROCESSABLE_ENTITY,
            AppError::InternalError(_) => STATUS_INTERNAL_SERVER_ERROR,
        }
    }

    /// The prefix of an error's human-readable rendering.
    pub open spec fn display_prefix(self) -> Seq<char> {
        match self {
            AppError::NotFound(_) => "Not found: "@,
            AppError::BadRequest(_) => "Bad request: "@,
            AppError::ValidationError(_) => "Validation error: "@,
            AppError::Unauthorized(_) => "Unauthorized: "@,
            AppError::DownloadFailed(_) => "Download failed: "@,
            AppError::InvalidUrl(_) => "Invalid URL: "@,
            AppError::VideoUnavailable(_) => "Video unavailable: "@,
            AppError::InternalError(_) => "Internal error: "@,
        }
    }

    pub fn status_code(&self) -> (r: u16)
        ensures
            r == self.spec_status(),
    {
        match self {
            AppError::NotFound(_) => STATUS_NOT_FOUND,
            AppError::BadRequest(_) | AppError::ValidationError(_) | AppError::InvalidUrl(_) =>
                STATUS_BAD_REQUEST,
            AppError::Unauthorized(_) => STATUS_UNAUTHORIZED,
            AppError::DownloadFailed(_) | AppError::VideoUnavailable(_) =>
                STATUS_UNPROCESSABLE_ENTITY,
            AppError::InternalError(_) => STATUS_INTERNAL_SERVER_ERROR,
        }
    }

    /// The status and body an error is answered with: the body's message is
    /// the error's own text.
    pub fn into_status_and_body(self) -> (r: (u16, ErrorResponse))
        ensures
            r.0 == self.spec_status(),
            r.1.message@ == self.detail(),
            r.1.version@ == crate::responses::API_VERSION@,
    {
        let status = self.status_code();
        let message = match self {
            AppError::NotFound(m) => m,
            AppError::BadRequest(m) => m,
            AppError::ValidationError(m) => m,
            AppError::Unauthorized(m) => m,
            AppError::DownloadFailed(m) => m,
            AppError::InvalidUrl(m) => m,
            AppError::VideoUnavailable(m) => m,
            AppError::InternalError(m) => m,
        };
        (status, ErrorResponse::new(message))
    }

    /// Human-readable rendering: a prefix naming the kind, then the text.
    pub fn to_string(&self) -> (r: String)
        ensures
            r@ == self.display_prefix() + self.detail(),
    {
        let (prefix, m) = match self {
            AppError::NotFound(m) => ("Not found: ", m),
            AppError::BadRequest(m) => ("Bad request: ", m),
            AppError::ValidationError(m) => ("Validation error: ", m),
            AppError::Unauthorized(m) => ("Unauthorized: ", m),
            AppError::DownloadFailed(m) => ("Download failed: ", m),
            AppError::InvalidUrl(m) => ("Invalid URL: ", m),
            AppError::VideoUnavailable(m) => ("Video unavailable: ", m),
            AppError::InternalError(m) => ("Internal error: ", m),
        };
        let mut r = String::from_str(prefix);
        r.append(m.as_str());
        r
    }
}

} // verus!
