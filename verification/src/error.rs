//! The ways in which relaying one request can fail, and what the caller is
//! told in each case.

use vstd::prelude::*;
use vstd::string::*;

verus! {

/// A failure of one relayed request. It never outlives that request.
#[derive(Debug, PartialEq, Eq)]
pub enum AppError {
    /// The inbound request lacks the named header, or the header is not text.
    MissingHeader(String),
    /// The inbound body could not be read in full.
    BodyReadError,
    /// The one outbound attempt failed; the text is the transport's.
    RequestFailed(String),
    /// The outbound response's body could not be read in full.
    ResponseReadError,
    /// The response for the caller could not be put together.
    ResponseBuildError,
}

/// The mathematical content of an [`AppError`].
pub enum AppErrorView {
    MissingHeader(Seq<char>),
    BodyReadError,
    RequestFailed(Seq<char>),
    ResponseReadError,
    ResponseBuildError,
}

impl DeepView for AppError {
    type V = AppErrorView;

    open spec fn deep_view(&self) -> AppErrorView {
        match self {
            AppError::MissingHeader(name) => AppErrorView::MissingHeader(name@),
            AppError::BodyReadError => AppErrorView::BodyReadError,
            AppError::RequestFailed(text) => AppErrorView::RequestFailed(text@),
            AppError::ResponseReadError => AppErrorView::ResponseReadError,
            AppError::ResponseBuildError => AppErrorView::ResponseBuildError,
        }
    }
}

impl AppErrorView {
    /// The status code that the caller sees: 400 for a request that names no
    /// destination, 502 where the destination failed, 500 where this side did.
    pub open spec fn status(self) -> u16 {
        match self {
            AppErrorView::MissingHeader(_) => 400,
            AppErrorView::BodyReadError => 500,
            AppErrorView::RequestFailed(_) => 502,
            AppErrorView::ResponseReadError => 502,
            AppErrorView::ResponseBuildError => 500,
        }
    }

    /// The text that the caller sees.
    pub open spec fn message(self) -> Seq<char> {
        match self {
            AppErrorView::MissingHeader(name) => "Missing required header: "@ + name,
            AppErrorView::BodyReadError => "Failed to read request body"@,
            AppErrorView::RequestFailed(text) => "Failed to send request: "@ + text,
            AppErrorView::ResponseReadError => "Failed to read response body"@,
            AppErrorView::ResponseBuildError => "Failed to build response"@,
        }
    }
}

impl AppError {
    /// The status code of the response that reports this error.
    pub fn status(&self) -> (code: u16)
        ensures
            code == self.deep_view().status(),
    {
        match self {
            AppError::MissingHeader(_) => 400,
            AppError::BodyReadError => 500,
            AppError::RequestFailed(_) => 502,
            AppError::ResponseReadError => 502,
            AppError::ResponseBuildError => 500,
        }
    }

    /// The body of the response that reports this error.
    pub fn message(&self) -> (text: String)
        ensures
            text@ == self.deep_view().message(),
    {
        match self {
            AppError::MissingHeader(name) => {
                let mut text = String::from_str("Missing required header: ");
                text.append(name.as_str());
                text
            },
            AppError::BodyReadError => String::from_str("Failed to read request body"),
            AppError::RequestFailed(cause) => {
                let mut text = String::from_str("Failed to send request: ");
                text.append(cause.as_str());
                text
            },
            AppError::ResponseReadError => String::from_str("Failed to read response body"),
            AppError::ResponseBuildError => String::from_str("Failed to build response"),
        }
    }
}

} // verus!
