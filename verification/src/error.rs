//! Failure kinds of the pipeline stages and of request handling.

use vstd::prelude::*;
use vstd::string::StringExecFns;
use crate::text::{decimal, push_decimal};

verus! {

/// Why a file could not be turned into a point sequence.
#[derive(Debug, Clone, PartialEq, Eq)]
pub enum ParseError {
    InvalidGpx(String),
    InvalidFit(String),
    EmptyFile,
}

/// Why a point sequence could not be processed.
#[derive(Debug, Clone, Copy, PartialEq, Eq, Structural)]
pub enum ProcessError {
    /// Fewer than two points; carries the number found.
    InsufficientPoints(usize),
}

/// Why a processed activity could not be prepared for rendering.
#[derive(Debug, Clone, Copy, PartialEq, Eq)]
pub enum PrepareError {
    /// A channel that the request needs is absent; carries its name.
    MissingData(&'static str),
}

/// Why a scene could not be built.
#[derive(Debug, Clone, PartialEq, Eq)]
pub enum RenderError {
    SvgError(String),
}

/// Why a scene could not be painted or encoded.
#[derive(Debug, Clone, PartialEq, Eq)]
pub enum RasterError {
    RenderFailed(String),
    AnimationFailed(String),
}

/// Every failure a request can end in.
#[derive(Debug, Clone, PartialEq, Eq)]
pub enum AppError {
    Parse(ParseError),
    Process(ProcessError),
    Prepare(PrepareError),
    Render(RenderError),
    Raster(RasterError),
    NotFound(String),
    BadRequest(String),
    Unauthorized(String),
    Internal(String),
}

impl ParseError {
    /// The text shown for this failure.
    pub open spec fn message_of(self) -> Seq<char> {
        match self {
            ParseError::InvalidGpx(detail) => "Invalid GPX: "@ + detail@,
            ParseError::InvalidFit(detail) => "Invalid FIT: "@ + detail@,
            ParseError::EmptyFile => "No track points found in file"@,
        }
    }

    /// The text shown for this failure.
    pub fn message(&self) -> (text: String)
        ensures
            text@ == self.message_of(),
    {
        match self {
            ParseError::InvalidGpx(detail) => String::from_str("Invalid GPX: ").concat(
                detail.as_str(),
            ),
            ParseError::InvalidFit(detail) => String::from_str("Invalid FIT: ").concat(
                detail.as_str(),
            ),
            ParseError::EmptyFile => String::from_str("No track points found in file"),
        }
    }
}

impl ProcessError {
    /// The text shown for this failure.
    pub open spec fn message_of(self) -> Seq<char> {
        match self {
            ProcessError::InsufficientPoints(found) => "Insufficient data points (need at least 2, got "@
                + decimal(found as nat) + ")"@,
        }
    }

    /// The text shown for this failure.
    pub fn message(&self) -> (text: String)
        ensures
            text@ == self.message_of(),
    {
        match self {
            ProcessError::InsufficientPoints(found) => {
                let mut text = String::from_str("Insufficient data points (need at least 2, got ");
                push_decimal(&mut text, *found as u64);
                text.append(")");
                text
            },
        }
    }
}

impl PrepareError {
    /// The text shown for this failure.
    pub open spec fn message_of(self) -> Seq<char> {
        match self {
            PrepareError::MissingData(channel) => "No "@ + channel@
                + " data available in this activity"@,
        }
    }

    /// The text shown for this failure.
    pub fn message(&self) -> (text: String)
        ensures
            text@ == self.message_of(),
    {
        match self {
            PrepareError::MissingData(channel) => String::from_str("No ").concat(channel).concat(
                " data available in this activity",
            ),
        }
    }
}

impl RenderError {
    /// The text shown for this failure.
    pub open spec fn message_of(self) -> Seq<char> {
        match self {
            RenderError::SvgError(detail) => "SVG generation failed: "@ + detail@,
        }
    }

    /// The text shown for this failure.
    pub fn message(&self) -> (text: String)
        ensures
            text@ == self.message_of(),
    {
        match self {
            RenderError::SvgError(detail) => String::from_str("SVG generation failed: ").concat(
                detail.as_str(),
            ),
        }
    }
}

impl RasterError {
    /// The text shown for this failure.
    pub open spec fn message_of(self) -> Seq<char> {
        match self {
            RasterError::RenderFailed(detail) => "PNG rendering failed: "@ + detail@,
            RasterError::AnimationFailed(detail) => "Animation rendering failed: "@ + detail@,
        }
    }

    /// The text shown for this failure.
    pub fn message(&self) -> (text: String)
        ensures
            text@ == self.message_of(),
    {
        match self {
            RasterError::RenderFailed(detail) => String::from_str("PNG rendering failed: ").concat(
                detail.as_str(),
            ),
            RasterError::AnimationFailed(detail) => String::from_str(
                "Animation rendering failed: ",
            ).concat(detail.as_str()),
        }
    }
}

impl AppError {
    /// The text shown for this failure: that of the stage that failed, or
    /// the kind of the failure followed by its detail.
    pub open spec fn message_of(self) -> Seq<char> {
        match self {
            AppError::Parse(e) => e.message_of(),
            AppError::Process(e) => e.message_of(),
            AppError::Prepare(e) => e.message_of(),
            AppError::Render(e) => e.message_of(),
            AppError::Raster(e) => e.message_of(),
            AppError::NotFound(detail) => "Activity not found: "@ + detail@,
            AppError::BadRequest(detail) => "Invalid request: "@ + detail@,
            AppError::Unauthorized(detail) => "Unauthorized: "@ + detail@,
            AppError::Internal(detail) => "Internal error: "@ + detail@,
        }
    }

    /// The text shown for this failure.
    pub fn message(&self) -> (text: String)
        ensures
            text@ == self.message_of(),
    {
        match self {
            AppError::Parse(e) => e.message(),
            AppError::Process(e) => e.message(),
            AppError::Prepare(e) => e.message(),
            AppError::Render(e) => e.message(),
            AppError::Raster(e) => e.message(),
            AppError::NotFound(detail) => String::from_str("Activity not found: ").concat(
                detail.as_str(),
            ),
            AppError::BadRequest(detail) => String::from_str("Invalid request: ").concat(
                detail.as_str(),
            ),
            AppError::Unauthorized(detail) => String::from_str("Unauthorized: ").concat(
                detail.as_str(),
            ),
            AppError::Internal(detail) => String::from_str("Internal error: ").concat(
                detail.as_str(),
            ),
        }
    }

    /// The HTTP status this failure is answered with: 400 for what the
    /// client must mend, 404, 401, and 500 for the rest.
    pub open spec fn status_of(self) -> u16 {
        match self {
            AppError::Parse(_) | AppError::Process(_) | AppError::Prepare(_) | AppError::BadRequest(
                _,
            ) => 400,
            AppError::NotFound(_) => 404,
            AppError::Unauthorized(_) => 401,
            AppError::Internal(_) | AppError::Render(_) | AppError::Raster(_) => 500,
        }
    }

    /// The machine-readable code this failure is answered with.
    pub open spec fn code_of(self) -> Seq<char> {
        match self {
            AppError::Parse(_) | AppError::Process(_) | AppError::Prepare(_) | AppError::BadRequest(
                _,
            ) => "bad_request"@,
            AppError::NotFound(_) => "not_found"@,
            AppError::Unauthorized(_) => "unauthorized"@,
            AppError::Internal(_) | AppError::Render(_) | AppError::Raster(_) => "internal"@,
        }
    }
}

} // verus!
