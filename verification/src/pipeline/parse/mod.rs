//! Reading activity files into track points.

pub mod fit;
pub mod gpx;

use vstd::prelude::*;
use crate::error::ParseError;
use crate::pipeline::parse::fit::{fit_points, FitParser, FitRecord};
use crate::pipeline::parse::gpx::{gpx_outcome, is_outcome, xml_events, GpxParser};
use crate::types::activity::{FileFormat, ParsedActivity};

verus! {

/// What an activity is read from.
pub enum ActivitySource<'a> {
    /// The bytes of a GPX document.
    Gpx(&'a [u8]),
    /// The decoded messages of a FIT file.
    Fit(&'a Vec<FitRecord>),
}

/// Reads an activity from its source with the parser of its format.
pub fn parse(source: ActivitySource<'_>) -> (result: Result<ParsedActivity, ParseError>)
    ensures
        match source {
            ActivitySource::Gpx(bytes) => is_outcome(result, gpx_outcome(xml_events(bytes@))),
            ActivitySource::Fit(records) => match result {
                Ok(activity) => activity.points@ == fit_points(records@, records@.len() as int)
                    && activity.points@.len() > 0 && activity.file_format == FileFormat::Fit,
                Err(ParseError::EmptyFile) => fit_points(records@, records@.len() as int).len()
                    == 0,
                Err(_) => false,
            },
        },
{
    match source {
        ActivitySource::Gpx(bytes) => GpxParser.parse(bytes),
        ActivitySource::Fit(records) => FitParser.parse(records),
    }
}

} // verus!
