//! Recorded activities: raw samples, aggregate metrics and the channels present.

use vstd::prelude::*;
use crate::text::{chars_of, lowered, reads_ignoring_case};

verus! {

/// One raw sample of a recording.
#[derive(Debug, Clone, Copy, PartialEq, Eq, Structural)]
pub struct TrackPoint {
    /// Latitude in degrees times 10^7.
    pub lat: i32,
    /// Longitude in degrees times 10^7.
    pub lon: i32,
    /// Elevation in millimetres.
    pub elevation: Option<i32>,
    /// UTC timestamp in whole seconds since the Unix epoch.
    pub time: Option<i64>,
    /// Heart rate in beats per minute.
    pub heart_rate: Option<u16>,
    /// Power in watts.
    pub power: Option<u16>,
    /// Cadence in revolutions per minute.
    pub cadence: Option<u16>,
    /// Temperature in thousandths of a degree Celsius.
    pub temperature: Option<i32>,
}

/// The container format a recording came in.
#[derive(Debug, Clone, Copy, PartialEq, Eq, Structural)]
pub enum FileFormat {
    Gpx,
    Fit,
}

/// The ordered samples of one recording and the format they were read from.
#[derive(Debug, Clone)]
pub struct ParsedActivity {
    pub points: Vec<TrackPoint>,
    pub file_format: FileFormat,
}

/// Aggregates over a whole recording.
#[derive(Debug, Clone, Copy, PartialEq, Eq, Structural)]
pub struct Metrics {
    /// Sum of the segment lengths, in millimetres.
    pub distance_mm: u64,
    /// Sum of the positive elevation steps, in millimetres.
    pub elevation_gain_mm: u64,
    /// Sum of the positive time steps, in seconds.
    pub duration_seconds: u64,
    /// Distance over duration, in metres per hour; zero without duration.
    pub avg_speed_m_per_h: u64,
    pub avg_heart_rate: Option<u16>,
    pub max_heart_rate: Option<u16>,
    pub avg_power: Option<u16>,
    pub max_power: Option<u16>,
}

/// Which channels a recording carries.
#[derive(Debug, Clone, Copy, PartialEq, Eq, Structural)]
pub struct AvailableData {
    pub has_coordinates: bool,
    pub has_elevation: bool,
    pub has_heart_rate: bool,
    pub has_power: bool,
}

/// A recording reduced to its point budget, with its aggregates.
#[derive(Debug, Clone)]
pub struct ProcessedActivity {
    pub points: Vec<TrackPoint>,
    pub metrics: Metrics,
    pub available_data: AvailableData,
}

/// A processed activity as plain values.
pub struct ProcessedView {
    pub points: Seq<TrackPoint>,
    pub metrics: Metrics,
    pub available_data: AvailableData,
}

impl ProcessedActivity {
    /// The activity as plain values.
    pub open spec fn view(&self) -> ProcessedView {
        ProcessedView {
            points: self.points@,
            metrics: self.metrics,
            available_data: self.available_data,
        }
    }
}

/// Index of the last full stop among the first `n` characters, or -1.
pub open spec fn last_dot(name: Seq<char>, n: int) -> int
    decreases n,
{
    if n <= 0 {
        -1
    } else if name[n - 1] == '.' {
        n - 1
    } else {
        last_dot(name, n - 1)
    }
}

/// What follows the last full stop of a file name; the whole name where it has none.
pub open spec fn extension_of(name: Seq<char>) -> Seq<char> {
    name.subrange(last_dot(name, name.len() as int) + 1, name.len() as int)
}

/// The format that a file name's extension stands for, whatever its case.
pub open spec fn format_named(name: Seq<char>) -> Option<FileFormat> {
    let extension = lowered(extension_of(name));
    if extension == "gpx"@ {
        Some(FileFormat::Gpx)
    } else if extension == "fit"@ {
        Some(FileFormat::Fit)
    } else {
        None
    }
}

impl FileFormat {
    /// Tells the format of a file from the extension of its name: `.gpx` or
    /// `.fit`, in any case.
    pub fn from_filename(filename: &str) -> (format: Option<Self>)
        ensures
            format == format_named(filename@),
    {
        let chars = chars_of(filename);
        let mut start: usize = chars.len();
        while start > 0 && chars[start - 1] != '.'
            invariant
                0 <= start <= chars@.len(),
                last_dot(chars@, chars@.len() as int) == last_dot(chars@, start as int),
            decreases start,
        {
            start = start - 1;
        }
        assert(last_dot(chars@, start as int) == start - 1);
        let mut extension: Vec<char> = Vec::new();
        let mut i: usize = start;
        while i < chars.len()
            invariant
                start <= i <= chars@.len(),
                extension@ == chars@.subrange(start as int, i as int),
            decreases chars@.len() - i,
        {
            extension.push(chars[i]);
            assert(extension@ =~= chars@.subrange(start as int, i + 1));
            i = i + 1;
        }
        if reads_ignoring_case(&extension, "gpx") {
            Some(FileFormat::Gpx)
        } else if reads_ignoring_case(&extension, "fit") {
            Some(FileFormat::Fit)
        } else {
            None
        }
    }
}

} // verus!
