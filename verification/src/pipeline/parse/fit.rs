//! Reading FIT: the track points of decoded data records.

use vstd::prelude::*;
use crate::error::ParseError;
use crate::fixed::{divide_toward_zero, toward_zero};
use crate::text::str_eq;
use crate::types::activity::{FileFormat, ParsedActivity, TrackPoint};

verus! {

/// The value of a field of a decoded FIT message.
#[derive(Debug, Clone, Copy, PartialEq, Eq, Structural)]
pub enum FitValue {
    SInt8(i8),
    UInt8(u8),
    UInt16(u16),
    SInt32(i32),
    /// A scaled quantity, in thousandths of its unit.
    Scaled(i32),
    /// A time stamp, in seconds since the Unix epoch.
    Timestamp(i64),
    /// A value of any other kind.
    Other,
}

/// A field of a decoded FIT message.
#[derive(Debug, Clone)]
pub struct FitField {
    pub name: String,
    pub value: FitValue,
}

/// A decoded FIT message.
#[derive(Debug, Clone)]
pub struct FitRecord {
    /// Whether the message is a `record` message, which holds a sample.
    pub is_record: bool,
    pub fields: Vec<FitField>,
}

/// An angle in semicircles, in degrees times 10^7: the semicircles times
/// 180 over 2^31.
pub open spec fn degrees_of(semicircles: i32) -> int {
    toward_zero(semicircles * 1_800_000_000, 2_147_483_648)
}

/// Converts an angle from semicircles to degrees times 10^7.
pub fn semicircles_to_degrees(semicircles: i32) -> (degrees: i32)
    ensures
        degrees == degrees_of(semicircles),
        -1_800_000_000 <= degrees <= 1_800_000_000,
{
    proof {
        let top: int = 3_865_470_566_400_000_000;
        assert(top == 2_147_483_648 * 1_800_000_000);
        assert(-top <= semicircles * 1_800_000_000 <= top);
        crate::fixed::lemma_toward_zero_monotonic(semicircles * 1_800_000_000, top, 2_147_483_648);
        crate::fixed::lemma_toward_zero_monotonic(
            -top,
            semicircles * 1_800_000_000,
            2_147_483_648,
        );
        assert(toward_zero(top, 2_147_483_648) == 1_800_000_000);
        assert(toward_zero(-top, 2_147_483_648) == -1_800_000_000);
    }
    divide_toward_zero(semicircles as i128 * 1_800_000_000, 2_147_483_648) as i32
}

/// A sample with the field taken in: the position from `position_lat` and
/// `position_long`, the time from `timestamp`, and heart rate, power,
/// cadence and temperature from the fields of these names. A field whose
/// value is not of the kind expected under its name is passed over.
pub open spec fn with_fit_field(sample: (TrackPoint, bool), name: Seq<char>, value: FitValue) -> (
    TrackPoint,
    bool,
) {
    let (point, located) = sample;
    if name == "position_lat"@ {
        match value {
            FitValue::SInt32(v) => (TrackPoint { lat: degrees_of(v) as i32, ..point }, true),
            _ => sample,
        }
    } else if name == "position_long"@ {
        match value {
            FitValue::SInt32(v) => (TrackPoint { lon: degrees_of(v) as i32, ..point }, true),
            _ => sample,
        }
    } else if name == "timestamp"@ {
        match value {
            FitValue::Timestamp(v) => (TrackPoint { time: Some(v), ..point }, located),
            _ => sample,
        }
    } else if name == "heart_rate"@ {
        match value {
            FitValue::UInt8(v) => (TrackPoint { heart_rate: Some(v as u16), ..point }, located),
            _ => sample,
        }
    } else if name == "power"@ {
        match value {
            FitValue::UInt16(v) => (TrackPoint { power: Some(v), ..point }, located),
            _ => sample,
        }
    } else if name == "cadence"@ {
        match value {
            FitValue::UInt8(v) => (TrackPoint { cadence: Some(v as u16), ..point }, located),
            _ => sample,
        }
    } else if name == "temperature"@ {
        match value {
            FitValue::SInt8(v) => (
                TrackPoint { temperature: Some((v * 1000) as i32), ..point },
                located,
            ),
            _ => sample,
        }
    } else {
        sample
    }
}

/// A sample without any field: at the origin, and not located.
pub open spec fn blank_sample() -> (TrackPoint, bool) {
    (
        TrackPoint {
            lat: 0,
            lon: 0,
            elevation: None,
            time: None,
            heart_rate: None,
            power: None,
            cadence: None,
            temperature: None,
        },
        false,
    )
}

/// The sample that the first `k` fields of a message give, without its elevation.
pub open spec fn sample_of(fields: Seq<FitField>, k: int) -> (TrackPoint, bool)
    decreases k,
{
    if k <= 0 {
        blank_sample()
    } else {
        with_fit_field(sample_of(fields, k - 1), fields[k - 1].name@, fields[k - 1].value)
    }
}

/// The scaled value of the last of the first `k` fields that has this name
/// and a scaled value.
pub open spec fn scaled_field(fields: Seq<FitField>, name: Seq<char>, k: int) -> Option<i32>
    decreases k,
{
    if k <= 0 {
        None
    } else if fields[k - 1].name@ == name {
        match fields[k - 1].value {
            FitValue::Scaled(v) => Some(v),
            _ => scaled_field(fields, name, k - 1),
        }
    } else {
        scaled_field(fields, name, k - 1)
    }
}

/// The elevation that the fields of a message give: that of `altitude`,
/// or else that of `enhanced_altitude`.
pub open spec fn elevation_of(fields: Seq<FitField>) -> Option<i32> {
    match scaled_field(fields, "altitude"@, fields.len() as int) {
        Some(v) => Some(v),
        None => scaled_field(fields, "enhanced_altitude"@, fields.len() as int),
    }
}

/// The sample that a message gives, and whether it has a position.
pub open spec fn full_sample(fields: Seq<FitField>) -> (TrackPoint, bool) {
    let (point, located) = sample_of(fields, fields.len() as int);
    (TrackPoint { elevation: elevation_of(fields), ..point }, located)
}

/// The track points of the first `k` messages: the samples of the `record`
/// messages that have a position, in their order.
pub open spec fn fit_points(records: Seq<FitRecord>, k: int) -> Seq<TrackPoint>
    decreases k,
{
    if k <= 0 {
        Seq::empty()
    } else {
        let before = fit_points(records, k - 1);
        let record = records[k - 1];
        let sample = full_sample(record.fields@);
        if record.is_record && sample.1 {
            before.push(sample.0)
        } else {
            before
        }
    }
}

/// Takes one field into a sample.
fn take_field(point: TrackPoint, located: bool, field: &FitField) -> (out: (TrackPoint, bool))
    ensures
        out == with_fit_field((point, located), field.name@, field.value),
{
    let name = field.name.as_str();
    let mut point = point;
    let mut located = located;
    if str_eq(name, "position_lat") {
        if let FitValue::SInt32(v) = field.value {
            point.lat = semicircles_to_degrees(v);
            located = true;
        }
    } else if str_eq(name, "position_long") {
        if let FitValue::SInt32(v) = field.value {
            point.lon = semicircles_to_degrees(v);
            located = true;
        }
    } else if str_eq(name, "timestamp") {
        if let FitValue::Timestamp(v) = field.value {
            point.time = Some(v);
        }
    } else if str_eq(name, "heart_rate") {
        if let FitValue::UInt8(v) = field.value {
            point.heart_rate = Some(v as u16);
        }
    } else if str_eq(name, "power") {
        if let FitValue::UInt16(v) = field.value {
            point.power = Some(v);
        }
    } else if str_eq(name, "cadence") {
        if let FitValue::UInt8(v) = field.value {
            point.cadence = Some(v as u16);
        }
    } else if str_eq(name, "temperature") {
        if let FitValue::SInt8(v) = field.value {
            point.temperature = Some(v as i32 * 1000);
        }
    }
    (point, located)
}

/// The parser of decoded FIT messages.
pub struct FitParser;

impl FitParser {
    /// Collects the track points of decoded FIT messages: one for every
    /// `record` message that has a position. Messages without a track
    /// point make an empty file.
    pub fn parse(&self, records: &Vec<FitRecord>) -> (result: Result<ParsedActivity, ParseError>)
        ensures
            match result {
                Ok(activity) => activity.points@ == fit_points(records@, records@.len() as int)
                    && activity.points@.len() > 0 && activity.file_format == FileFormat::Fit,
                Err(ParseError::EmptyFile) => fit_points(records@, records@.len() as int).len()
                    == 0,
                Err(_) => false,
            },
    {
        let mut points: Vec<TrackPoint> = Vec::new();
        let mut i: usize = 0;
        while i < records.len()
            invariant
                0 <= i <= records@.len(),
                points@ == fit_points(records@, i as int),
            decreases records@.len() - i,
        {
            let record = &records[i];
            if record.is_record {
                let mut point = TrackPoint {
                    lat: 0,
                    lon: 0,
                    elevation: None,
                    time: None,
                    heart_rate: None,
                    power: None,
                    cadence: None,
                    temperature: None,
                };
                let mut located = false;
                let mut altitude: Option<i32> = None;
                let mut enhanced: Option<i32> = None;
                let mut k: usize = 0;
                while k < record.fields.len()
                    invariant
                        0 <= k <= record.fields@.len(),
                        (point, located) == sample_of(record.fields@, k as int),
                        altitude == scaled_field(record.fields@, "altitude"@, k as int),
                        enhanced == scaled_field(record.fields@, "enhanced_altitude"@, k as int),
                    decreases record.fields@.len() - k,
                {
                    let field = &record.fields[k];
                    let taken = take_field(point, located, field);
                    point = taken.0;
                    located = taken.1;
                    if let FitValue::Scaled(v) = field.value {
                        if str_eq(field.name.as_str(), "altitude") {
                            altitude = Some(v);
                        }
                        if str_eq(field.name.as_str(), "enhanced_altitude") {
                            enhanced = Some(v);
                        }
                    }
                    k = k + 1;
                }
                point.elevation = match altitude {
                    Some(v) => Some(v),
                    None => enhanced,
                };
                if located {
                    points.push(point);
                }
            }
            i = i + 1;
        }
        if points.len() == 0 {
            return Err(ParseError::EmptyFile);
        }
        Ok(ParsedActivity { points, file_format: FileFormat::Fit })
    }
}

} // verus!
