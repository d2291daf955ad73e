//! What an upload is answered with.

use vstd::prelude::*;
use vstd::string::StringExecFns;
use crate::types::activity::{AvailableData, FileFormat};

verus! {

/// The name of a file format.
pub open spec fn format_name_of(format: FileFormat) -> Seq<char> {
    match format {
        FileFormat::Gpx => "gpx"@,
        FileFormat::Fit => "fit"@,
    }
}

/// The name of a file format.
pub fn format_name(format: FileFormat) -> (name: &'static str)
    ensures
        name@ == format_name_of(format),
{
    match format {
        FileFormat::Gpx => "gpx",
        FileFormat::Fit => "fit",
    }
}

/// The names of the charts that the channels of an activity allow, in the
/// order route, elevation, heart rate, power.
pub open spec fn visualizations_of(data: AvailableData) -> Seq<Seq<char>> {
    (if data.has_coordinates {
        seq!["route"@]
    } else {
        Seq::<Seq<char>>::empty()
    }) + (if data.has_elevation {
        seq!["elevation"@]
    } else {
        Seq::<Seq<char>>::empty()
    }) + (if data.has_heart_rate {
        seq!["heartrate"@]
    } else {
        Seq::<Seq<char>>::empty()
    }) + (if data.has_power {
        seq!["power"@]
    } else {
        Seq::<Seq<char>>::empty()
    })
}

/// Lists the charts that the channels of an activity allow.
pub fn get_available_visualizations(data: &AvailableData) -> (names: Vec<String>)
    ensures
        crate::routes::visualize::texts_of(names@) == visualizations_of(*data),
{
    let mut names: Vec<String> = Vec::new();
    if data.has_coordinates {
        names.push(String::from_str("route"));
    }
    if data.has_elevation {
        names.push(String::from_str("elevation"));
    }
    if data.has_heart_rate {
        names.push(String::from_str("heartrate"));
    }
    if data.has_power {
        names.push(String::from_str("power"));
    }
    assert(crate::routes::visualize::texts_of(names@) =~= visualizations_of(*data));
    names
}

} // verus!
