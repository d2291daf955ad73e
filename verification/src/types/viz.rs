//! Values exchanged between the preparation, rendering and output stages.

use vstd::prelude::*;
use crate::text::{chars_of, lowered, reads_ignoring_case, str_eq};
use crate::types::gradient::Gradient;

verus! {

/// The kinds of chart a recording can be drawn as.
#[derive(Debug, Clone, Copy, PartialEq, Eq, Structural)]
pub enum VizType {
    Route,
    Elevation,
    HeartRate,
    Power,
}

/// The channel that colours the route.
#[derive(Debug, Clone, Copy, PartialEq, Eq, Structural)]
pub enum ColorByMetric {
    Elevation,
    Speed,
    HeartRate,
    Power,
}

/// A point of the route, ready to be drawn.
#[derive(Debug, Clone, Copy, PartialEq, Eq, Structural)]
pub struct RoutePoint {
    /// Horizontal position; millionths of the width once normalised.
    pub x: i64,
    /// Vertical position; millionths of the height once normalised.
    pub y: i64,
    /// Share of the route covered up to this point, in millionths.
    pub route_progress: u64,
    /// Distance covered up to this point, in millimetres.
    pub cumulative_distance_mm: u64,
    /// Elevation gained up to this point, in millimetres.
    pub cumulative_elevation_gain_mm: u64,
    /// Seconds elapsed up to this point, where the activity has a duration.
    pub elapsed_seconds: Option<u64>,
    /// Heart rate at this point.
    pub heart_rate: Option<u16>,
    /// Power at this point.
    pub power: Option<u16>,
    /// Mean heart rate up to this point, in thousandths of a beat per minute.
    pub cumulative_avg_heart_rate: Option<u32>,
    /// Highest heart rate up to this point.
    pub cumulative_max_heart_rate: Option<u16>,
    /// Mean power up to this point, in thousandths of a watt.
    pub cumulative_avg_power: Option<u32>,
    /// Highest power up to this point.
    pub cumulative_max_power: Option<u16>,
    /// Colour value of the segment that starts here, in millionths.
    pub value: Option<u64>,
    /// Elevation of the recorded point, in millimetres.
    pub elevation: Option<i32>,
}

/// The ordered points of a route.
#[derive(Debug, Clone)]
pub struct VizData {
    pub points: Vec<RoutePoint>,
}

/// What the renderer is asked to draw.
#[derive(Debug, Clone)]
pub struct RenderOptions {
    /// Canvas width in pixels.
    pub width: u32,
    /// Canvas height in pixels.
    pub height: u32,
    /// Margin kept free on every side, in pixels.
    pub padding: u32,
    /// Stroke width in tenths of a pixel.
    pub stroke_width: u32,
    pub gradient: Gradient,
    pub color_by: Option<ColorByMetric>,
    /// Smoothing level, 0 to 100.
    pub smoothing: usize,
    pub glow: bool,
    /// Frames of an animation, 8 to 180.
    pub animation_frames: u32,
    /// Length of an animation in milliseconds, 500 to 8000.
    pub animation_duration_ms: u32,
    /// Curve tension in millionths, derived from the smoothing level.
    pub curve_tension: u32,
    /// Every how many points one is kept, derived from the smoothing level.
    pub simplify: usize,
}

/// Size and finish of the painted image.
#[derive(Debug, Clone, Copy, PartialEq, Eq)]
pub struct OutputConfig {
    pub width: u32,
    pub height: u32,
    /// Red, green, blue and alpha of the background; none leaves it transparent.
    pub background: Option<(u8, u8, u8, u8)>,
    pub watermark: bool,
}

/// One line of the statistics overlay.
#[derive(Debug, Clone)]
pub struct StatOverlayItem {
    pub label: String,
    pub value: String,
    /// Position of the line's colour along the gradient, in millionths.
    pub color_t: u64,
}

/// The kind of chart that a name stands for, whatever its case.
pub open spec fn viz_type_named(name: Seq<char>) -> Option<VizType> {
    let lower = lowered(name);
    if lower == "route"@ {
        Some(VizType::Route)
    } else if lower == "elevation"@ {
        Some(VizType::Elevation)
    } else if lower == "heartrate"@ || lower == "heart_rate"@ {
        Some(VizType::HeartRate)
    } else if lower == "power"@ {
        Some(VizType::Power)
    } else {
        None
    }
}

impl VizType {
    /// Reads the name of a kind of chart.
    pub fn from_str(s: &str) -> (kind: Option<Self>)
        ensures
            kind == viz_type_named(s@),
    {
        let chars = chars_of(s);
        if reads_ignoring_case(&chars, "route") {
            Some(VizType::Route)
        } else if reads_ignoring_case(&chars, "elevation") {
            Some(VizType::Elevation)
        } else if reads_ignoring_case(&chars, "heartrate") || reads_ignoring_case(
            &chars,
            "heart_rate",
        ) {
            Some(VizType::HeartRate)
        } else if reads_ignoring_case(&chars, "power") {
            Some(VizType::Power)
        } else {
            None
        }
    }

    /// The name of this kind of chart.
    pub open spec fn name_of(self) -> Seq<char> {
        match self {
            VizType::Route => "route"@,
            VizType::Elevation => "elevation"@,
            VizType::HeartRate => "heartrate"@,
            VizType::Power => "power"@,
        }
    }

    /// The name of this kind of chart.
    pub fn as_str(&self) -> (name: &'static str)
        ensures
            name@ == self.name_of(),
    {
        match self {
            VizType::Route => "route",
            VizType::Elevation => "elevation",
            VizType::HeartRate => "heartrate",
            VizType::Power => "power",
        }
    }
}

/// The channel that a name stands for, whatever its case.
pub open spec fn color_by_named(name: Seq<char>) -> Option<ColorByMetric> {
    let lower = lowered(name);
    if lower == "elevation"@ {
        Some(ColorByMetric::Elevation)
    } else if lower == "speed"@ {
        Some(ColorByMetric::Speed)
    } else if lower == "heartrate"@ || lower == "heart_rate"@ {
        Some(ColorByMetric::HeartRate)
    } else if lower == "power"@ {
        Some(ColorByMetric::Power)
    } else {
        None
    }
}

impl ColorByMetric {
    /// Reads the name of a colouring channel.
    pub fn from_str(s: &str) -> (metric: Option<Self>)
        ensures
            metric == color_by_named(s@),
    {
        let chars = chars_of(s);
        if reads_ignoring_case(&chars, "elevation") {
            Some(ColorByMetric::Elevation)
        } else if reads_ignoring_case(&chars, "speed") {
            Some(ColorByMetric::Speed)
        } else if reads_ignoring_case(&chars, "heartrate") || reads_ignoring_case(
            &chars,
            "heart_rate",
        ) {
            Some(ColorByMetric::HeartRate)
        } else if reads_ignoring_case(&chars, "power") {
            Some(ColorByMetric::Power)
        } else {
            None
        }
    }
}

impl RenderOptions {
    /// The options of the three-dimensional route before a request changes
    /// them: a wide canvas, the `fire` gradient, glow, and the smoothing
    /// level 30 with the stride and tension it stands for.
    pub fn route_3d_defaults() -> (options: Self)
        ensures
            options.width == 1920,
            options.height == 1080,
            options.padding == 40,
            options.stroke_width == 30,
            options.gradient.name@ == "fire"@,
            options.gradient.stops() == seq!["#FF3366"@, "#FF6600"@, "#FF9933"@],
            options.color_by.is_none(),
            options.smoothing == 30,
            options.glow,
            options.animation_frames == 72,
            options.animation_duration_ms == 3000,
            options.curve_tension == 135_000,
            options.simplify == 10,
    {
        RenderOptions {
            width: 1920,
            height: 1080,
            padding: 40,
            stroke_width: 30,
            gradient: Gradient::default(),
            color_by: None,
            smoothing: 30,
            glow: true,
            animation_frames: 72,
            animation_duration_ms: 3000,
            curve_tension: 135_000,
            simplify: 10,
        }
    }

    /// The options of a named output format: `story`, `post` or `wide`.
    pub fn from_format(format: &str) -> (options: Option<Self>)
        ensures
            match options {
                Some(o) => {
                    &&& format@ == "story"@ ==> o.width == 1080 && o.height == 1920
                    &&& format@ == "post"@ ==> o.width == 1080 && o.height == 1080
                    &&& format@ == "wide"@ ==> o.width == 1920 && o.height == 1080
                    &&& format@ == "story"@ || format@ == "post"@ || format@ == "wide"@
                    &&& o.padding == 80
                    &&& o.stroke_width == 40
                    &&& o.gradient.name@ == "fire"@
                    &&& o.gradient.stops() == seq!["#FF3366"@, "#FF6600"@, "#FF9933"@]
                    &&& o.color_by.is_none()
                    &&& o.smoothing == 5
                    &&& o.glow
                    &&& o.animation_frames == 72
                    &&& o.animation_duration_ms == 3000
                    &&& o.curve_tension == 300_000
                    &&& o.simplify == 5
                },
                None => !(format@ == "story"@ || format@ == "post"@ || format@ == "wide"@),
            },
    {
        proof {
            reveal_strlit("story");
            reveal_strlit("post");
            reveal_strlit("wide");
            assert("story"@.len() == 5 && "post"@.len() == 4 && "wide"@.len() == 4);
            assert("post"@[0] == 'p' && "wide"@[0] == 'w');
        }
        let (width, height): (u32, u32) = if str_eq(format, "story") {
            (1080, 1920)
        } else if str_eq(format, "post") {
            (1080, 1080)
        } else if str_eq(format, "wide") {
            (1920, 1080)
        } else {
            return None;
        };
        Some(
            RenderOptions {
                width,
                height,
                padding: 80,
                stroke_width: 40,
                gradient: Gradient::default(),
                color_by: None,
                smoothing: 5,
                glow: true,
                animation_frames: 72,
                animation_duration_ms: 3000,
                curve_tension: 300_000,
                simplify: 5,
            },
        )
    }
}

} // verus!
