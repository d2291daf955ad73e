//! Reading GPX: the track points of an XML document.

use vstd::prelude::*;
use vstd::string::StringExecFns;
use quick_xml::events::Event;
use quick_xml::Reader;
use crate::error::ParseError;
use crate::text::{chars_of, fixed_point_of, parse_fixed, parse_u16, str_eq, unsigned_of};
use crate::types::activity::{FileFormat, ParsedActivity, TrackPoint};

verus! {

/// One step of reading an XML document.
#[derive(Debug)]
pub enum XmlEvent {
    /// A start tag or an empty element: its name, and its attributes as
    /// pairs of key and raw value, or the fault found in one.
    Open { name: Vec<u8>, attributes: Vec<Result<(Vec<u8>, Vec<u8>), String>> },
    /// Character data with its escapes resolved, or the fault found in it.
    Text(Result<String, String>),
    /// An end tag: its name.
    Close { name: Vec<u8> },
    /// The end of the document.
    Eof,
    /// Anything else: a comment, a declaration, a processing instruction.
    Other,
}

/// One step of reading an XML document, as plain values.
pub enum EventView {
    Open { name: Seq<u8>, attributes: Seq<Result<(Seq<u8>, Seq<u8>), Seq<char>>> },
    Text(Result<Seq<char>, Seq<char>>),
    Close { name: Seq<u8> },
    Eof,
    Other,
}

/// An attribute as plain values.
pub open spec fn attribute_view(attribute: Result<(Vec<u8>, Vec<u8>), String>) -> Result<
    (Seq<u8>, Seq<u8>),
    Seq<char>,
> {
    match attribute {
        Ok((key, value)) => Ok((key@, value@)),
        Err(fault) => Err(fault@),
    }
}

/// Attributes as plain values.
pub open spec fn attributes_view(attributes: Seq<Result<(Vec<u8>, Vec<u8>), String>>) -> Seq<
    Result<(Seq<u8>, Seq<u8>), Seq<char>>,
> {
    Seq::new(attributes.len(), |i: int| attribute_view(attributes[i]))
}

impl XmlEvent {
    /// The event as plain values.
    pub open spec fn view(&self) -> EventView {
        match *self {
            XmlEvent::Open { name, attributes } => EventView::Open {
                name: name@,
                attributes: attributes_view(attributes@),
            },
            XmlEvent::Text(Ok(text)) => EventView::Text(Ok(text@)),
            XmlEvent::Text(Err(fault)) => EventView::Text(Err(fault@)),
            XmlEvent::Close { name } => EventView::Close { name: name@ },
            XmlEvent::Eof => EventView::Eof,
            XmlEvent::Other => EventView::Other,
        }
    }
}

/// A step of the reading as plain values.
pub open spec fn step_view(step: Result<XmlEvent, String>) -> Result<EventView, Seq<char>> {
    match step {
        Ok(event) => Ok(event@),
        Err(fault) => Err(fault@),
    }
}

/// Steps of the reading as plain values.
pub open spec fn steps_view(steps: Seq<Result<XmlEvent, String>>) -> Seq<
    Result<EventView, Seq<char>>,
> {
    Seq::new(steps.len(), |i: int| step_view(steps[i]))
}

#[verifier::external_type_specification]
#[verifier::external_body]
#[verifier::reject_recursive_types(R)]
pub struct ExReader<R>(Reader<R>);

/// The steps in which a document is read, with white space around
/// character data trimmed: each an event or the fault that ends the
/// reading, up to the end of the document or the first fault.
pub uninterp spec fn xml_events(bytes: Seq<u8>) -> Seq<Result<EventView, Seq<char>>>;

/// The steps that a reader has yet to yield.
pub uninterp spec fn pending_events(reader: Reader<&[u8]>) -> Seq<Result<EventView, Seq<char>>>;

/// The text that bytes encode in UTF-8, or what is wrong with them.
pub uninterp spec fn utf8_of(bytes: Seq<u8>) -> Result<Seq<char>, Seq<char>>;

/// The seconds since the Unix epoch of a time stamp written in the relaxed
/// form of RFC 3339 that `chrono` reads; none for any other text.
pub uninterp spec fn timestamp_of(text: Seq<char>) -> Option<i64>;

/// Whether a step ends the reading.
pub open spec fn is_last(step: Result<EventView, Seq<char>>) -> bool {
    step.is_err() || step == Ok::<EventView, Seq<char>>(EventView::Eof)
}

/// `Reader::from_reader` with `trim_text(true)`: a reader at the start of
/// the document, with all its steps to yield.
#[verifier::external_body]
fn open_reader<'a>(bytes: &'a [u8]) -> (reader: Reader<&'a [u8]>)
    ensures
        pending_events(reader) == xml_events(bytes@),
        pending_events(reader).len() > 0,
{
    let mut reader = Reader::from_reader(bytes);
    reader.trim_text(true);
    reader
}

/// `Reader::read_event`: yields the next step, with names and attribute
/// values as the bytes they are and character data unescaped. After a step
/// that does not end the reading, another is left.
#[verifier::external_body]
fn next_xml_event(reader: &mut Reader<&[u8]>) -> (step: Result<XmlEvent, String>)
    ensures
        pending_events(*old(reader)).len() > 0 ==> step_view(step) == pending_events(
            *old(reader),
        )[0] && pending_events(*final(reader)) == pending_events(*old(reader)).drop_first(),
        pending_events(*old(reader)).len() > 0 && !is_last(step_view(step)) ==> pending_events(
            *final(reader),
        ).len() > 0,
{
    Ok(match reader.read_event().map_err(|e| e.to_string())? {
        Event::Start(e) | Event::Empty(e) => XmlEvent::Open {
            name: e.name().0.to_vec(),
            attributes: e.attributes().map(|a| a.map(|a| (a.key.0.to_vec(), a.value.into_owned())).map_err(|e| e.to_string())).collect(),
        },
        Event::Text(e) => XmlEvent::Text(e.unescape().map(|t| t.into_owned()).map_err(|e| e.to_string())),
        Event::End(e) => XmlEvent::Close { name: e.name().0.to_vec() },
        Event::Eof => XmlEvent::Eof,
        _ => XmlEvent::Other,
    })
}

/// `std::str::from_utf8`: the text that the bytes encode, or the fault.
#[verifier::external_body]
fn utf8_text(bytes: &Vec<u8>) -> (text: Result<String, String>)
    ensures
        match (text, utf8_of(bytes@)) {
            (Ok(t), Ok(expected)) => t@ == expected,
            (Err(e), Err(expected)) => e@ == expected,
            _ => false,
        },
{
    std::str::from_utf8(bytes).map(|s| s.to_string()).map_err(|e| e.to_string())
}

/// `DateTime::<Utc>::from_str` and `DateTime::timestamp`: the seconds since
/// the Unix epoch of a time stamp.
#[verifier::external_body]
fn parse_timestamp(text: &str) -> (seconds: Option<i64>)
    ensures
        seconds == timestamp_of(text@),
{
    text.parse::<chrono::DateTime<chrono::Utc>>().ok().map(|t| t.timestamp())
}

/// A coordinate written in degrees, in degrees times 10^7.
pub open spec fn coordinate_of(text: Seq<char>) -> Option<i32> {
    match fixed_point_of(text, 7, 0x7FFF_FFFF) {
        Some(v) => Some(v as i32),
        None => None,
    }
}

/// A quantity written in whole units, in thousandths of the unit.
pub open spec fn thousandths_of(text: Seq<char>) -> Option<i32> {
    match fixed_point_of(text, 3, 0x7FFF_FFFF) {
        Some(v) => Some(v as i32),
        None => None,
    }
}

/// A count written in digits.
pub open spec fn count_of(text: Seq<char>) -> Option<u16> {
    match unsigned_of(text, 65535) {
        Some(v) => Some(v as u16),
        None => None,
    }
}

/// Reads a coordinate.
fn parse_coordinate(text: &str) -> (value: Option<i32>)
    ensures
        value == coordinate_of(text@),
{
    let chars = chars_of(text);
    match parse_fixed(&chars, 7, 0x7FFF_FFFF) {
        Some(v) => Some(v as i32),
        None => None,
    }
}

/// Reads a quantity in thousandths of its unit.
fn parse_thousandths(text: &str) -> (value: Option<i32>)
    ensures
        value == thousandths_of(text@),
{
    let chars = chars_of(text);
    match parse_fixed(&chars, 3, 0x7FFF_FFFF) {
        Some(v) => Some(v as i32),
        None => None,
    }
}

/// Reads a count.
fn parse_count(text: &str) -> (value: Option<u16>)
    ensures
        value == count_of(text@),
{
    let chars = chars_of(text);
    parse_u16(&chars)
}

/// The latitude and longitude that the first `k` attributes of a track
/// point give, or the first fault among them: a fault of the attribute
/// itself, of the encoding of its key, or of the encoding of its value.
pub open spec fn position_from(
    attributes: Seq<Result<(Seq<u8>, Seq<u8>), Seq<char>>>,
    k: int,
) -> Result<(Option<i32>, Option<i32>), Seq<char>>
    decreases k,
{
    if k <= 0 {
        Ok((None, None))
    } else {
        match position_from(attributes, k - 1) {
            Err(fault) => Err(fault),
            Ok((lat, lon)) => match attributes[k - 1] {
                Err(fault) => Err(fault),
                Ok((key, value)) => match (utf8_of(key), utf8_of(value)) {
                    (Err(fault), _) => Err(fault),
                    (Ok(_), Err(fault)) => Err(fault),
                    (Ok(key_text), Ok(value_text)) => if key_text == "lat"@ {
                        Ok((coordinate_of(value_text), lon))
                    } else if key_text == "lon"@ {
                        Ok((lat, coordinate_of(value_text)))
                    } else {
                        Ok((lat, lon))
                    },
                },
            },
        }
    }
}

/// Reads the latitude and longitude of a track point from its attributes.
#[verifier::rlimit(40)]
fn track_position(attributes: &Vec<Result<(Vec<u8>, Vec<u8>), String>>) -> (result: Result<
    (Option<i32>, Option<i32>),
    ParseError,
>)
    ensures
        match (result, position_from(attributes_view(attributes@), attributes@.len() as int)) {
            (Ok(found), Ok(expected)) => found == expected,
            (Err(ParseError::InvalidGpx(text)), Err(fault)) => text@ == fault,
            _ => false,
        },
{
    let mut lat: Option<i32> = None;
    let mut lon: Option<i32> = None;
    let mut k: usize = 0;
    while k < attributes.len()
        invariant
            0 <= k <= attributes@.len(),
            position_from(attributes_view(attributes@), k as int) == Ok::<
                (Option<i32>, Option<i32>),
                Seq<char>,
            >((lat, lon)),
        decreases attributes@.len() - k,
    {
        match &attributes[k] {
            Err(fault) => {
                proof {
                    lemma_position_fault(
                                attributes_view(attributes@),
                                k + 1,
                                attributes@.len() as int,
                            );
                }
                return Err(ParseError::InvalidGpx(fault.clone()));
            },
            Ok((key, value)) => {
                let key_text = match utf8_text(key) {
                    Ok(text) => text,
                    Err(fault) => {
                        proof {
                            lemma_position_fault(
                                attributes_view(attributes@),
                                k + 1,
                                attributes@.len() as int,
                            );
                        }
                        return Err(ParseError::InvalidGpx(fault));
                    },
                };
                let value_text = match utf8_text(value) {
                    Ok(text) => text,
                    Err(fault) => {
                        proof {
                            lemma_position_fault(
                                attributes_view(attributes@),
                                k + 1,
                                attributes@.len() as int,
                            );
                        }
                        return Err(ParseError::InvalidGpx(fault));
                    },
                };
                if str_eq(key_text.as_str(), "lat") {
                    lat = parse_coordinate(value_text.as_str());
                } else if str_eq(key_text.as_str(), "lon") {
                    lon = parse_coordinate(value_text.as_str());
                }
            },
        }
        k = k + 1;
    }
    Ok((lat, lon))
}

/// A fault among the attributes stays the fault of all of them.
pub proof fn lemma_position_fault(
    attributes: Seq<Result<(Seq<u8>, Seq<u8>), Seq<char>>>,
    k: int,
    n: int,
)
    requires
        0 <= k <= n,
        position_from(attributes, k).is_err(),
    ensures
        position_from(attributes, n) == position_from(attributes, k),
    decreases n - k,
{
    if k < n {
        lemma_position_fault(attributes, k, n - 1);
    }
}

/// How far the reading of a document has come.
pub struct GpxState {
    /// The track points closed so far.
    pub points: Vec<TrackPoint>,
    /// Whether a track point is open.
    pub in_trkpt: bool,
    /// The track point that is being filled.
    pub current_point: Option<TrackPoint>,
    /// The name of the element opened last inside a track point.
    pub current_element: String,
}

/// A track point with nothing but its position.
pub open spec fn bare_point(lat: i32, lon: i32) -> TrackPoint {
    TrackPoint {
        lat,
        lon,
        elevation: None,
        time: None,
        heart_rate: None,
        power: None,
        cadence: None,
        temperature: None,
    }
}

/// A track point with the field that an element names set from the
/// element's text: elevation, time, heart rate, power, cadence or
/// temperature. A text that does not read as a value of the field clears
/// the field. Other elements change nothing.
pub open spec fn with_field(point: TrackPoint, element: Seq<char>, text: Seq<char>) -> TrackPoint {
    if element == "ele"@ {
        TrackPoint { elevation: thousandths_of(text), ..point }
    } else if element == "time"@ {
        TrackPoint { time: timestamp_of(text), ..point }
    } else if element == "hr"@ || element == "gpxtpx:hr"@ {
        TrackPoint { heart_rate: count_of(text), ..point }
    } else if element == "power"@ || element == "gpxtpx:power"@ {
        TrackPoint { power: count_of(text), ..point }
    } else if element == "cad"@ || element == "gpxtpx:cad"@ {
        TrackPoint { cadence: count_of(text), ..point }
    } else if element == "atemp"@ || element == "gpxtpx:atemp"@ {
        TrackPoint { temperature: thousandths_of(text), ..point }
    } else {
        point
    }
}

/// Sets the field of a track point that an element names.
fn set_field(point: TrackPoint, element: &str, text: &str) -> (out: TrackPoint)
    ensures
        out == with_field(point, element@, text@),
{
    let mut out = point;
    if str_eq(element, "ele") {
        out.elevation = parse_thousandths(text);
    } else if str_eq(element, "time") {
        out.time = parse_timestamp(text);
    } else if str_eq(element, "hr") || str_eq(element, "gpxtpx:hr") {
        out.heart_rate = parse_count(text);
    } else if str_eq(element, "power") || str_eq(element, "gpxtpx:power") {
        out.power = parse_count(text);
    } else if str_eq(element, "cad") || str_eq(element, "gpxtpx:cad") {
        out.cadence = parse_count(text);
    } else if str_eq(element, "atemp") || str_eq(element, "gpxtpx:atemp") {
        out.temperature = parse_thousandths(text);
    }
    out
}

/// The state of the reading, as plain values.
pub struct GpxView {
    pub points: Seq<TrackPoint>,
    pub in_trkpt: bool,
    pub current_point: Option<TrackPoint>,
    pub current_element: Seq<char>,
}

/// The state after an event, or the fault that the event brings to light.
///
/// An opening `trkpt` starts a track point, with the position that its
/// attributes give. Any other element opened inside a track point becomes
/// the current element. Text inside a track point fills the field that the
/// current element names. A closing `trkpt` adds the track point to the
/// track. Faults in names are found always; faults in attributes only on
/// `trkpt`; faults in text only inside a track point that has a position.
pub open spec fn step_of(state: GpxView, event: EventView) -> Result<GpxView, Seq<char>> {
    match event {
        EventView::Open { name, attributes } => match utf8_of(name) {
            Err(fault) => Err(fault),
            Ok(name_text) => if name_text == "trkpt"@ {
                match position_from(attributes, attributes.len() as int) {
                    Err(fault) => Err(fault),
                    Ok((Some(lat), Some(lon))) => Ok(
                        GpxView {
                            in_trkpt: true,
                            current_point: Some(bare_point(lat, lon)),
                            ..state
                        },
                    ),
                    Ok(_) => Ok(GpxView { in_trkpt: true, ..state }),
                }
            } else if state.in_trkpt {
                Ok(GpxView { current_element: name_text, ..state })
            } else {
                Ok(state)
            },
        },
        EventView::Text(content) => match (state.in_trkpt, state.current_point, content) {
            (true, Some(_), Err(fault)) => Err(fault),
            (true, Some(point), Ok(text)) => Ok(
                GpxView {
                    current_point: Some(with_field(point, state.current_element, text)),
                    ..state
                },
            ),
            _ => Ok(state),
        },
        EventView::Close { name } => match utf8_of(name) {
            Err(fault) => Err(fault),
            Ok(name_text) => if name_text == "trkpt"@ {
                Ok(
                    GpxView {
                        points: match state.current_point {
                            Some(point) => state.points.push(point),
                            None => state.points,
                        },
                        in_trkpt: false,
                        current_point: None,
                        current_element: state.current_element,
                    },
                )
            } else {
                Ok(state)
            },
        },
        EventView::Eof => Ok(state),
        EventView::Other => Ok(state),
    }
}

impl GpxState {
    /// The state as plain values.
    pub open spec fn view(&self) -> GpxView {
        GpxView {
            points: self.points@,
            in_trkpt: self.in_trkpt,
            current_point: self.current_point,
            current_element: self.current_element@,
        }
    }

    /// The state before anything is read.
    pub fn new() -> (state: Self)
        ensures
            state@ == start_view(),
    {
        GpxState {
            points: Vec::new(),
            in_trkpt: false,
            current_point: None,
            current_element: String::new(),
        }
    }

    /// Takes in one event; see [`step_of`].
    #[verifier::rlimit(40)]
    pub fn feed(&mut self, event: &XmlEvent) -> (result: Result<(), ParseError>)
        ensures
            match (result, step_of(old(self)@, event@)) {
                (Ok(_), Ok(next)) => final(self)@ == next,
                (Err(ParseError::InvalidGpx(text)), Err(fault)) => text@ == fault,
                _ => false,
            },
    {
        match event {
            XmlEvent::Open { name, attributes } => {
                let name_text = match utf8_text(name) {
                    Ok(text) => text,
                    Err(fault) => {
                        return Err(ParseError::InvalidGpx(fault));
                    },
                };
                if str_eq(name_text.as_str(), "trkpt") {
                    let (lat, lon) = match track_position(attributes) {
                        Ok(found) => found,
                        Err(e) => {
                            return Err(e);
                        },
                    };
                    self.in_trkpt = true;
                    match (lat, lon) {
                        (Some(lat), Some(lon)) => {
                            self.current_point = Some(
                                TrackPoint {
                                    lat,
                                    lon,
                                    elevation: None,
                                    time: None,
                                    heart_rate: None,
                                    power: None,
                                    cadence: None,
                                    temperature: None,
                                },
                            );
                        },
                        _ => {},
                    }
                } else if self.in_trkpt {
                    self.current_element = name_text;
                }
                Ok(())
            },
            XmlEvent::Text(content) => {
                if self.in_trkpt {
                    if let Some(point) = self.current_point {
                        match content {
                            Err(fault) => {
                                return Err(ParseError::InvalidGpx(fault.clone()));
                            },
                            Ok(text) => {
                                self.current_point = Some(
                                    set_field(point, self.current_element.as_str(), text.as_str()),
                                );
                            },
                        }
                    }
                }
                Ok(())
            },
            XmlEvent::Close { name } => {
                let name_text = match utf8_text(name) {
                    Ok(text) => text,
                    Err(fault) => {
                        return Err(ParseError::InvalidGpx(fault));
                    },
                };
                if str_eq(name_text.as_str(), "trkpt") {
                    if let Some(point) = self.current_point {
                        self.points.push(point);
                    }
                    self.current_point = None;
                    self.in_trkpt = false;
                }
                Ok(())
            },
            XmlEvent::Eof => Ok(()),
            XmlEvent::Other => Ok(()),
        }
    }
}

/// The state before anything is read.
pub open spec fn start_view() -> GpxView {
    GpxView {
        points: Seq::empty(),
        in_trkpt: false,
        current_point: None,
        current_element: Seq::empty(),
    }
}

/// What reading the steps from `state` on yields: the track points at the
/// end of the document, or the first fault: of the reading itself, or one
/// that an event brings to light. Where the steps run out, the track
/// points so far.
pub open spec fn track_from(state: GpxView, steps: Seq<Result<EventView, Seq<char>>>) -> Result<
    Seq<TrackPoint>,
    Seq<char>,
>
    decreases steps.len(),
{
    if steps.len() == 0 {
        Ok(state.points)
    } else {
        match steps[0] {
            Err(fault) => Err(fault),
            Ok(EventView::Eof) => Ok(state.points),
            Ok(event) => match step_of(state, event) {
                Err(fault) => Err(fault),
                Ok(next) => track_from(next, steps.drop_first()),
            },
        }
    }
}

/// The activity that a GPX document holds: its track points in the order
/// in which they are closed. A document that cannot be read is invalid,
/// with the fault as the reason; one without a track point is empty.
pub open spec fn gpx_outcome(steps: Seq<Result<EventView, Seq<char>>>) -> Result<
    Seq<TrackPoint>,
    Option<Seq<char>>,
> {
    match track_from(start_view(), steps) {
        Err(fault) => Err(Some(fault)),
        Ok(points) => if points.len() == 0 {
            Err(None)
        } else {
            Ok(points)
        },
    }
}

/// Whether a result is the given outcome.
pub open spec fn is_outcome(
    result: Result<ParsedActivity, ParseError>,
    outcome: Result<Seq<TrackPoint>, Option<Seq<char>>>,
) -> bool {
    match (result, outcome) {
        (Ok(activity), Ok(points)) => activity.points@ == points && activity.file_format
            == FileFormat::Gpx,
        (Err(ParseError::InvalidGpx(text)), Err(Some(fault))) => text@ == fault,
        (Err(ParseError::EmptyFile), Err(None)) => true,
        _ => false,
    }
}

/// Reads the track of a list of steps; see [`gpx_outcome`].
pub fn track_of_steps(steps: &Vec<Result<XmlEvent, String>>) -> (result: Result<
    ParsedActivity,
    ParseError,
>)
    ensures
        is_outcome(result, gpx_outcome(steps_view(steps@))),
{
    let mut state = GpxState::new();
    let mut i: usize = 0;
    let ghost all = steps_view(steps@);
    assert(all.subrange(0, all.len() as int) =~= all);
    while i < steps.len()
        invariant
            0 <= i <= steps@.len(),
            all == steps_view(steps@),
            track_from(start_view(), all) == track_from(
                state@,
                all.subrange(i as int, all.len() as int),
            ),
        decreases steps@.len() - i,
    {
        let ghost rest = all.subrange(i as int, all.len() as int);
        assert(rest[0] == step_view(steps@[i as int]));
        assert(rest.drop_first() =~= all.subrange(i + 1, all.len() as int));
        match &steps[i] {
            Err(fault) => {
                return Err(ParseError::InvalidGpx(fault.clone()));
            },
            Ok(XmlEvent::Eof) => {
                return finish(state);
            },
            Ok(event) => {
                match state.feed(event) {
                    Ok(_) => {},
                    Err(e) => {
                        return Err(e);
                    },
                }
            },
        }
        i = i + 1;
    }
    finish(state)
}

/// The activity of the track points read, if there are any.
fn finish(state: GpxState) -> (result: Result<ParsedActivity, ParseError>)
    ensures
        match result {
            Ok(activity) => state.points@.len() > 0 && activity.points@ == state.points@
                && activity.file_format == FileFormat::Gpx,
            Err(ParseError::EmptyFile) => state.points@.len() == 0,
            Err(_) => false,
        },
{
    if state.points.len() == 0 {
        return Err(ParseError::EmptyFile);
    }
    Ok(ParsedActivity { points: state.points, file_format: FileFormat::Gpx })
}

/// The parser of GPX documents.
pub struct GpxParser;

impl GpxParser {
    /// Reads the track points of a GPX document; see [`gpx_outcome`].
    pub fn parse(&self, bytes: &[u8]) -> (result: Result<ParsedActivity, ParseError>)
        ensures
            is_outcome(result, gpx_outcome(xml_events(bytes@))),
    {
        let mut reader = open_reader(bytes);
        let mut state = GpxState::new();
        loop
            invariant
                pending_events(reader).len() > 0,
                track_from(start_view(), xml_events(bytes@)) == track_from(
                    state@,
                    pending_events(reader),
                ),
            decreases pending_events(reader).len(),
        {
            match next_xml_event(&mut reader) {
                Err(fault) => {
                    return Err(ParseError::InvalidGpx(fault));
                },
                Ok(XmlEvent::Eof) => {
                    return finish(state);
                },
                Ok(event) => {
                    match state.feed(&event) {
                        Ok(_) => {},
                        Err(e) => {
                            return Err(e);
                        },
                    }
                },
            }
        }
    }
}

} // verus!
