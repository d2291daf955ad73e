use rideviz_rs::error::ParseError;
use rideviz_rs::pipeline::parse::fit::{semicircles_to_degrees, FitField, FitParser, FitRecord, FitValue};
use rideviz_rs::pipeline::parse::gpx::{track_of_steps, GpxParser, GpxState, XmlEvent};
use rideviz_rs::pipeline::parse::{parse, ActivitySource};
use rideviz_rs::types::activity::{FileFormat, TrackPoint};

const RIDE: &str = r#"<?xml version="1.0" encoding="UTF-8"?>
<gpx version="1.1" creator="test" xmlns:gpxtpx="http://www.garmin.com/xmlschemas/TrackPointExtension/v1">
  <metadata><time>2024-01-01T09:59:00Z</time></metadata>
  <trk><name>Morning &amp; ride</name><trkseg>
    <trkpt lat="52.52" lon="13.405">
      <ele>34</ele>
      <time>2024-01-01T10:00:00Z</time>
      <extensions><gpxtpx:TrackPointExtension>
        <gpxtpx:hr>142</gpxtpx:hr><gpxtpx:cad>88</gpxtpx:cad><gpxtpx:atemp>21.5</gpxtpx:atemp>
      </gpxtpx:TrackPointExtension></extensions>
    </trkpt>
    <!-- a point without a position is passed over -->
    <trkpt lat="52.5202"><ele>35</ele></trkpt>
    <trkpt lon="13.406" lat="52.5205">
      <ele>39.25</ele>
      <time>2024-01-01T10:00:10+00:00</time>
      <power>250</power>
      <hr>not a number</hr>
    </trkpt>
  </trkseg></trk>
</gpx>"#;

fn open(name: &str, attributes: &[(&str, &str)]) -> Result<XmlEvent, String> {
    Ok(XmlEvent::Open {
        name: name.as_bytes().to_vec(),
        attributes: attributes
            .iter()
            .map(|(k, v)| Ok((k.as_bytes().to_vec(), v.as_bytes().to_vec())))
            .collect(),
    })
}

fn text(value: &str) -> Result<XmlEvent, String> {
    Ok(XmlEvent::Text(Ok(value.to_string())))
}

fn close(name: &str) -> Result<XmlEvent, String> {
    Ok(XmlEvent::Close { name: name.as_bytes().to_vec() })
}

fn field(name: &str, value: FitValue) -> FitField {
    FitField { name: name.to_string(), value }
}

#[test]
fn a_gpx_document_gives_its_track_points() {
    let activity = GpxParser.parse(RIDE.as_bytes()).expect("a valid document");
    assert_eq!(activity.file_format, FileFormat::Gpx);
    assert_eq!(
        activity.points,
        vec![
            TrackPoint {
                lat: 525_200_000,
                lon: 134_050_000,
                elevation: Some(34_000),
                time: Some(1_704_103_200),
                heart_rate: Some(142),
                power: None,
                cadence: Some(88),
                temperature: Some(21_500),
            },
            TrackPoint {
                lat: 525_205_000,
                lon: 134_060_000,
                elevation: Some(39_250),
                time: Some(1_704_103_210),
                heart_rate: None,
                power: Some(250),
                cadence: None,
                temperature: None,
            },
        ]
    );
    let again = parse(ActivitySource::Gpx(RIDE.as_bytes())).expect("a valid document");
    assert_eq!(again.points, activity.points);
}

#[test]
fn a_gpx_document_without_track_points_is_empty() {
    assert_eq!(GpxParser.parse(b"<gpx></gpx>").unwrap_err(), ParseError::EmptyFile);
    assert_eq!(GpxParser.parse(b"").unwrap_err(), ParseError::EmptyFile);
    assert_eq!(
        GpxParser.parse(b"<gpx><trkpt lat=\"x\" lon=\"1\"></trkpt></gpx>").unwrap_err(),
        ParseError::EmptyFile
    );
    assert_eq!(ParseError::EmptyFile.message(), "No track points found in file");
}

#[test]
fn a_broken_gpx_document_is_invalid() {
    assert!(matches!(
        GpxParser.parse(b"<gpx><trkpt lat=\"1\" lon=\"2\"></wpt></gpx>"),
        Err(ParseError::InvalidGpx(_))
    ));
    assert!(matches!(
        GpxParser.parse(b"<gpx><trkpt lat=\"1\" lon=2></trkpt></gpx>"),
        Err(ParseError::InvalidGpx(_))
    ));
    assert!(matches!(
        GpxParser.parse(b"<gpx><trkpt lat=\"1\" lon=\"2\"><ele>&nosuch;</ele></trkpt></gpx>"),
        Err(ParseError::InvalidGpx(_))
    ));
    assert!(matches!(
        GpxParser.parse(b"<gpx><trk\xff lat=\"1\"/></gpx>"),
        Err(ParseError::InvalidGpx(_))
    ));
    // A fault in the attributes of another element is not looked at.
    assert_eq!(
        GpxParser
            .parse(b"<gpx><wpt lat=1/><trkpt lat=\"1\" lon=\"2\"></trkpt></gpx>")
            .expect("a valid track")
            .points
            .len(),
        1
    );
}

#[test]
fn events_fill_the_track_point_that_is_open() {
    let steps = vec![
        open("gpx", &[]),
        text("outside of any point"),
        open("trkpt", &[("lat", "1.5"), ("lon", "-2.25"), ("note", "x")]),
        open("ele", &[]),
        text("100.5"),
        close("ele"),
        open("time", &[]),
        text("2024-01-01T10:00:00Z"),
        close("time"),
        open("gpxtpx:power", &[]),
        text("+300"),
        close("gpxtpx:power"),
        open("cad", &[]),
        text("70000"),
        close("trkpt"),
        open("ele", &[]),
        text("5"),
        Ok(XmlEvent::Other),
        close("gpx"),
        Ok(XmlEvent::Eof),
        open("trkpt", &[("lat", "9"), ("lon", "9")]),
        close("trkpt"),
    ];
    let activity = track_of_steps(&steps).expect("a track");
    assert_eq!(
        activity.points,
        vec![TrackPoint {
            lat: 15_000_000,
            lon: -22_500_000,
            elevation: Some(100_500),
            time: Some(1_704_103_200),
            heart_rate: None,
            power: Some(300),
            cadence: None,
            temperature: None,
        }]
    );
}

#[test]
fn faults_are_raised_where_they_matter() {
    let attribute_fault = vec![
        Ok(XmlEvent::Open {
            name: b"trkpt".to_vec(),
            attributes: vec![Ok((b"lat".to_vec(), b"1".to_vec())), Err("bad attribute".to_string())],
        }),
        Ok(XmlEvent::Eof),
    ];
    assert_eq!(
        track_of_steps(&attribute_fault).unwrap_err(),
        ParseError::InvalidGpx("bad attribute".to_string())
    );
    let ignored_fault = vec![
        Ok(XmlEvent::Open { name: b"wpt".to_vec(), attributes: vec![Err("bad".to_string())] }),
        Ok(XmlEvent::Text(Err("bad text".to_string()))),
        open("trkpt", &[("lat", "1")]),
        Ok(XmlEvent::Text(Err("bad text".to_string()))),
        close("trkpt"),
        Ok(XmlEvent::Eof),
    ];
    assert_eq!(track_of_steps(&ignored_fault).unwrap_err(), ParseError::EmptyFile);
    let text_fault = vec![
        open("trkpt", &[("lat", "1"), ("lon", "2")]),
        Ok(XmlEvent::Text(Err("bad text".to_string()))),
    ];
    assert_eq!(
        track_of_steps(&text_fault).unwrap_err(),
        ParseError::InvalidGpx("bad text".to_string())
    );
    let reader_fault = vec![open("trkpt", &[("lat", "1"), ("lon", "2")]), Err("cut off".to_string())];
    assert_eq!(
        track_of_steps(&reader_fault).unwrap_err(),
        ParseError::InvalidGpx("cut off".to_string())
    );
    let name_fault = vec![Ok(XmlEvent::Close { name: vec![0xff, 0xfe] })];
    assert!(matches!(track_of_steps(&name_fault), Err(ParseError::InvalidGpx(_))));
    assert_eq!(track_of_steps(&vec![]).unwrap_err(), ParseError::EmptyFile);
}

#[test]
fn the_state_of_the_reading_can_be_followed() {
    let mut state = GpxState::new();
    assert!(!state.in_trkpt && state.points.is_empty());
    state.feed(&open("trkpt", &[("lat", "1"), ("lon", "2")]).unwrap()).expect("no fault");
    assert!(state.in_trkpt);
    assert_eq!(state.current_point.map(|p| (p.lat, p.lon)), Some((10_000_000, 20_000_000)));
    state.feed(&open("hr", &[]).unwrap()).expect("no fault");
    assert_eq!(state.current_element, "hr");
    state.feed(&text("99").unwrap()).expect("no fault");
    state.feed(&text("x").unwrap()).expect("no fault");
    // A text that is no number clears the field.
    assert_eq!(state.current_point.and_then(|p| p.heart_rate), None);
    state.feed(&close("trkpt").unwrap()).expect("no fault");
    assert!(!state.in_trkpt);
    assert_eq!(state.points.len(), 1);
    assert!(state.current_point.is_none());
}

#[test]
fn semicircles_are_converted_to_degrees() {
    assert_eq!(semicircles_to_degrees(0), 0);
    assert_eq!(semicircles_to_degrees(i32::MIN), -1_800_000_000);
    assert_eq!(semicircles_to_degrees(i32::MAX), 1_799_999_999);
    assert_eq!(semicircles_to_degrees(1 << 30), 900_000_000);
    assert_eq!(semicircles_to_degrees(626_593_595), 525_204_684);
    assert_eq!(semicircles_to_degrees(-626_593_595), -525_204_684);
}

#[test]
fn fit_records_give_their_track_points() {
    let records = vec![
        FitRecord { is_record: false, fields: vec![field("position_lat", FitValue::SInt32(1))] },
        FitRecord {
            is_record: true,
            fields: vec![
                field("timestamp", FitValue::Timestamp(1_704_103_200)),
                field("position_lat", FitValue::SInt32(1 << 30)),
                field("position_long", FitValue::SInt32(-(1 << 29))),
                field("altitude", FitValue::Scaled(120_400)),
                field("enhanced_altitude", FitValue::Scaled(120_450)),
                field("altitude", FitValue::Other),
                field("heart_rate", FitValue::UInt8(150)),
                field("power", FitValue::UInt16(310)),
                field("cadence", FitValue::UInt8(91)),
                field("temperature", FitValue::SInt8(-3)),
                field("speed", FitValue::Scaled(8_000)),
            ],
        },
        FitRecord {
            is_record: true,
            fields: vec![
                field("heart_rate", FitValue::UInt8(151)),
                field("power", FitValue::UInt8(1)),
            ],
        },
        FitRecord {
            is_record: true,
            fields: vec![
                field("position_long", FitValue::SInt32(0)),
                field("heart_rate", FitValue::UInt16(152)),
                field("position_lat", FitValue::Other),
            ],
        },
    ];
    let activity = FitParser.parse(&records).expect("two records have a position");
    assert_eq!(activity.file_format, FileFormat::Fit);
    assert_eq!(
        activity.points,
        vec![
            TrackPoint {
                lat: 900_000_000,
                lon: -450_000_000,
                elevation: Some(120_400),
                time: Some(1_704_103_200),
                heart_rate: Some(150),
                power: Some(310),
                cadence: Some(91),
                temperature: Some(-3_000),
            },
            TrackPoint {
                lat: 0,
                lon: 0,
                elevation: None,
                time: None,
                heart_rate: None,
                power: None,
                cadence: None,
                temperature: None,
            },
        ]
    );
    let via_parse = parse(ActivitySource::Fit(&records)).expect("two records have a position");
    assert_eq!(via_parse.points, activity.points);
    assert_eq!(FitParser.parse(&vec![]).unwrap_err(), ParseError::EmptyFile);
    assert_eq!(FitParser.parse(&records[..1].to_vec()).unwrap_err(), ParseError::EmptyFile);
}

#[test]
fn the_enhanced_altitude_stands_in_for_a_missing_altitude() {
    let located = |extra: Vec<FitField>| {
        let mut fields = vec![
            field("position_lat", FitValue::SInt32(1 << 30)),
            field("position_long", FitValue::SInt32(0)),
        ];
        fields.extend(extra);
        let records = vec![FitRecord { is_record: true, fields }];
        FitParser.parse(&records).expect("one record has a position").points[0].elevation
    };
    assert_eq!(located(vec![]), None);
    assert_eq!(located(vec![field("enhanced_altitude", FitValue::Scaled(7_500))]), Some(7_500));
    assert_eq!(
        located(vec![
            field("enhanced_altitude", FitValue::Scaled(7_500)),
            field("altitude", FitValue::Scaled(7_000)),
        ]),
        Some(7_000)
    );
    assert_eq!(
        located(vec![
            field("altitude", FitValue::Scaled(7_000)),
            field("enhanced_altitude", FitValue::Scaled(7_500)),
            field("enhanced_altitude", FitValue::Scaled(7_600)),
        ]),
        Some(7_000)
    );
    assert_eq!(located(vec![field("altitude", FitValue::UInt16(7))]), None);
}
