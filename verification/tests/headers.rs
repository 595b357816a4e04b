use blackbox_log::headers::parse_header;
use blackbox_log::state::{MotorOutputRange, State};
use blackbox_log::{
    DataFrameKind, DateTime, FilterSet, Flag, Headers, InternalFirmware, ParseError, Predictor,
    Reader, Unit,
};

const PRODUCT: &str = "H Product:Blackbox flight data recorder by Nicholas Sherlock\n";
const VERSION: &str = "H Data version:2\n";

const FRAMES: &str = "H Field I name:loopIteration,time,accSmooth[0],motor[0],motor[1]\n\
H Field I signed:0,0,1,0,0\n\
H Field I predictor:0,0,0,4,5\n\
H Field I encoding:1,1,0,1,0\n\
H Field P predictor:6,2,3,3,3\n\
H Field P encoding:9,0,0,0,10\n\
H Field S name:flightModeFlags,stateFlags\n\
H Field S signed:0,0\n\
H Field S predictor:0,0\n\
H Field S encoding:1,1\n";

const VALUES: &str = "H Firmware type:Cleanflight\n\
H Firmware revision:Betaflight 4.5.0 (77d01ba3b) STM32F7X2\n\
H Firmware date:Jun  9 2023 12:34:56\n\
H Board information: SPBE SPEEDYBEEF7V3 \n\
H Craft name:   \n\
H I interval:32\n\
H P interval:1/4\n\
H debug_mode:6\n\
H fields_disabled_mask:12\n\
H features:-1\n\
H motor_pwm_protocol:7\n\
H vbatref:1632\n\
H acc_1G:2048\n\
H gyro_scale:0x3f800000\n\
H minthrottle:1070\n\
H motorOutput:158,2047\n\
H vbatscale:110\n\
H looptime:125\n";

fn log(parts: &[&str]) -> Vec<u8> {
    let mut bytes = Vec::new();
    for part in parts {
        bytes.extend_from_slice(part.as_bytes());
    }
    bytes
}

fn error(parts: &[&str]) -> ParseError {
    Headers::parse(&log(parts)).unwrap_err()
}

#[test]
#[should_panic(expected = "Retry")]
fn invalid_utf8() {
    let mut b = Reader::new(b"H \xFF:\xFF\n");
    parse_header(&mut b).unwrap();
}

#[test]
fn header_lines() {
    let mut b = Reader::new("H name: a:b\nHn\u{e4}me:\nH:\nG x:y\nH no end".as_bytes());
    assert_eq!(parse_header(&mut b), Ok(("name", " a:b")));
    assert_eq!(parse_header(&mut b), Ok(("n\u{e4}me", "")));
    assert_eq!(parse_header(&mut b), Ok(("", "")));
    assert_eq!(format!("{:?}", parse_header(&mut b)), "Err(Retry)");
    assert_eq!(b.remaining(), b" x:y\nH no end");
    let mut b = Reader::new(b"H no colon\nrest");
    assert_eq!(format!("{:?}", parse_header(&mut b)), "Err(Retry)");
    assert_eq!(b.remaining(), b"rest");
    let mut b = Reader::new(b"H no end:x");
    assert_eq!(format!("{:?}", parse_header(&mut b)), "Err(Eof)");
    let mut b = Reader::new(b"");
    assert_eq!(format!("{:?}", parse_header(&mut b)), "Err(Eof)");
}

#[test]
fn whole_log() {
    let bytes = log(&[PRODUCT, VERSION, VALUES, FRAMES, "I\x01\x02\x03"]);
    let headers = Headers::parse(&bytes).unwrap();
    assert_eq!(headers.firmware_revision(), "Betaflight 4.5.0 (77d01ba3b) STM32F7X2");
    assert_eq!(headers.firmware().name(), "Betaflight");
    assert_eq!(headers.internal_firmware(), InternalFirmware::Betaflight4_5);
    assert_eq!(
        headers.firmware_date(),
        Some(Ok(DateTime { year: 2023, month: 6, day: 9, hour: 12, minute: 34, second: 56 }))
    );
    assert_eq!(headers.board_info(), Some("SPBE SPEEDYBEEF7V3"));
    assert_eq!(headers.craft_name(), None);
    assert_eq!(headers.debug_mode().as_name(), "GYRO_SCALED");
    assert_eq!(headers.disabled_fields().raw, 12);
    assert_eq!(headers.features().raw, u32::MAX);
    assert_eq!(headers.pwm_protocol().as_name(), "DSHOT600");
    assert_eq!(headers.vbat_reference(), Some(1632));
    assert_eq!(headers.acceleration_1g(), Some(2048));
    assert_eq!(headers.gyro_scale_bits(), Some(0x3f80_0000));
    assert_eq!(headers.min_throttle(), Some(1070));
    assert_eq!(headers.motor_output_range(), Some((158, 2047)));
    assert_eq!(headers.unknown().get("looptime"), Some("125"));
    assert_eq!(headers.unknown().get("P interval"), Some("1/4"));
    assert_eq!(headers.unknown().get("vbatscale"), None);
    assert_eq!(headers.unknown().get("features"), None);
    let mut unknown = headers.unknown().entries();
    unknown.sort();
    assert_eq!(unknown, vec![("I interval", "32"), ("P interval", "1/4"), ("looptime", "125")]);
    assert_eq!(headers.unknown().len(), 3);
    assert!(headers.should_have_frame(4) && !headers.should_have_frame(5));
    assert_eq!(headers.count_intentionally_skipped_frames(4), 3);
    assert_eq!(headers.data_parser().remaining(), b"I\x01\x02\x03");
    let filters = FilterSet { main: Some(vec!["time".to_owned()]), ..FilterSet::default() };
    assert_eq!(headers.data_parser_with_filters(&filters).remaining(), b"I\x01\x02\x03");
    let copy = headers.clone();
    assert_eq!(copy.firmware_revision(), headers.firmware_revision());
    assert_eq!(copy.main_frame_def().intra.fields.len(), 5);
    assert!(copy.validate().is_ok());
}

#[test]
fn frame_definitions() {
    let bytes = log(&[PRODUCT, VERSION, VALUES, FRAMES]);
    let headers = Headers::parse(&bytes).unwrap();
    let main = headers.main_frame_def();
    assert_eq!(main.index_motor_0(), Some(3));
    assert_eq!(main.intra.fields[2].name, "accSmooth[0]");
    assert!(main.intra.fields[2].signed && !main.intra.fields[3].signed);
    assert_eq!(main.intra.fields[2].unit, Unit::Acceleration);
    assert_eq!(main.intra.fields[4].predictor, Predictor::Motor0);
    assert_eq!(main.inter.fields[0].predictor, Predictor::Increment);
    assert_eq!(main.inter.fields[4].name, "motor[1]");
    assert_eq!(headers.slow_frame_def().fields[0].unit, Unit::FlightMode);
    assert!(headers.gps_frame_def().is_none());
    assert!(headers.gps_home_frame_def().is_none());
}

#[test]
fn gps_frames_need_the_home_position() {
    let gps = "H Field G name:GPS_coord[0],GPS_coord[1],GPS_speed\nH Field G signed:1,1,0\n\
H Field G predictor:7,7,0\nH Field G encoding:0,0,1\n";
    let home = "H Field H name:GPS_home[0],GPS_home[1]\nH Field H signed:1,1\n\
H Field H predictor:0,0\nH Field H encoding:0,0\n";
    let bytes = log(&[PRODUCT, VERSION, VALUES, FRAMES, gps, home]);
    let headers = Headers::parse(&bytes).unwrap();
    let def = headers.gps_frame_def().unwrap();
    assert_eq!(def.fields[0].predictor, Predictor::HomeLat);
    assert_eq!(def.fields[1].predictor, Predictor::HomeLon);
    assert_eq!(def.fields[2].unit, Unit::Velocity);
    assert_eq!(headers.gps_home_frame_def().unwrap().fields.len(), 2);
    assert!(matches!(
        error(&[PRODUCT, VERSION, VALUES, FRAMES, gps]),
        ParseError::MalformedFrameDef(DataFrameKind::Gps)
    ));
    assert!(matches!(
        error(&[PRODUCT, VERSION, VALUES, FRAMES, "H Field H name:GPS_home[0]\n"]),
        ParseError::MissingHeader
    ));
}

#[test]
fn data_version_must_be_two() {
    for second in ["", "H Data version:1\n", "H Data version:2", "H Data version:2 \n"] {
        assert!(matches!(error(&[PRODUCT, second]), ParseError::UnsupportedDataVersion));
    }
    assert!(matches!(error(&[""]), ParseError::UnsupportedDataVersion));
    assert!(matches!(error(&[PRODUCT, VERSION]), ParseError::MissingHeader));
}

#[test]
fn refused_headers() {
    for (name, value) in [
        ("debug_mode", "-1"),
        ("fields_disabled_mask", "4294967296"),
        ("features", "2147483648"),
        ("motor_pwm_protocol", "x"),
        ("vbatref", "65536"),
        ("acc_1G", ""),
        ("gyro_scale", "0xg"),
        ("gyro.scale", "1.5"),
        ("minthrottle", " 1"),
        ("motorOutput", "158"),
    ] {
        let line = format!("H {name}:{value}\n");
        match error(&[PRODUCT, VERSION, &line, VALUES, FRAMES]) {
            ParseError::InvalidHeader { header, value: v } => {
                assert_eq!((header.as_str(), v.as_str()), (name, value));
            }
            other => panic!("{other:?}"),
        }
        let mut state = State::new();
        assert!(!state.update(name, value));
    }
}

#[test]
fn last_header_counts() {
    let again = "H acc_1G:4096\nH looptime:250\n";
    let bytes = log(&[PRODUCT, VERSION, VALUES, FRAMES, again]);
    let headers = Headers::parse(&bytes).unwrap();
    assert_eq!(headers.acceleration_1g(), Some(4096));
    assert_eq!(headers.unknown().get("looptime"), Some("250"));
}

#[test]
fn incomplete_and_corrupted_headers() {
    assert!(matches!(
        error(&[PRODUCT, VERSION, VALUES, FRAMES, "H looptime:1"]),
        ParseError::IncompleteHeaders
    ));
    // A line that is no header ends the headers and belongs to the data.
    let bytes = log(&[PRODUCT, VERSION, VALUES, FRAMES, "H corrupted\nI..."]);
    let headers = Headers::parse(&bytes).unwrap();
    assert_eq!(headers.data_parser().remaining(), b"H corrupted\nI...");
}

#[test]
fn data_does_not_change_headers() {
    let short = log(&[PRODUCT, VERSION, VALUES, FRAMES, "I"]);
    let long = log(&[PRODUCT, VERSION, VALUES, FRAMES, "IH acc_1G:x\n"]);
    let a = Headers::parse(&short).unwrap();
    let b = Headers::parse(&long).unwrap();
    assert_eq!(a.acceleration_1g(), b.acceleration_1g());
    assert_eq!(a.firmware_revision(), b.firmware_revision());
    assert_eq!(b.data_parser().remaining(), b"IH acc_1G:x\n");
}

#[test]
fn missing_headers() {
    let without = |name: &str| {
        let kept: String = format!("{VALUES}{FRAMES}")
            .lines()
            .filter(|line| !line.starts_with(&format!("H {name}:")))
            .map(|line| format!("{line}\n"))
            .collect();
        error(&[PRODUCT, VERSION, &kept])
    };
    assert!(matches!(without("Firmware revision"), ParseError::MissingHeader));
    assert!(matches!(without("motor_pwm_protocol"), ParseError::MissingHeader));
    assert!(matches!(without("Field S name"), ParseError::MissingHeader));
    assert!(matches!(without("Field P predictor"), ParseError::MissingHeader));
    assert!(matches!(without("acc_1G"), ParseError::MalformedFrameDef(DataFrameKind::Intra)));
    assert!(matches!(without("minthrottle"), ParseError::MalformedFrameDef(DataFrameKind::Intra)));
}

#[test]
fn malformed_frames() {
    let error = |frames: &str| error(&[PRODUCT, VERSION, VALUES, FRAMES, frames]);
    assert!(matches!(
        error("H Field I signed:0,0\n"),
        ParseError::MalformedFrameDef(DataFrameKind::Intra)
    ));
    assert!(matches!(
        error("H Field P encoding:9,0,0,0,2\n"),
        ParseError::MalformedFrameDef(DataFrameKind::Inter)
    ));
    assert!(matches!(
        error("H Field S predictor:0,x\n"),
        ParseError::MalformedFrameDef(DataFrameKind::Slow)
    ));
    // The first motor cannot be predicted from itself.
    assert!(matches!(
        error("H Field P predictor:6,2,3,5,3\n"),
        ParseError::MalformedFrameDef(DataFrameKind::Inter)
    ));
    match error("H Field I name:time,loopIteration,accSmooth[0],motor[0],motor[1]\n") {
        ParseError::MissingField { frame: DataFrameKind::Intra, field } => {
            assert_eq!(field, "loopIteration");
        }
        other => panic!("{other:?}"),
    }
    match error("H Field I name:loopIteration,axisP,accSmooth[0],motor[0],motor[1]\n") {
        ParseError::MissingField { frame: DataFrameKind::Intra, field } => {
            assert_eq!(field, "time");
        }
        other => panic!("{other:?}"),
    }
}

#[test]
fn unknown_modes_and_protocols() {
    // A debug mode that is not known costs nothing but its name.
    let bytes = log(&[PRODUCT, VERSION, VALUES, FRAMES, "H debug_mode:4000\n"]);
    assert_eq!(Headers::parse(&bytes).unwrap().debug_mode().as_name(), "NONE");
    match error(&[PRODUCT, VERSION, VALUES, FRAMES, "H motor_pwm_protocol:010\n"]) {
        ParseError::InvalidHeader { header, value } => {
            assert_eq!((header.as_str(), value.as_str()), ("motor_pwm_protocol", "010"));
        }
        other => panic!("{other:?}"),
    }
}

#[test]
fn unsupported_firmware() {
    let fails = |revision: &str| {
        error(&[PRODUCT, VERSION, VALUES, FRAMES, &format!("H Firmware revision:{revision}\n")])
    };
    assert!(matches!(fails("Betaflight 3.5.7"), ParseError::UnsupportedFirmwareVersion(_)));
    assert!(matches!(fails("Cleanflight 4.5.0"), ParseError::InvalidFirmware(_)));
}

#[test]
fn firmware_dates() {
    let read = |date: &str| {
        let line = format!("H Firmware date:{date}\n");
        let bytes = log(&[PRODUCT, VERSION, VALUES, FRAMES, &line]);
        let headers = Headers::parse(&bytes).unwrap();
        headers.firmware_date().unwrap().map_err(|text| text.to_owned())
    };
    let date = |year, month, day| DateTime { year, month, day, hour: 1, minute: 2, second: 3 };
    assert_eq!(read("Dec 31 1999 01:02:03"), Ok(date(1999, 12, 31)));
    assert_eq!(read("jan  1 2024 01:02:03"), Ok(date(2024, 1, 1)));
    assert_eq!(read("FEB 29 2024 01:02:03"), Ok(date(2024, 2, 29)));
    for text in ["", "Feb 30 2024 01:02:03", "2024-01-01", "Jan  1 2024 25:02:03"] {
        assert_eq!(read(text), Err(text.to_owned()));
    }
}

#[test]
fn motor_outputs() {
    let range = |s| MotorOutputRange::from_str(s).map(|r| (r.min, r.max));
    assert_eq!(range("48,2047"), Some((48, 2047)));
    assert_eq!(range("+1,0"), Some((1, 0)));
    for bad in ["", ",", "1", "1,", "1,2,3", "1, 2", "-1,2", "1,65536"] {
        assert_eq!(range(bad), None);
    }
}

#[test]
fn scales_and_features() {
    let mut state = State::new();
    for (value, bits) in
        [("0x3F800000", 0x3f80_0000), ("0x+1", 1), ("1065353216", 0x3f80_0000), ("+5", 5)]
    {
        assert!(state.update("gyro.scale", value));
        assert_eq!(state.gyro_scale, Some(bits));
    }
    for (value, bits) in
        [("-2147483648", 0x8000_0000), ("2147483647", 0x7fff_ffff), ("-0", 0), ("+9", 9)]
    {
        assert!(state.update("features", value));
        assert_eq!(state.features, bits);
    }
    assert!(!state.update("features", "-2147483649"));
    assert_eq!(state.features, 9);
}

#[test]
fn written_headers_read_back() {
    for (name, value) in [("a", "b"), ("", ""), (" x", ":y:"), ("na\u{ef}ve \u{1F681}", "\u{df}\r")] {
        let line = format!("H {name}:{value}\nrest");
        let mut b = Reader::new(line.as_bytes());
        assert_eq!(parse_header(&mut b), Ok((name, value)));
        assert_eq!(b.remaining(), b"rest");
    }
}

#[test]
fn main_frames_share_fields() {
    let bytes = log(&[PRODUCT, VERSION, VALUES, FRAMES]);
    let headers = Headers::parse(&bytes).unwrap();
    let def = headers.main_frame_def();
    assert_eq!(def.intra.fields.len(), def.inter.fields.len());
    for (intra, inter) in def.intra.fields.iter().zip(&def.inter.fields) {
        assert_eq!(
            (intra.name, intra.signed, intra.unit),
            (inter.name, inter.signed, inter.unit)
        );
    }
}

#[test]
fn board_info_has_two_names() {
    let board = |lines: &str| {
        let others: String = VALUES
            .lines()
            .filter(|line| !line.starts_with("H Board"))
            .map(|line| format!("{line}\n"))
            .collect();
        let bytes = log(&[PRODUCT, VERSION, &others, FRAMES, lines]);
        let headers = Headers::parse(&bytes).unwrap();
        assert_eq!(headers.unknown().get("Board info"), None);
        assert_eq!(headers.unknown().get("Board information"), None);
        headers.board_info().map(|info| info.to_owned())
    };
    assert_eq!(board("H Board info:SPBE\n").as_deref(), Some("SPBE"));
    assert_eq!(board("H Board info: SPBE \n").as_deref(), Some("SPBE"));
    assert_eq!(board("H Board information:SPBE\n").as_deref(), Some("SPBE"));
    assert_eq!(board("H Board information:A\nH Board info:B\n").as_deref(), Some("B"));
    assert_eq!(board("H Board info:B\nH Board information:A\n").as_deref(), Some("A"));
    assert_eq!(board("H Board info:\n"), None);
    assert_eq!(board(""), None);
}
