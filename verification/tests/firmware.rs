use std::cmp::Ordering;

use blackbox_log::{DataFrameKind, Firmware, FirmwareVersion, InternalFirmware, ParseError};

#[test]
fn versions_are_read() {
    assert_eq!(FirmwareVersion::parse("4.5.1"), Some(FirmwareVersion::new(4, 5, 1)));
    assert_eq!(FirmwareVersion::parse("2025.12.0"), Some(FirmwareVersion::new(2025, 12, 0)));
    assert_eq!(FirmwareVersion::parse("+4.05.65535"), Some(FirmwareVersion::new(4, 5, 65535)));
    for bad in ["", "4", "4.5", "4.5.", "4.5.1.2", "4.5.65536", "4.5.-1", "4.5.1-rc1", "a.b.c"] {
        assert_eq!(FirmwareVersion::parse(bad), None, "{bad}");
    }
}

#[test]
fn versions_read_back() {
    for version in [
        FirmwareVersion::new(0, 0, 0),
        FirmwareVersion::new(4, 5, 10),
        FirmwareVersion::new(65535, 100, 9),
    ] {
        assert_eq!(FirmwareVersion::parse(&version.to_string()), Some(version));
    }
    assert_eq!(FirmwareVersion::new(65535, 100, 9).to_string(), "65535.100.9");
}

#[test]
fn versions_compare_from_left_to_right() {
    let v = FirmwareVersion::new;
    assert!(v(4, 5, 9) < v(5, 0, 0));
    assert!(v(4, 3, 9) < v(4, 10, 0));
    assert!(v(4, 3, 1) > v(4, 3, 0));
    assert_eq!(v(1, 2, 3).partial_cmp(&v(1, 2, 3)), Some(Ordering::Equal));
}

#[test]
fn revisions_are_read() {
    let parse = |s| Firmware::parse(s);
    assert_eq!(
        parse("Betaflight 4.5.0 (77d01ba3b) STM32F7X2").unwrap(),
        Firmware::Betaflight(FirmwareVersion::new(4, 5, 0))
    );
    assert_eq!(parse("bEtAfLiGhT 4.2.11").unwrap().version(), FirmwareVersion::new(4, 2, 11));
    assert_eq!(parse("INAV 7.1.2 abc").unwrap().name(), "INAV");
    assert_eq!(parse("Betaflight 2030.1.0").unwrap().name(), "Betaflight");
}

#[test]
fn revisions_are_refused() {
    for bad in ["", "Betaflight", "Betaflight  4.5.0", "EmuFlight 0.4.1", "4.5.0 Betaflight"] {
        match Firmware::parse(bad) {
            Err(ParseError::InvalidFirmware(s)) => assert_eq!(s, bad),
            other => panic!("{other:?}"),
        }
    }
    for old in ["Betaflight 4.1.9", "Betaflight 4.6.0", "INAV 4.0.0", "inav 10.0.0"] {
        let error = Firmware::parse(old).unwrap_err();
        assert!(matches!(error, ParseError::UnsupportedFirmwareVersion(_)));
    }
}

#[test]
fn firmwares_of_two_names_do_not_compare() {
    let bf = |a, b, c| Firmware::Betaflight(FirmwareVersion::new(a, b, c));
    let inav = |a, b, c| Firmware::Inav(FirmwareVersion::new(a, b, c));
    assert_eq!(bf(4, 5, 0).partial_cmp(&inav(4, 5, 0)), None);
    assert!(bf(4, 4, 9) < bf(4, 5, 0));
    assert!(inav(8, 0, 0) > inav(7, 9, 9));
}

#[test]
fn releases_of_firmwares() {
    let bf = |a, b, c| InternalFirmware::from(Firmware::Betaflight(FirmwareVersion::new(a, b, c)));
    let inav = |a| InternalFirmware::from(Firmware::Inav(FirmwareVersion::new(a, 1, 2)));
    assert_eq!(bf(4, 2, 0), InternalFirmware::Betaflight4_2);
    assert_eq!(bf(4, 3, 1), InternalFirmware::Betaflight4_3);
    assert_eq!(bf(4, 4, 2), InternalFirmware::Betaflight4_4);
    assert_eq!(bf(4, 5, 3), InternalFirmware::Betaflight4_5);
    assert_eq!(bf(2025, 12, 0), InternalFirmware::Betaflight2025);
    assert_eq!(bf(2026, 6, 0), InternalFirmware::Betaflight2026);
    assert_eq!(bf(2027, 6, 0), InternalFirmware::Betaflight2026);
    assert_eq!(inav(5), InternalFirmware::Inav5);
    assert_eq!(inav(6), InternalFirmware::Inav6);
    assert_eq!(inav(7), InternalFirmware::Inav7);
    assert_eq!(inav(8), InternalFirmware::Inav8);
    assert_eq!(inav(9), InternalFirmware::Inav9);
    assert!(bf(4, 2, 0) < bf(2025, 12, 0));
    assert_eq!(bf(4, 2, 0).partial_cmp(&inav(5)), None);
    assert!(bf(4, 2, 0).is_betaflight() && !bf(4, 2, 0).is_inav());
    assert!(inav(9).is_inav() && !inav(9).is_betaflight());
}

#[test]
fn errors_in_words() {
    let text = |e: ParseError| e.to_string();
    assert_eq!(text(ParseError::UnsupportedDataVersion), "unsupported or invalid data version");
    assert_eq!(
        text(ParseError::InvalidFirmware("X 1".to_owned())),
        "could not parse firmware: `X 1`"
    );
    assert_eq!(
        text(ParseError::UnsupportedFirmwareVersion(Firmware::Inav(FirmwareVersion::new(4, 0, 12)))),
        "logs from INAV v4.0.12 are not supported"
    );
    assert_eq!(
        text(ParseError::InvalidHeader { header: "a".to_owned(), value: "b".to_owned() }),
        "invalid value for header `a`: `b`"
    );
    assert_eq!(
        text(ParseError::MissingHeader),
        "one or more headers required for parsing are missing"
    );
    assert_eq!(text(ParseError::IncompleteHeaders), "end of file found before data section");
    assert_eq!(
        text(ParseError::MissingField { frame: DataFrameKind::Intra, field: "time".to_owned() }),
        "missing field `time` in `intra` frame definition"
    );
    assert_eq!(
        text(ParseError::MalformedFrameDef(DataFrameKind::GpsHome)),
        "malformed GPS home frame definition"
    );
}
