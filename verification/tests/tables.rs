use blackbox_log::{
    DebugMode, Flag, FlagSet, FlightMode, FlightModeSet, InternalFirmware, PwmProtocol,
};

#[test]
fn flight_mode_post_4_5_bit_ordering() {
    let names = |raw: u32, fw: InternalFirmware| FlightModeSet::new(raw, fw).as_names();

    // 2025 ordering.
    assert_eq!(names(1 << 4, InternalFirmware::Betaflight2025), vec!["ALTHOLD"]);
    assert_eq!(names(1 << 6, InternalFirmware::Betaflight2025), vec!["CHIRP"]);
    assert_eq!(names(1 << 9, InternalFirmware::Betaflight2025), vec!["POSHOLD"]);
    assert_eq!(names(1 << 10, InternalFirmware::Betaflight2025), vec!["GPS RESCUE"]);
    assert_eq!(names(1 << 11, InternalFirmware::Betaflight2025), vec!["ANTI GRAVITY"]);

    // 4.5 keeps the older ordering at those same bits.
    assert_eq!(names(1 << 4, InternalFirmware::Betaflight4_5), vec!["HEADFREE"]);
    assert_eq!(names(1 << 7, InternalFirmware::Betaflight4_5), vec!["GPS RESCUE"]);
    assert_eq!(names(1 << 8, InternalFirmware::Betaflight4_5), vec!["ANTI GRAVITY"]);

    // Shared low bits (0..=3) decode identically across both.
    assert_eq!(names(1 << 0, InternalFirmware::Betaflight2025), vec!["ARM"]);
    assert_eq!(names(1 << 3, InternalFirmware::Betaflight4_5), vec!["MAG"]);
}

#[test]
fn debug_mode_table_tracks_firmware() {
    let m = |raw: u32, fw: InternalFirmware| {
        DebugMode::new(raw, fw).map(|d| <DebugMode as Flag>::as_name(&d))
    };

    // 2025.12 dropped GYRO_SCALED, shifting everything from 6 up by one...
    assert_eq!(m(6, InternalFirmware::Betaflight2025), Some("RC_INTERPOLATION"));
    assert_eq!(m(7, InternalFirmware::Betaflight2025), Some("ANGLERATE"));
    assert_eq!(m(20, InternalFirmware::Betaflight2025), Some("MULTI_GYRO_RAW"));
    // ...while 4.5 keeps the old ordering at those same values.
    assert_eq!(m(6, InternalFirmware::Betaflight4_5), Some("GYRO_SCALED"));
    assert_eq!(m(7, InternalFirmware::Betaflight4_5), Some("RC_INTERPOLATION"));

    // OPTICALFLOW was inserted at 28, which realigns everything from 29 up.
    assert_eq!(m(28, InternalFirmware::Betaflight2025), Some("OPTICALFLOW"));
    assert_eq!(m(29, InternalFirmware::Betaflight2025), Some("LIDAR_TF"));
    assert_eq!(m(29, InternalFirmware::Betaflight4_5), Some("LIDAR_TF"));

    // D_LPF must not move.
    assert_eq!(m(63, InternalFirmware::Betaflight2025), Some("D_LPF"));
    assert_eq!(m(63, InternalFirmware::Betaflight4_5), Some("D_LPF"));

    // Modes added after 4.5.
    assert_eq!(m(90, InternalFirmware::Betaflight2025), Some("TPA"));
    assert_eq!(m(97, InternalFirmware::Betaflight2025), Some("CHIRP"));
    assert_eq!(m(99, InternalFirmware::Betaflight2025), Some("MAVLINK_TELEMETRY"));

    // 2026 re-numbered the tail again and added four more.
    assert_eq!(m(96, InternalFirmware::Betaflight2026), Some("CHIRP"));
    assert_eq!(m(102, InternalFirmware::Betaflight2026), Some("PITOT"));
    assert_eq!(m(102, InternalFirmware::Betaflight2025), None);
}

#[test]
fn betaflight_2026_tables() {
    let names = |raw: u32, fw| FlightModeSet::new(raw, fw).as_names();
    assert_eq!(names(1 << 11, InternalFirmware::Betaflight2026), vec!["AUTOPILOT"]);
    assert_eq!(names(1 << 12, InternalFirmware::Betaflight2026), vec!["ANTI GRAVITY"]);
    // 2025 keeps ANTI GRAVITY one bit lower.
    assert_eq!(names(1 << 11, InternalFirmware::Betaflight2025), vec!["ANTI GRAVITY"]);

    // Only 2026 knows DroneCAN.
    assert!(PwmProtocol::new(10, InternalFirmware::Betaflight2026).is_some());
    assert!(PwmProtocol::new(10, InternalFirmware::Betaflight2025).is_none());
}

#[test]
fn flight_modes_of_several_bits() {
    let set = FlightModeSet::new(0b1011, InternalFirmware::Betaflight4_5);
    assert_eq!(set.as_names(), vec!["ARM", "ANGLE", "MAG"]);
    let mode = |bit: u32| FlightMode::from_bit(bit, InternalFirmware::Betaflight4_5).unwrap();
    assert!(set.is_set(mode(0)));
    assert!(set.is_set(mode(3)));
    assert!(!set.is_set(mode(2)));
    assert_eq!(mode(2).as_name(), "HORIZON");
    for bit in 0..32 {
        assert_eq!(set.is_set(mode(bit)), set.as_names().contains(&mode(bit).as_name()));
    }
    assert!(FlightMode::from_bit(32, InternalFirmware::Inav9).is_none());
    assert!(FlightModeSet::new(0, InternalFirmware::Inav9).as_names().is_empty());
    assert_eq!(FlightModeSet::new(u32::MAX, InternalFirmware::Betaflight2026).as_names().len(), 32);
}

#[test]
fn motor_protocols_stay() {
    for raw in 0..10u32 {
        let name = |fw| PwmProtocol::new(raw, fw).unwrap().as_name();
        assert_eq!(name(InternalFirmware::Betaflight4_2), name(InternalFirmware::Betaflight2026));
    }
    assert!(PwmProtocol::new(7, InternalFirmware::Inav7).is_none());
    assert_eq!(DebugMode::none().as_name(), "NONE");
}
