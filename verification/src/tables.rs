//! Header values that stand for a name, which differs between firmwares.
use vstd::prelude::*;

use crate::firmware::InternalFirmware;
use crate::units::Flag;

verus! {

/// The debug modes of Betaflight 4.5, from 0 on.
pub const BETAFLIGHT_DEBUG_MODES: [&'static str; 90] = [
    "NONE",
    "CYCLETIME",
    "BATTERY",
    "GYRO_FILTERED",
    "ACCELEROMETER",
    "PIDLOOP",
    "GYRO_SCALED",
    "RC_INTERPOLATION",
    "ANGLERATE",
    "ESC_SENSOR",
    "SCHEDULER",
    "STACK",
    "ESC_SENSOR_RPM",
    "ESC_SENSOR_TMP",
    "ALTITUDE",
    "FFT",
    "FFT_TIME",
    "FFT_FREQ",
    "RX_FRSKY_SPI",
    "RX_SFHSS_SPI",
    "GYRO_RAW",
    "DUAL_GYRO_RAW",
    "DUAL_GYRO_DIFF",
    "MAX7456_SIGNAL",
    "MAX7456_SPICLOCK",
    "SBUS",
    "FPORT",
    "RANGEFINDER",
    "RANGEFINDER_QUALITY",
    "LIDAR_TF",
    "ADC_INTERNAL",
    "RUNAWAY_TAKEOFF",
    "SDIO",
    "CURRENT_SENSOR",
    "USB",
    "SMARTAUDIO",
    "RTH",
    "ITERM_RELAX",
    "ACRO_TRAINER",
    "RC_SMOOTHING",
    "RX_SIGNAL_LOSS",
    "RC_SMOOTHING_RATE",
    "ANTI_GRAVITY",
    "DYN_LPF",
    "RX_SPEKTRUM_SPI",
    "DSHOT_RPM_TELEMETRY",
    "RPM_FILTER",
    "D_MIN",
    "AC_CORRECTION",
    "AC_ERROR",
    "DUAL_GYRO_SCALED",
    "DSHOT_RPM_ERRORS",
    "CRSF_LINK_STATISTICS_UPLINK",
    "CRSF_LINK_STATISTICS_PWR",
    "CRSF_LINK_STATISTICS_DOWN",
    "BARO",
    "GPS_RESCUE_THROTTLE_PID",
    "DYN_IDLE",
    "FEEDFORWARD_LIMIT",
    "FEEDFORWARD",
    "BLACKBOX_OUTPUT",
    "GYRO_SAMPLE",
    "RX_TIMING",
    "D_LPF",
    "VTX_TRAMP",
    "GHST",
    "GHST_MSP",
    "SCHEDULER_DETERMINISM",
    "TIMING_ACCURACY",
    "RX_EXPRESSLRS_SPI",
    "RX_EXPRESSLRS_PHASELOCK",
    "RX_STATE_TIME",
    "GPS_RESCUE_VELOCITY",
    "GPS_RESCUE_HEADING",
    "GPS_RESCUE_TRACKING",
    "GPS_CONNECTION",
    "ATTITUDE",
    "VTX_MSP",
    "GPS_DOP",
    "FAILSAFE",
    "GYRO_CALIBRATION",
    "ANGLE_MODE",
    "ANGLE_TARGET",
    "CURRENT_ANGLE",
    "DSHOT_TELEMETRY_COUNTS",
    "RPM_LIMIT",
    "RC_STATS",
    "MAG_CALIB",
    "MAG_TASK_RATE",
    "EZLANDING",
];

/// The debug modes of Betaflight 2025, from 0 on.
pub const BETAFLIGHT_2025_DEBUG_MODES: [&'static str; 100] = [
    "NONE",
    "CYCLETIME",
    "BATTERY",
    "GYRO_FILTERED",
    "ACCELEROMETER",
    "PIDLOOP",
    "RC_INTERPOLATION",
    "ANGLERATE",
    "ESC_SENSOR",
    "SCHEDULER",
    "STACK",
    "ESC_SENSOR_RPM",
    "ESC_SENSOR_TMP",
    "ALTITUDE",
    "FFT",
    "FFT_TIME",
    "FFT_FREQ",
    "RX_FRSKY_SPI",
    "RX_SFHSS_SPI",
    "GYRO_RAW",
    "MULTI_GYRO_RAW",
    "MULTI_GYRO_DIFF",
    "MAX7456_SIGNAL",
    "MAX7456_SPICLOCK",
    "SBUS",
    "FPORT",
    "RANGEFINDER",
    "RANGEFINDER_QUALITY",
    "OPTICALFLOW",
    "LIDAR_TF",
    "ADC_INTERNAL",
    "RUNAWAY_TAKEOFF",
    "SDIO",
    "CURRENT_SENSOR",
    "USB",
    "SMARTAUDIO",
    "RTH",
    "ITERM_RELAX",
    "ACRO_TRAINER",
    "RC_SMOOTHING",
    "RX_SIGNAL_LOSS",
    "RC_SMOOTHING_RATE",
    "ANTI_GRAVITY",
    "DYN_LPF",
    "RX_SPEKTRUM_SPI",
    "DSHOT_RPM_TELEMETRY",
    "RPM_FILTER",
    "D_MAX",
    "AC_CORRECTION",
    "AC_ERROR",
    "MULTI_GYRO_SCALED",
    "DSHOT_RPM_ERRORS",
    "CRSF_LINK_STATISTICS_UPLINK",
    "CRSF_LINK_STATISTICS_PWR",
    "CRSF_LINK_STATISTICS_DOWN",
    "BARO",
    "AUTOPILOT_ALTITUDE",
    "DYN_IDLE",
    "FEEDFORWARD_LIMIT",
    "FEEDFORWARD",
    "BLACKBOX_OUTPUT",
    "GYRO_SAMPLE",
    "RX_TIMING",
    "D_LPF",
    "VTX_TRAMP",
    "GHST",
    "GHST_MSP",
    "SCHEDULER_DETERMINISM",
    "TIMING_ACCURACY",
    "RX_EXPRESSLRS_SPI",
    "RX_EXPRESSLRS_PHASELOCK",
    "RX_STATE_TIME",
    "GPS_RESCUE_VELOCITY",
    "GPS_RESCUE_HEADING",
    "GPS_RESCUE_TRACKING",
    "GPS_CONNECTION",
    "ATTITUDE",
    "VTX_MSP",
    "GPS_DOP",
    "FAILSAFE",
    "GYRO_CALIBRATION",
    "ANGLE_MODE",
    "ANGLE_TARGET",
    "CURRENT_ANGLE",
    "DSHOT_TELEMETRY_COUNTS",
    "RPM_LIMIT",
    "RC_STATS",
    "MAG_CALIB",
    "MAG_TASK_RATE",
    "EZLANDING",
    "TPA",
    "S_TERM",
    "SPA",
    "TASK",
    "GIMBAL",
    "WING_SETPOINT",
    "AUTOPILOT_POSITION",
    "CHIRP",
    "FLASH_TEST_PRBS",
    "MAVLINK_TELEMETRY",
];

/// The motor protocols of Betaflight, from 0 on.
pub const BETAFLIGHT_PWM_PROTOCOLS: [&'static str; 10] = [
    "PWM",
    "ONESHOT125",
    "ONESHOT42",
    "MULTISHOT",
    "BRUSHED",
    "DSHOT150",
    "DSHOT300",
    "DSHOT600",
    "PROSHOT1000",
    "DISABLED",
];

/// The motor protocols of INAV, from 0 on.
pub const INAV_PWM_PROTOCOLS: [&'static str; 7] = [
    "STANDARD",
    "ONESHOT125",
    "MULTISHOT",
    "BRUSHED",
    "DSHOT150",
    "DSHOT300",
    "DSHOT600",
];

/// The name of the debug mode that a firmware logs as `raw`; none where no name is known.
///
/// Up to 4.5 Betaflight added modes at the end of the list only. Of the modes that Betaflight 2026
/// put behind those of 4.5, two have a name here.
pub open spec fn debug_mode_name(raw: u32, firmware: InternalFirmware) -> Option<Seq<char>> {
    let known = match firmware {
        InternalFirmware::Betaflight4_2 => BETAFLIGHT_DEBUG_MODES@.take(58),
        InternalFirmware::Betaflight4_3 => BETAFLIGHT_DEBUG_MODES@.take(66),
        InternalFirmware::Betaflight4_4 => BETAFLIGHT_DEBUG_MODES@.take(66),
        InternalFirmware::Betaflight4_5 => BETAFLIGHT_DEBUG_MODES@,
        InternalFirmware::Betaflight2025 => BETAFLIGHT_2025_DEBUG_MODES@,
        InternalFirmware::Betaflight2026 => BETAFLIGHT_2025_DEBUG_MODES@.take(90),
        _ => BETAFLIGHT_DEBUG_MODES@.take(1),
    };
    if raw < known.len() {
        Some(known[raw as int]@)
    } else if firmware == InternalFirmware::Betaflight2026 && raw == 96 {
        Some("CHIRP"@)
    } else if firmware == InternalFirmware::Betaflight2026 && raw == 102 {
        Some("PITOT"@)
    } else {
        None
    }
}

/// The name of the motor protocol that a firmware logs as `raw`; none where there is no such
/// protocol.
pub open spec fn pwm_protocol_name(raw: u32, firmware: InternalFirmware) -> Option<Seq<char>> {
    if firmware.betaflight() {
        if raw < 10 {
            Some(BETAFLIGHT_PWM_PROTOCOLS@[raw as int]@)
        } else if firmware == InternalFirmware::Betaflight2026 && raw == 10 {
            Some("DRONECAN"@)
        } else {
            None
        }
    } else if raw < 7 {
        Some(INAV_PWM_PROTOCOLS@[raw as int]@)
    } else {
        None
    }
}

/// What the firmware wrote to the debug fields, known by its name.
#[derive(Debug, Clone, Copy)]
pub struct DebugMode {
    name: &'static str,
}

impl View for DebugMode {
    type V = Seq<char>;

    closed spec fn view(&self) -> Seq<char> {
        self.name@
    }
}

impl DebugMode {
    /// The mode in which the debug fields hold nothing.
    pub fn none() -> (mode: Self)
        ensures
            mode@ == "NONE"@,
    {
        DebugMode { name: "NONE" }
    }

    /// The debug mode that a firmware logs as `raw`.
    pub fn new(raw: u32, firmware: InternalFirmware) -> (mode: Option<Self>)
        ensures
            match mode {
                Some(mode) => debug_mode_name(raw, firmware) == Some(mode@),
                None => debug_mode_name(raw, firmware) is None,
            },
    {
        let known: u32 = match firmware {
            InternalFirmware::Betaflight4_2 => 58,
            InternalFirmware::Betaflight4_3 => 66,
            InternalFirmware::Betaflight4_4 => 66,
            InternalFirmware::Betaflight4_5 => 90,
            InternalFirmware::Betaflight2025 => 100,
            InternalFirmware::Betaflight2026 => 90,
            _ => 1,
        };
        if raw < known {
            let i: usize = raw as usize;
            let name: &'static str = match firmware {
                InternalFirmware::Betaflight2025 => BETAFLIGHT_2025_DEBUG_MODES[i],
                InternalFirmware::Betaflight2026 => BETAFLIGHT_2025_DEBUG_MODES[i],
                _ => BETAFLIGHT_DEBUG_MODES[i],
            };
            Some(DebugMode { name })
        } else {
            match (firmware, raw) {
                (InternalFirmware::Betaflight2026, 96) => Some(DebugMode { name: "CHIRP" }),
                (InternalFirmware::Betaflight2026, 102) => Some(DebugMode { name: "PITOT" }),
                _ => None,
            }
        }
    }
}

impl Flag for DebugMode {
    open spec fn flag_name(&self) -> Seq<char> {
        self@
    }

    fn as_name(&self) -> (name: &'static str) {
        self.name
    }
}

/// How the firmware talked to the motors, known by its name.
#[derive(Debug, Clone, Copy)]
pub struct PwmProtocol {
    name: &'static str,
}

impl View for PwmProtocol {
    type V = Seq<char>;

    closed spec fn view(&self) -> Seq<char> {
        self.name@
    }
}

impl PwmProtocol {
    /// The motor protocol that a firmware logs as `raw`.
    pub fn new(raw: u32, firmware: InternalFirmware) -> (protocol: Option<Self>)
        ensures
            match protocol {
                Some(protocol) => pwm_protocol_name(raw, firmware) == Some(protocol@),
                None => pwm_protocol_name(raw, firmware) is None,
            },
    {
        if firmware.is_betaflight() {
            if raw < 10 {
                Some(PwmProtocol { name: BETAFLIGHT_PWM_PROTOCOLS[raw as usize] })
            } else {
                match (firmware, raw) {
                    (InternalFirmware::Betaflight2026, 10) => Some(PwmProtocol { name: "DRONECAN" }),
                    _ => None,
                }
            }
        } else if raw < 7 {
            Some(PwmProtocol { name: INAV_PWM_PROTOCOLS[raw as usize] })
        } else {
            None
        }
    }
}

impl Flag for PwmProtocol {
    open spec fn flag_name(&self) -> Seq<char> {
        self@
    }

    fn as_name(&self) -> (name: &'static str) {
        self.name
    }
}

/// The bits of a header, to be read as the firmware meant them.
#[derive(Debug, Clone, Copy)]
pub struct FeatureSet {
    pub raw: u32,
    pub firmware: InternalFirmware,
}

impl FeatureSet {
    /// The features that the bits of `raw` enable.
    pub fn new(raw: u32, firmware: InternalFirmware) -> (set: Self)
        ensures
            set == (FeatureSet { raw, firmware }),
    {
        FeatureSet { raw, firmware }
    }
}

/// The groups of fields that the log leaves out, as bits to be read as the firmware meant them.
#[derive(Debug, Clone, Copy)]
pub struct DisabledFields {
    pub raw: u32,
    pub firmware: InternalFirmware,
}

impl DisabledFields {
    /// The groups of fields that the bits of `raw` turn off.
    pub fn new(raw: u32, firmware: InternalFirmware) -> (set: Self)
        ensures
            set == (DisabledFields { raw, firmware }),
    {
        DisabledFields { raw, firmware }
    }
}

/// A motor protocol that one release of Betaflight knows is known under that number to every later
/// one, by the same name.
pub proof fn pwm_protocols_stay(raw: u32, earlier: InternalFirmware, later: InternalFirmware)
    requires
        earlier.betaflight(),
        later.betaflight(),
        earlier.rank() <= later.rank(),
        pwm_protocol_name(raw, earlier) is Some,
    ensures
        pwm_protocol_name(raw, later) == pwm_protocol_name(raw, earlier),
{
}

/// Betaflight 2025 dropped the debug mode at 6, so that those behind it moved down by one, up to 28,
/// where `OPTICALFLOW` came in. From 29 on the debug modes kept their numbers. Five got other names.
pub proof fn debug_modes_of_2025()
    ensures
        BETAFLIGHT_2025_DEBUG_MODES@.take(90) == BETAFLIGHT_DEBUG_MODES@.remove(6).insert(
            28,
            "OPTICALFLOW",
        ).update(20, "MULTI_GYRO_RAW").update(21, "MULTI_GYRO_DIFF").update(47, "D_MAX").update(
            50,
            "MULTI_GYRO_SCALED",
        ).update(56, "AUTOPILOT_ALTITUDE"),
        debug_mode_name(6, InternalFirmware::Betaflight4_5) == Some("GYRO_SCALED"@),
        debug_mode_name(63, InternalFirmware::Betaflight4_5) == Some("D_LPF"@),
        debug_mode_name(63, InternalFirmware::Betaflight2025) == Some("D_LPF"@),
{
    assert(BETAFLIGHT_2025_DEBUG_MODES@.take(90) =~= BETAFLIGHT_DEBUG_MODES@.remove(6).insert(
        28,
        "OPTICALFLOW",
    ).update(20, "MULTI_GYRO_RAW").update(21, "MULTI_GYRO_DIFF").update(47, "D_MAX").update(
        50,
        "MULTI_GYRO_SCALED",
    ).update(56, "AUTOPILOT_ALTITUDE"));
}

/// Up to 4.5 a debug mode that Betaflight knows keeps its number and its name in every later release,
/// and a number below one that is known is known too.
pub proof fn debug_modes_stay_up_to_4_5(
    raw: u32,
    lower: u32,
    earlier: InternalFirmware,
    later: InternalFirmware,
)
    requires
        later.betaflight(),
        earlier.betaflight(),
        earlier.rank() <= later.rank() <= InternalFirmware::Betaflight4_5.rank(),
        debug_mode_name(raw, earlier) is Some,
        lower <= raw,
    ensures
        debug_mode_name(raw, later) == debug_mode_name(raw, earlier),
        debug_mode_name(lower, earlier) is Some,
        debug_mode_name(raw, earlier) == Some(BETAFLIGHT_DEBUG_MODES@[raw as int]@),
{
}

/// How many debug modes are known: those of Betaflight 4.5 and of 2025 are the whole lists, 2026 shares
/// those of 2025 that 4.5 had too, and INAV has none but the first.
pub proof fn known_debug_modes(raw: u32, firmware: InternalFirmware)
    ensures
        debug_mode_name(raw, InternalFirmware::Betaflight4_5) == (if raw < 90 {
            Some(BETAFLIGHT_DEBUG_MODES@[raw as int]@)
        } else {
            None
        }),
        debug_mode_name(raw, InternalFirmware::Betaflight2025) == (if raw < 100 {
            Some(BETAFLIGHT_2025_DEBUG_MODES@[raw as int]@)
        } else {
            None
        }),
        raw < 90 ==> debug_mode_name(raw, InternalFirmware::Betaflight2026) == debug_mode_name(
            raw,
            InternalFirmware::Betaflight2025,
        ),
        !firmware.betaflight() && raw > 0 ==> debug_mode_name(raw, firmware) is None,
        debug_mode_name(0, firmware) == Some("NONE"@),
{
}

/// Which motor protocols are known: ten of Betaflight, and from 2026 on one more; seven of INAV.
pub proof fn known_pwm_protocols(raw: u32, firmware: InternalFirmware)
    ensures
        pwm_protocol_name(raw, firmware) is Some <==> (if firmware.betaflight() {
            raw < 10 || (raw == 10 && firmware.rank()
                >= InternalFirmware::Betaflight2026.rank())
        } else {
            raw < 7
        }),
        firmware.betaflight() && raw < 10 ==> pwm_protocol_name(raw, firmware) == Some(
            BETAFLIGHT_PWM_PROTOCOLS@[raw as int]@,
        ),
        !firmware.betaflight() && raw < 7 ==> pwm_protocol_name(raw, firmware) == Some(
            INAV_PWM_PROTOCOLS@[raw as int]@,
        ),
{
}

} // verus!
