//! Flight modes, which the log keeps as a bit each.
use vstd::arithmetic::power2::pow2;
use vstd::prelude::*;

use crate::firmware::InternalFirmware;
use crate::text::{same_text, texts};
use crate::units::{Flag, FlagSet};

verus! {

/// The flight modes of Betaflight up to 4.5, from the lowest bit on.
pub const BETAFLIGHT_FLIGHT_MODES: [&'static str; 32] = [
    "ARM",
    "ANGLE",
    "HORIZON",
    "MAG",
    "HEADFREE",
    "PASSTHRU",
    "FAILSAFE",
    "GPS RESCUE",
    "ANTI GRAVITY",
    "HEADADJ",
    "CAMSTAB",
    "BEEPER",
    "LEDLOW",
    "CALIB",
    "OSD",
    "TELEMETRY",
    "SERVO1",
    "SERVO2",
    "SERVO3",
    "BLACKBOX",
    "AIR MODE",
    "3D",
    "FPV ANGLE MIX",
    "BLACKBOX ERASE",
    "CAMERA CONTROL 1",
    "CAMERA CONTROL 2",
    "CAMERA CONTROL 3",
    "FLIP OVER AFTER CRASH",
    "PREARM",
    "BEEP GPS SATELLITE COUNT",
    "VTX PIT MODE",
    "PARALYZE",
];

/// The flight modes of Betaflight 2025, from the lowest bit on.
pub const BETAFLIGHT_2025_FLIGHT_MODES: [&'static str; 32] = [
    "ARM",
    "ANGLE",
    "HORIZON",
    "MAG",
    "ALTHOLD",
    "HEADFREE",
    "CHIRP",
    "PASSTHRU",
    "FAILSAFE",
    "POSHOLD",
    "GPS RESCUE",
    "ANTI GRAVITY",
    "HEADADJ",
    "CAMSTAB",
    "BEEPER",
    "LEDLOW",
    "CALIB",
    "OSD",
    "TELEMETRY",
    "SERVO1",
    "SERVO2",
    "SERVO3",
    "BLACKBOX",
    "AIR MODE",
    "3D",
    "FPV ANGLE MIX",
    "BLACKBOX ERASE",
    "CAMERA CONTROL 1",
    "CAMERA CONTROL 2",
    "CAMERA CONTROL 3",
    "FLIP OVER AFTER CRASH",
    "PREARM",
];

/// The flight modes of Betaflight 2026, from the lowest bit on.
pub const BETAFLIGHT_2026_FLIGHT_MODES: [&'static str; 32] = [
    "ARM",
    "ANGLE",
    "HORIZON",
    "MAG",
    "ALTHOLD",
    "HEADFREE",
    "CHIRP",
    "PASSTHRU",
    "FAILSAFE",
    "POSHOLD",
    "GPS RESCUE",
    "AUTOPILOT",
    "ANTI GRAVITY",
    "HEADADJ",
    "CAMSTAB",
    "BEEPER",
    "LEDLOW",
    "CALIB",
    "OSD",
    "TELEMETRY",
    "SERVO1",
    "SERVO2",
    "SERVO3",
    "BLACKBOX",
    "AIR MODE",
    "3D",
    "FPV ANGLE MIX",
    "BLACKBOX ERASE",
    "CAMERA CONTROL 1",
    "CAMERA CONTROL 2",
    "CAMERA CONTROL 3",
    "FLIP OVER AFTER CRASH",
];

/// The flight modes of INAV, from the lowest bit on.
pub const INAV_FLIGHT_MODES: [&'static str; 32] = [
    "ARM",
    "ANGLE",
    "HORIZON",
    "NAV ALTHOLD",
    "HEADING HOLD",
    "HEADFREE",
    "HEADADJ",
    "CAMSTAB",
    "NAV RTH",
    "NAV POSHOLD",
    "MANUAL",
    "BEEPER",
    "LEDLOW",
    "LIGHTS",
    "NAV LAUNCH",
    "OSD",
    "TELEMETRY",
    "BLACKBOX",
    "FAILSAFE",
    "NAV WP",
    "AIR MODE",
    "HOME RESET",
    "GCS NAV",
    "KILLSWITCH",
    "SURFACE",
    "FLAPERON",
    "TURN ASSIST",
    "AUTO TRIM",
    "AUTO TUNE",
    "CAMERA CONTROL 1",
    "CAMERA CONTROL 2",
    "CAMERA CONTROL 3",
];

/// The flight modes of a firmware, from the lowest bit on.
pub open spec fn flight_modes(firmware: InternalFirmware) -> Seq<&'static str> {
    match firmware {
        InternalFirmware::Betaflight2025 => BETAFLIGHT_2025_FLIGHT_MODES@,
        InternalFirmware::Betaflight2026 => BETAFLIGHT_2026_FLIGHT_MODES@,
        _ => if firmware.betaflight() {
            BETAFLIGHT_FLIGHT_MODES@
        } else {
            INAV_FLIGHT_MODES@
        },
    }
}

/// Whether the bit of value 2 to the power of `bit` is set in `raw`.
pub open spec fn bit_is_set(raw: u32, bit: nat) -> bool {
    (raw as nat / pow2(bit)) % 2 == 1
}

/// The names of the flight modes that the lowest `n` bits of `raw` enable, from the lowest bit on.
pub open spec fn mode_names(raw: u32, firmware: InternalFirmware, n: nat) -> Seq<Seq<char>>
    decreases n,
{
    if n == 0 {
        Seq::empty()
    } else {
        let bit = (n - 1) as nat;
        let lower = mode_names(raw, firmware, bit);
        if bit_is_set(raw, bit) {
            lower.push(flight_modes(firmware)[bit as int]@)
        } else {
            lower
        }
    }
}

/// A flight mode, known by its name.
#[derive(Debug, Clone, Copy)]
pub struct FlightMode {
    name: &'static str,
}

impl View for FlightMode {
    type V = Seq<char>;

    closed spec fn view(&self) -> Seq<char> {
        self.name@
    }
}

impl FlightMode {
    /// The flight mode that a firmware keeps in a bit.
    pub fn from_bit(bit: u32, firmware: InternalFirmware) -> (mode: Option<Self>)
        ensures
            match mode {
                Some(mode) => bit < 32 && mode@ == flight_modes(firmware)[bit as int]@,
                None => bit >= 32,
            },
    {
        if bit >= 32 {
            return None;
        }
        let i: usize = bit as usize;
        let name: &'static str = match firmware {
            InternalFirmware::Betaflight2025 => BETAFLIGHT_2025_FLIGHT_MODES[i],
            InternalFirmware::Betaflight2026 => BETAFLIGHT_2026_FLIGHT_MODES[i],
            _ => if firmware.is_betaflight() {
                BETAFLIGHT_FLIGHT_MODES[i]
            } else {
                INAV_FLIGHT_MODES[i]
            },
        };
        Some(FlightMode { name })
    }
}

impl Flag for FlightMode {
    open spec fn flag_name(&self) -> Seq<char> {
        self@
    }

    fn as_name(&self) -> (name: &'static str) {
        self.name
    }
}

/// The flight modes that were active.
#[derive(Debug, Clone, Copy)]
pub struct FlightModeSet {
    raw: u32,
    firmware: InternalFirmware,
}

fn bit_set(raw: u32, bit: u32) -> (set: bool)
    requires
        bit < 32,
    ensures
        set == bit_is_set(raw, bit as nat),
{
    proof {
        vstd::bits::lemma_u32_shr_is_div(raw, bit);
    }
    let shifted: u32 = raw >> bit;
    shifted % 2 == 1
}

impl FlightModeSet {
    /// The bits of the set.
    pub closed spec fn raw(self) -> u32 {
        self.raw
    }

    /// The firmware that set the bits.
    pub closed spec fn firmware(self) -> InternalFirmware {
        self.firmware
    }

    /// The flight modes that the bits of `raw` stand for.
    pub fn new(raw: u32, firmware: InternalFirmware) -> (set: Self)
        ensures
            set.raw() == raw,
            set.firmware() == firmware,
    {
        FlightModeSet { raw, firmware }
    }
}

impl FlagSet for FlightModeSet {
    type Flag = FlightMode;

    open spec fn enabled(&self, flag: FlightMode) -> bool {
        exists|bit: nat|
            bit < 32 && #[trigger] bit_is_set(self.raw(), bit) && flight_modes(
                self.firmware(),
            )[bit as int]@ == flag@
    }

    open spec fn enabled_names(&self) -> Seq<Seq<char>> {
        mode_names(self.raw(), self.firmware(), 32)
    }

    proof fn names_are_of_enabled_flags(&self, flag: FlightMode) {
        names_of_low_bits(self.raw(), self.firmware(), 32, flag@);
    }

    fn is_set(&self, flag: FlightMode) -> (set: bool) {
        let mut bit: u32 = 0;
        while bit < 32
            invariant
                bit <= 32,
                forall|b: nat|
                    b < bit && #[trigger] bit_is_set(self.raw(), b) ==> flight_modes(
                        self.firmware(),
                    )[b as int]@ != flag@,
            decreases 32 - bit,
        {
            if bit_set(self.raw, bit) {
                match FlightMode::from_bit(bit, self.firmware) {
                    Some(mode) => {
                        if same_text(mode.name, flag.name) {
                            assert(bit_is_set(self.raw(), bit as nat));
                            return true;
                        }
                    },
                    None => {},
                }
            }
            bit += 1;
        }
        false
    }

    fn as_names(&self) -> (names: Vec<&'static str>) {
        let mut names: Vec<&'static str> = Vec::new();
        let mut bit: u32 = 0;
        assert(texts(names@) =~= Seq::<Seq<char>>::empty());
        while bit < 32
            invariant
                bit <= 32,
                texts(names@) == mode_names(self.raw(), self.firmware(), bit as nat),
            decreases 32 - bit,
        {
            if bit_set(self.raw, bit) {
                let ghost lower = names@;
                match FlightMode::from_bit(bit, self.firmware) {
                    Some(mode) => {
                        names.push(mode.name);
                        assert(texts(names@) =~= texts(lower).push(mode@));
                    },
                    None => {},
                }
            }
            bit += 1;
        }
        names
    }
}

proof fn names_of_low_bits(raw: u32, firmware: InternalFirmware, n: nat, name: Seq<char>)
    ensures
        mode_names(raw, firmware, n).contains(name) <==> exists|bit: nat|
            bit < n && #[trigger] bit_is_set(raw, bit) && flight_modes(firmware)[bit as int]@
                == name,
    decreases n,
{
    if n > 0 {
        let last = (n - 1) as nat;
        names_of_low_bits(raw, firmware, last, name);
        let lower = mode_names(raw, firmware, last);
        let own = flight_modes(firmware)[last as int]@;
        if bit_is_set(raw, last) {
            let names = lower.push(own);
            assert(names[lower.len() as int] == own);
            if lower.contains(name) {
                let i = choose|i: int| 0 <= i < lower.len() && lower[i] == name;
                assert(names[i] == name);
            }
            if names.contains(name) {
                let i = choose|i: int| 0 <= i < names.len() && names[i] == name;
                if i < lower.len() {
                    assert(lower[i] == name);
                } else {
                    assert(own == name);
                }
            }
        }
    }
}

/// Betaflight 2025 put `ALTHOLD`, `CHIRP` and `POSHOLD` at the bits 4, 6 and 9 and moved the older
/// flight modes up; Betaflight 2026 did the same with `AUTOPILOT` at bit 11. The bits 0 to 3 stand
/// for the same flight modes throughout.
pub proof fn newer_flight_modes_push_older_ones_up()
    ensures
        flight_modes(InternalFirmware::Betaflight2025) == flight_modes(
            InternalFirmware::Betaflight4_5,
        ).insert(4, "ALTHOLD").insert(6, "CHIRP").insert(9, "POSHOLD").take(32),
        flight_modes(InternalFirmware::Betaflight2026) == flight_modes(
            InternalFirmware::Betaflight2025,
        ).insert(11, "AUTOPILOT").take(32),
        forall|a: InternalFirmware, b: InternalFirmware, bit: int|
            a.betaflight() && b.betaflight() && 0 <= bit < 4 ==> #[trigger] flight_modes(a)[bit]
                == #[trigger] flight_modes(b)[bit],
{
    assert(flight_modes(InternalFirmware::Betaflight2025) =~= flight_modes(
        InternalFirmware::Betaflight4_5,
    ).insert(4, "ALTHOLD").insert(6, "CHIRP").insert(9, "POSHOLD").take(32));
    assert(flight_modes(InternalFirmware::Betaflight2026) =~= flight_modes(
        InternalFirmware::Betaflight2025,
    ).insert(11, "AUTOPILOT").take(32));
}

/// Every release of Betaflight before 2025 has the flight modes of 4.5, and every release of INAV
/// those of INAV, each bit the mode at its place in the list.
pub proof fn older_releases_share_flight_modes(firmware: InternalFirmware, bit: u32)
    requires
        bit < 32,
    ensures
        firmware.betaflight() && firmware.rank() <= InternalFirmware::Betaflight4_5.rank()
            ==> flight_modes(firmware)[bit as int]@ == BETAFLIGHT_FLIGHT_MODES@[bit as int]@,
        !firmware.betaflight() ==> flight_modes(firmware)[bit as int]@
            == INAV_FLIGHT_MODES@[bit as int]@,
{
}

/// A bit is set if and only if it is left over when the bits below it are shifted out and those above
/// it are cut off.
pub proof fn bits_are_binary_digits(raw: u32, bit: u32)
    requires
        bit < 32,
    ensures
        bit_is_set(raw, bit as nat) <==> (raw >> bit) & 1 == 1,
{
    vstd::bits::lemma_u32_shr_is_div(raw, bit);
    let shifted = raw >> bit;
    assert(shifted & 1 == shifted % 2) by (bit_vector);
}

/// The names of the enabled flight modes are those of the bits that are set, each once, from the
/// lowest bit to the highest.
pub proof fn names_are_of_set_bits(set: FlightModeSet) -> (bits: Seq<u32>)
    ensures
        set.enabled_names().len() == bits.len(),
        forall|i: int|
            0 <= i < bits.len() ==> #[trigger] bits[i] < 32 && (set.raw() >> bits[i]) & 1 == 1
                && set.enabled_names()[i] == flight_modes(set.firmware())[bits[i] as int]@,
        forall|i: int, j: int| 0 <= i < j < bits.len() ==> bits[i] < bits[j],
        forall|bit: u32| bit < 32 && #[trigger] (set.raw() >> bit) & 1 == 1 ==> bits.contains(bit),
{
    set_low_bits(set.raw(), set.firmware(), 32)
}

proof fn set_low_bits(raw: u32, firmware: InternalFirmware, n: u32) -> (bits: Seq<u32>)
    requires
        n <= 32,
    ensures
        mode_names(raw, firmware, n as nat).len() == bits.len(),
        forall|i: int|
            0 <= i < bits.len() ==> #[trigger] bits[i] < n && (raw >> bits[i]) & 1 == 1
                && mode_names(raw, firmware, n as nat)[i] == flight_modes(firmware)[bits[i] as int]@,
        forall|i: int, j: int| 0 <= i < j < bits.len() ==> bits[i] < bits[j],
        forall|bit: u32| bit < n && #[trigger] (raw >> bit) & 1 == 1 ==> bits.contains(bit),
    decreases n,
{
    if n == 0 {
        Seq::empty()
    } else {
        let last = (n - 1) as u32;
        let lower = set_low_bits(raw, firmware, last);
        bits_are_binary_digits(raw, last);
        if bit_is_set(raw, last as nat) {
            let bits = lower.push(last);
            assert forall|bit: u32| bit < n && #[trigger] (raw >> bit) & 1 == 1 implies bits.contains(
                bit,
            ) by {
                if bit == last {
                    assert(bits[lower.len() as int] == bit);
                } else {
                    let i = choose|i: int| 0 <= i < lower.len() && lower[i] == bit;
                    assert(bits[i] == bit);
                }
            }
            bits
        } else {
            lower
        }
    }
}

/// A flight mode is enabled if and only if a bit that stands for it is set.
pub proof fn enabled_modes_have_a_bit(set: FlightModeSet, mode: FlightMode)
    ensures
        set.enabled(mode) <==> exists|bit: u32|
            bit < 32 && #[trigger] (set.raw() >> bit) & 1 == 1 && flight_modes(
                set.firmware(),
            )[bit as int]@ == mode@,
{
    if set.enabled(mode) {
        let bit = choose|bit: nat|
            bit < 32 && #[trigger] bit_is_set(set.raw(), bit) && flight_modes(
                set.firmware(),
            )[bit as int]@ == mode@;
        bits_are_binary_digits(set.raw(), bit as u32);
        assert((set.raw() >> (bit as u32)) & 1 == 1);
    }
    if exists|bit: u32|
        bit < 32 && #[trigger] (set.raw() >> bit) & 1 == 1 && flight_modes(
            set.firmware(),
        )[bit as int]@ == mode@ {
        let bit = choose|bit: u32|
            bit < 32 && #[trigger] (set.raw() >> bit) & 1 == 1 && flight_modes(
                set.firmware(),
            )[bit as int]@ == mode@;
        bits_are_binary_digits(set.raw(), bit);
        assert(bit_is_set(set.raw(), bit as nat));
    }
}

} // verus!
