//! Firmwares, their versions, and which of them are supported.
use std::cmp::Ordering;

use vstd::prelude::*;
use vstd::string::*;

use crate::error::{ErrorView, ParseError};
use crate::text::{
    ascii_lowercase, decimal, decimal_digits, decimal_reads_back, decimal_string, lowercase_is,
    parse_u16, split, split_all, split_once, split_once_at, split_once_at_first, unsigned_value,
};

verus! {

/// How two numbers compare.
pub open spec fn order_of(a: u16, b: u16) -> Ordering {
    if a < b {
        Ordering::Less
    } else if a == b {
        Ordering::Equal
    } else {
        Ordering::Greater
    }
}

fn compare(a: u16, b: u16) -> (order: Ordering)
    ensures
        order == order_of(a, b),
{
    if a < b {
        Ordering::Less
    } else if a == b {
        Ordering::Equal
    } else {
        Ordering::Greater
    }
}

/// A firmware version, ordered by its parts from left to right.
#[derive(Debug, Clone, Copy, PartialEq, Eq, Ord, Hash, Structural)]
pub struct FirmwareVersion {
    pub major: u16,
    pub minor: u16,
    pub patch: u16,
}

/// How two versions compare: by the first part in which they differ.
pub open spec fn version_order(a: FirmwareVersion, b: FirmwareVersion) -> Ordering {
    if a.major != b.major {
        order_of(a.major, b.major)
    } else if a.minor != b.minor {
        order_of(a.minor, b.minor)
    } else {
        order_of(a.patch, b.patch)
    }
}

/// How two firmwares compare: by their versions, where they are of one name.
pub open spec fn firmware_order(a: Firmware, b: Firmware) -> Option<Ordering> {
    match (a, b) {
        (Firmware::Betaflight(a), Firmware::Betaflight(b)) => Some(version_order(a, b)),
        (Firmware::Inav(a), Firmware::Inav(b)) => Some(version_order(a, b)),
        _ => None,
    }
}

/// How two releases compare: by their place, where they are of one firmware.
pub open spec fn release_order(a: InternalFirmware, b: InternalFirmware) -> Option<Ordering> {
    if a.betaflight() != b.betaflight() {
        None
    } else {
        Some(order_of(a.rank(), b.rank()))
    }
}

impl PartialOrd for FirmwareVersion {
    fn partial_cmp(&self, other: &Self) -> (order: Option<Ordering>) {
        if self.major != other.major {
            Some(compare(self.major, other.major))
        } else if self.minor != other.minor {
            Some(compare(self.minor, other.minor))
        } else {
            Some(compare(self.patch, other.patch))
        }
    }
}

impl vstd::std_specs::cmp::PartialOrdSpecImpl for FirmwareVersion {
    open spec fn obeys_partial_cmp_spec() -> bool {
        true
    }

    open spec fn partial_cmp_spec(&self, other: &Self) -> Option<Ordering> {
        Some(version_order(*self, *other))
    }
}

/// The version that `s` writes: three decimal numbers with a dot between each two.
pub open spec fn version_of(s: Seq<char>) -> Option<FirmwareVersion> {
    match split_once_at(s, '.') {
        Some((major, rest)) => match split_once_at(rest, '.') {
            Some((minor, patch)) => match (
                unsigned_value(major, 10, 0xffff),
                unsigned_value(minor, 10, 0xffff),
                unsigned_value(patch, 10, 0xffff),
            ) {
                (Some(major), Some(minor), Some(patch)) => Some(
                    FirmwareVersion { major: major as u16, minor: minor as u16, patch: patch as u16 },
                ),
                _ => None,
            },
            None => None,
        },
        None => None,
    }
}

impl FirmwareVersion {
    pub fn new(major: u16, minor: u16, patch: u16) -> (version: Self)
        ensures
            version.major == major,
            version.minor == minor,
            version.patch == patch,
    {
        FirmwareVersion { major, minor, patch }
    }

    /// Reads a version of three parts.
    pub fn parse(s: &str) -> (version: Option<Self>)
        ensures
            version == version_of(s@),
    {
        let (major, rest) = match split_once(s, '.') {
            Some(parts) => parts,
            None => return None,
        };
        let (minor, patch) = match split_once(rest, '.') {
            Some(parts) => parts,
            None => return None,
        };
        let major: u16 = match parse_u16(major) {
            Some(n) => n,
            None => return None,
        };
        let minor: u16 = match parse_u16(minor) {
            Some(n) => n,
            None => return None,
        };
        let patch: u16 = match parse_u16(patch) {
            Some(n) => n,
            None => return None,
        };
        Some(FirmwareVersion { major, minor, patch })
    }

    /// The version in text.
    pub open spec fn text(self) -> Seq<char> {
        decimal(self.major as nat) + "."@ + decimal(self.minor as nat) + "."@ + decimal(
            self.patch as nat,
        )
    }

    /// Writes the version.
    pub fn to_string(&self) -> (s: String)
        ensures
            s@ == self.text(),
    {
        let minor = decimal_string(self.minor as u32);
        let patch = decimal_string(self.patch as u32);
        let mut s = decimal_string(self.major as u32);
        s.append(".");
        s.append(minor.as_str());
        s.append(".");
        s.append(patch.as_str());
        s
    }
}

/// A supported firmware.
///
/// This is not the same as the `Firmware type` header since all modern
/// firmwares set that to `Cleanflight`. This is instead decoded from `Firmware
/// revision`.
#[derive(Debug, Clone, Copy, PartialEq, Eq, Hash, Structural)]
pub enum Firmware {
    /// [Betaflight](https://github.com/betaflight/betaflight/)
    Betaflight(FirmwareVersion),
    /// [INAV](https://github.com/iNavFlight/inav/)
    Inav(FirmwareVersion),
}

/// The firmware that a `Firmware revision` header names: its name in any case, one space, its
/// version, and whatever follows another space.
pub open spec fn firmware_of(revision: Seq<char>) -> Result<Firmware, ErrorView> {
    let parts = split_all(revision, ' ');
    if parts.len() < 2 {
        Err(ErrorView::InvalidFirmware(revision))
    } else {
        match version_of(parts[1]) {
            None => Err(ErrorView::InvalidFirmware(revision)),
            Some(version) => {
                let name = ascii_lowercase(parts[0]);
                if name == "betaflight"@ {
                    supported_only(Firmware::Betaflight(version))
                } else if name == "inav"@ {
                    supported_only(Firmware::Inav(version))
                } else {
                    Err(ErrorView::InvalidFirmware(revision))
                }
            },
        }
    }
}

/// A firmware where it is supported, else the error that says it is not.
pub open spec fn supported_only(firmware: Firmware) -> Result<Firmware, ErrorView> {
    if firmware.is_supported() {
        Ok(firmware)
    } else {
        Err(ErrorView::UnsupportedFirmwareVersion(firmware))
    }
}

impl Firmware {
    /// The firmware's name.
    pub open spec fn spec_name(self) -> Seq<char> {
        match self {
            Firmware::Betaflight(_) => "Betaflight"@,
            Firmware::Inav(_) => "INAV"@,
        }
    }

    pub fn name(&self) -> (name: &'static str)
        ensures
            name@ == self.spec_name(),
    {
        match self {
            Firmware::Betaflight(_) => "Betaflight",
            Firmware::Inav(_) => "INAV",
        }
    }

    /// The firmware's version.
    pub open spec fn spec_version(self) -> FirmwareVersion {
        match self {
            Firmware::Betaflight(version) => version,
            Firmware::Inav(version) => version,
        }
    }

    pub fn version(&self) -> (version: FirmwareVersion)
        ensures
            version == self.spec_version(),
    {
        match self {
            Firmware::Betaflight(version) => *version,
            Firmware::Inav(version) => *version,
        }
    }

    /// Whether logs of this firmware can be read: Betaflight 4.2 to 4.5 and from 2025 on, INAV 5
    /// to 9.
    pub open spec fn is_supported(self) -> bool {
        match self {
            Firmware::Betaflight(version) => (version.major == 4 && 2 <= version.minor <= 5)
                || version.major >= 2025,
            Firmware::Inav(version) => 5 <= version.major <= 9,
        }
    }

    fn supported(&self) -> (yes: bool)
        ensures
            yes == self.is_supported(),
    {
        match self {
            Firmware::Betaflight(version) => (version.major == 4 && 2 <= version.minor
                && version.minor <= 5) || version.major >= 2025,
            Firmware::Inav(version) => 5 <= version.major && version.major <= 9,
        }
    }

    /// Reads a `Firmware revision` header.
    pub fn parse(firmware_revision: &str) -> (firmware: Result<Self, ParseError>)
        ensures
            match firmware {
                Ok(firmware) => firmware_of(firmware_revision@) == Ok::<Firmware, ErrorView>(
                    firmware,
                ),
                Err(e) => firmware_of(firmware_revision@) == Err::<Firmware, ErrorView>(e@),
            },
    {
        let parts = split(firmware_revision, ' ');
        assert(parts@.len() == split_all(firmware_revision@, ' ').len());
        if parts.len() < 2 {
            return Err(ParseError::InvalidFirmware(firmware_revision.to_owned()));
        }
        assert(parts@[0]@ == split_all(firmware_revision@, ' ')[0]);
        assert(parts@[1]@ == split_all(firmware_revision@, ' ')[1]);
        let version = match FirmwareVersion::parse(parts[1]) {
            Some(version) => version,
            None => return Err(ParseError::InvalidFirmware(firmware_revision.to_owned())),
        };
        let firmware = if lowercase_is(parts[0], "betaflight") {
            Firmware::Betaflight(version)
        } else if lowercase_is(parts[0], "inav") {
            Firmware::Inav(version)
        } else {
            return Err(ParseError::InvalidFirmware(firmware_revision.to_owned()));
        };
        if firmware.supported() {
            Ok(firmware)
        } else {
            Err(ParseError::UnsupportedFirmwareVersion(firmware))
        }
    }
}

impl PartialOrd for Firmware {
    fn partial_cmp(&self, other: &Self) -> (order: Option<Ordering>) {
        match (self, other) {
            (Firmware::Betaflight(a), Firmware::Betaflight(b)) => a.partial_cmp(b),
            (Firmware::Inav(a), Firmware::Inav(b)) => a.partial_cmp(b),
            _ => None,
        }
    }
}

impl vstd::std_specs::cmp::PartialOrdSpecImpl for Firmware {
    open spec fn obeys_partial_cmp_spec() -> bool {
        true
    }

    open spec fn partial_cmp_spec(&self, other: &Self) -> Option<Ordering> {
        firmware_order(*self, *other)
    }
}

/// A firmware and the part of its version that the log format depends on.
#[derive(Debug, Clone, Copy, PartialEq, Eq, Hash, Structural)]
pub enum InternalFirmware {
    Betaflight4_2,
    Betaflight4_3,
    Betaflight4_4,
    Betaflight4_5,
    Betaflight2025,
    Betaflight2026,
    Inav5,
    Inav6,
    Inav7,
    Inav8,
    Inav9,
}

impl InternalFirmware {
    /// Whether this is a version of Betaflight.
    pub open spec fn betaflight(self) -> bool {
        match self {
            InternalFirmware::Inav5
            | InternalFirmware::Inav6
            | InternalFirmware::Inav7
            | InternalFirmware::Inav8
            | InternalFirmware::Inav9 => false,
            _ => true,
        }
    }

    /// The release's place among the known releases of its firmware, and of all.
    pub open spec fn rank(self) -> u16 {
        match self {
            InternalFirmware::Betaflight4_2 => 0,
            InternalFirmware::Betaflight4_3 => 1,
            InternalFirmware::Betaflight4_4 => 2,
            InternalFirmware::Betaflight4_5 => 3,
            InternalFirmware::Betaflight2025 => 4,
            InternalFirmware::Betaflight2026 => 5,
            InternalFirmware::Inav5 => 6,
            InternalFirmware::Inav6 => 7,
            InternalFirmware::Inav7 => 8,
            InternalFirmware::Inav8 => 9,
            InternalFirmware::Inav9 => 10,
        }
    }

    /// The release of a supported firmware. Patch releases share one, as do the minor releases of
    /// every firmware but Betaflight 4; Betaflight later than 2026 counts as 2026.
    pub open spec fn release_of(firmware: Firmware) -> InternalFirmware {
        match firmware {
            Firmware::Betaflight(v) => if v.major == 4 {
                if v.minor == 2 {
                    InternalFirmware::Betaflight4_2
                } else if v.minor == 3 {
                    InternalFirmware::Betaflight4_3
                } else if v.minor == 4 {
                    InternalFirmware::Betaflight4_4
                } else {
                    InternalFirmware::Betaflight4_5
                }
            } else if v.major == 2025 {
                InternalFirmware::Betaflight2025
            } else {
                InternalFirmware::Betaflight2026
            },
            Firmware::Inav(v) => if v.major == 5 {
                InternalFirmware::Inav5
            } else if v.major == 6 {
                InternalFirmware::Inav6
            } else if v.major == 7 {
                InternalFirmware::Inav7
            } else if v.major == 8 {
                InternalFirmware::Inav8
            } else {
                InternalFirmware::Inav9
            },
        }
    }

    pub fn is_betaflight(self) -> (yes: bool)
        ensures
            yes == self.betaflight(),
    {
        match self {
            InternalFirmware::Betaflight4_2
            | InternalFirmware::Betaflight4_3
            | InternalFirmware::Betaflight4_4
            | InternalFirmware::Betaflight4_5
            | InternalFirmware::Betaflight2025
            | InternalFirmware::Betaflight2026 => true,
            InternalFirmware::Inav5
            | InternalFirmware::Inav6
            | InternalFirmware::Inav7
            | InternalFirmware::Inav8
            | InternalFirmware::Inav9 => false,
        }
    }

    pub fn is_inav(self) -> (yes: bool)
        ensures
            yes == !self.betaflight(),
    {
        !self.is_betaflight()
    }

    /// The release of a supported firmware.
    pub fn from(fw: Firmware) -> (release: Self)
        requires
            fw.is_supported(),
        ensures
            release == Self::release_of(fw),
    {
        match fw {
            Firmware::Betaflight(version) => match version.major {
                4 => match version.minor {
                    2 => InternalFirmware::Betaflight4_2,
                    3 => InternalFirmware::Betaflight4_3,
                    4 => InternalFirmware::Betaflight4_4,
                    _ => InternalFirmware::Betaflight4_5,
                },
                2025 => InternalFirmware::Betaflight2025,
                _ => InternalFirmware::Betaflight2026,
            },
            Firmware::Inav(version) => match version.major {
                5 => InternalFirmware::Inav5,
                6 => InternalFirmware::Inav6,
                7 => InternalFirmware::Inav7,
                8 => InternalFirmware::Inav8,
                _ => InternalFirmware::Inav9,
            },
        }
    }

    fn position(self) -> (rank: u16)
        ensures
            rank == self.rank(),
    {
        match self {
            InternalFirmware::Betaflight4_2 => 0,
            InternalFirmware::Betaflight4_3 => 1,
            InternalFirmware::Betaflight4_4 => 2,
            InternalFirmware::Betaflight4_5 => 3,
            InternalFirmware::Betaflight2025 => 4,
            InternalFirmware::Betaflight2026 => 5,
            InternalFirmware::Inav5 => 6,
            InternalFirmware::Inav6 => 7,
            InternalFirmware::Inav7 => 8,
            InternalFirmware::Inav8 => 9,
            InternalFirmware::Inav9 => 10,
        }
    }
}

impl PartialOrd for InternalFirmware {
    fn partial_cmp(&self, other: &Self) -> (order: Option<Ordering>) {
        if self.is_betaflight() != other.is_betaflight() {
            return None;
        }
        Some(compare(self.position(), other.position()))
    }
}

impl vstd::std_specs::cmp::PartialOrdSpecImpl for InternalFirmware {
    open spec fn obeys_partial_cmp_spec() -> bool {
        true
    }

    open spec fn partial_cmp_spec(&self, other: &Self) -> Option<Ordering> {
        release_order(*self, *other)
    }
}

/// Writing a version and reading it gives the version back.
pub proof fn version_reads_back(version: FirmwareVersion)
    ensures
        version_of(version.text()) == Some(version),
{
    reveal_strlit(".");
    let major = decimal(version.major as nat);
    let minor = decimal(version.minor as nat);
    let patch = decimal(version.patch as nat);
    let rest = minor + "."@ + patch;
    decimal_digits(version.major as nat);
    decimal_digits(version.minor as nat);
    decimal_reads_back(version.major as nat, 0xffff);
    decimal_reads_back(version.minor as nat, 0xffff);
    decimal_reads_back(version.patch as nat, 0xffff);
    assert(version.text() =~= major + "."@ + rest);
    assert(major.push('.') =~= major + "."@);
    assert(minor.push('.') =~= minor + "."@);
    split_once_at_first(major, rest, '.');
    split_once_at_first(minor, patch, '.');
}

/// Two firmwares compare if and only if they are of one name.
pub proof fn only_one_firmware_compares(a: Firmware, b: Firmware)
    ensures
        firmware_order(a, b) is Some <==> a.spec_name() == b.spec_name(),
{
    reveal_strlit("Betaflight");
    reveal_strlit("INAV");
    assert("Betaflight"@.len() != "INAV"@.len());
}

/// The releases of two supported firmwares of one name compare as their versions do, up to
/// versions that share a release.
pub proof fn releases_follow_versions(a: Firmware, b: Firmware)
    requires
        a.is_supported(),
        b.is_supported(),
    ensures
        firmware_order(a, b) is None <==> release_order(
            InternalFirmware::release_of(a),
            InternalFirmware::release_of(b),
        ) is None,
        firmware_order(a, b) == Some(Ordering::Less) ==> release_order(
            InternalFirmware::release_of(a),
            InternalFirmware::release_of(b),
        ) != Some(Ordering::Greater),
        firmware_order(a, b) == Some(Ordering::Equal) ==> release_order(
            InternalFirmware::release_of(a),
            InternalFirmware::release_of(b),
        ) == Some(Ordering::Equal),
{
}

/// Every firmware that a `Firmware revision` header is read as is supported, so that it has a
/// release.
pub proof fn read_firmware_is_supported(revision: Seq<char>)
    ensures
        firmware_of(revision) matches Ok(firmware) ==> firmware.is_supported(),
{
}

} // verus!
