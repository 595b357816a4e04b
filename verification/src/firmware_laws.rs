//! What holds of firmwares and of how they are read.
use std::cmp::Ordering;

use vstd::prelude::*;
use vstd::string::*;

use crate::error::ErrorView;
use crate::firmware::{
    firmware_of, firmware_order, release_order, version_of, version_order, Firmware,
    FirmwareVersion, InternalFirmware,
};
use crate::text::{decimal, decimal_digits, split_all, split_once_at, split_once_at_first, unsigned_value};
use crate::text_laws::{in_any_case, lowercase_ignores_case, split_once_at_parts};

verus! {

/// A version as one number, in which each part has sixteen bits.
pub open spec fn version_number(version: FirmwareVersion) -> int {
    0x1_0000_0000 * version.major + 0x1_0000 * version.minor + version.patch
}

/// Versions are ordered as their numbers are, and only equal versions have the same number.
pub proof fn versions_order_as_numbers(a: FirmwareVersion, b: FirmwareVersion)
    ensures
        version_order(a, b) == Ordering::Less <==> version_number(a) < version_number(b),
        version_order(a, b) == Ordering::Greater <==> version_number(a) > version_number(b),
        version_order(a, b) == Ordering::Equal <==> a == b,
        version_number(a) == version_number(b) <==> a == b,
{
}

/// Firmwares of one name are ordered as their versions are.
pub proof fn firmwares_order_as_versions(a: FirmwareVersion, b: FirmwareVersion)
    ensures
        firmware_order(Firmware::Betaflight(a), Firmware::Betaflight(b)) == Some(
            version_order(a, b),
        ),
        firmware_order(Firmware::Inav(a), Firmware::Inav(b)) == Some(version_order(a, b)),
        firmware_order(Firmware::Betaflight(a), Firmware::Inav(b)) is None,
        firmware_order(Firmware::Inav(a), Firmware::Betaflight(b)) is None,
        Firmware::Betaflight(a).spec_version() == a,
        Firmware::Inav(a).spec_version() == a,
{
}

/// Betaflight is supported from 4.2.0 up to 4.6.0, which is not, and from 2025.0.0 on; INAV from 5.0.0
/// up to 10.0.0, which is not.
pub proof fn supported_versions(version: FirmwareVersion)
    ensures
        Firmware::Betaflight(version).is_supported() <==> {
            ||| version_number(FirmwareVersion { major: 4, minor: 2, patch: 0 }) <= version_number(
                version,
            ) < version_number(FirmwareVersion { major: 4, minor: 6, patch: 0 })
            ||| version_number(FirmwareVersion { major: 2025, minor: 0, patch: 0 })
                <= version_number(version)
        },
        Firmware::Inav(version).is_supported() <==> version_number(
            FirmwareVersion { major: 5, minor: 0, patch: 0 },
        ) <= version_number(version) < version_number(
            FirmwareVersion { major: 10, minor: 0, patch: 0 },
        ),
{
}

/// The releases of Betaflight 4 follow its minor versions from 4.2 on, then come 2025 and everything
/// later; the releases of INAV follow its major versions from 5 on.
pub proof fn releases_count_versions(version: FirmwareVersion)
    ensures
        ({
            let release = InternalFirmware::release_of(Firmware::Betaflight(version));
            Firmware::Betaflight(version).is_supported() ==> release.betaflight() && release.rank()
                == (if version.major == 4 {
                version.minor - 2
            } else if version.major == 2025 {
                4
            } else {
                5
            })
        }),
        ({
            let release = InternalFirmware::release_of(Firmware::Inav(version));
            Firmware::Inav(version).is_supported() ==> !release.betaflight() && release.rank()
                == version.major + 1
        }),
{
}

/// The six releases of Betaflight come before the five of INAV, no two share a place, and two compare
/// by their places if and only if both are of one firmware.
pub proof fn releases_order_as_places(a: InternalFirmware, b: InternalFirmware)
    ensures
        a.betaflight() <==> a.rank() < 6,
        a.rank() < 11,
        a.rank() == b.rank() <==> a == b,
        release_order(a, b) == (if (a.rank() < 6) != (b.rank() < 6) {
            None
        } else if a.rank() < b.rank() {
            Some(Ordering::Less)
        } else if a.rank() == b.rank() {
            Some(Ordering::Equal)
        } else {
            Some(Ordering::Greater)
        }),
{
}

/// Three numbers with dots in between are a version if and only if each of them fits sixteen bits.
pub proof fn versions_have_three_parts(major: Seq<char>, minor: Seq<char>, patch: Seq<char>)
    requires
        !major.contains('.'),
        !minor.contains('.'),
    ensures
        version_of(major.push('.') + minor.push('.') + patch) == match (
            unsigned_value(major, 10, 65535),
            unsigned_value(minor, 10, 65535),
            unsigned_value(patch, 10, 65535),
        ) {
            (Some(x), Some(y), Some(z)) => Some(
                FirmwareVersion { major: x as u16, minor: y as u16, patch: z as u16 },
            ),
            _ => None,
        },
{
    let s = major.push('.') + minor.push('.') + patch;
    let rest = minor.push('.') + patch;
    assert(s =~= major.push('.') + rest);
    assert forall|i: int| 0 <= i < major.len() implies major[i] != '.' by {
        assert(major.contains(major[i]));
    }
    assert forall|i: int| 0 <= i < minor.len() implies minor[i] != '.' by {
        assert(minor.contains(minor[i]));
    }
    split_once_at_first(major, rest, '.');
    split_once_at_first(minor, patch, '.');
}

/// Every version is read from three parts.
pub proof fn a_version_has_three_parts(s: Seq<char>) -> (parts: (Seq<char>, Seq<char>, Seq<char>))
    requires
        version_of(s) is Some,
    ensures
        s == parts.0.push('.') + parts.1.push('.') + parts.2,
        !parts.0.contains('.'),
        !parts.1.contains('.'),
{
    split_once_at_parts(s, '.');
    let (major, rest) = split_once_at(s, '.').unwrap();
    split_once_at_parts(rest, '.');
    let (minor, patch) = split_once_at(rest, '.').unwrap();
    assert(s =~= major.push('.') + minor.push('.') + patch);
    (major, minor, patch)
}

/// A revision names a firmware in its first word, in any case, and the version in its second. One
/// that does not is invalid, and one of a version that is not supported is refused as that.
pub proof fn revisions_start_with_name_and_version(revision: Seq<char>)
    ensures
        ({
            let words = split_all(revision, ' ');
            let result = firmware_of(revision);
            if words.len() < 2 || version_of(words[1]) is None || !(in_any_case(
                words[0],
                "betaflight"@,
            ) || in_any_case(words[0], "inav"@)) {
                result == Err::<Firmware, ErrorView>(ErrorView::InvalidFirmware(revision))
            } else {
                let version = version_of(words[1]).unwrap();
                let firmware = if words[0].len() == 4 {
                    Firmware::Inav(version)
                } else {
                    Firmware::Betaflight(version)
                };
                if firmware.is_supported() {
                    result == Ok::<Firmware, ErrorView>(firmware)
                } else {
                    result == Err::<Firmware, ErrorView>(
                        ErrorView::UnsupportedFirmwareVersion(firmware),
                    )
                }
            }
        }),
{
    reveal_strlit("betaflight");
    reveal_strlit("inav");
    let words = split_all(revision, ' ');
    assert("betaflight"@.len() == 10);
    assert("inav"@.len() == 4);
    if words.len() >= 2 {
        lowercase_ignores_case(words[0], "betaflight"@);
        lowercase_ignores_case(words[0], "inav"@);
    }
}

/// A number is written without leading zeros.
pub proof fn decimal_has_no_leading_zero(n: nat)
    ensures
        n > 0 ==> decimal(n)[0] != '0',
        n == 0 ==> decimal(n) == seq!['0'],
    decreases n,
{
    if n >= 10 {
        decimal_has_no_leading_zero(n / 10);
        decimal_digits(n / 10);
    }
}

/// A version is written as its three parts with dots in between.
pub proof fn version_text_has_three_parts(version: FirmwareVersion)
    ensures
        version.text() == decimal(version.major as nat).push('.') + decimal(
            version.minor as nat,
        ).push('.') + decimal(version.patch as nat),
{
    reveal_strlit(".");
    assert(version.text() =~= decimal(version.major as nat).push('.') + decimal(
        version.minor as nat,
    ).push('.') + decimal(version.patch as nat));
}

/// Each error says what it is about: the text, the firmware, the header and its value, the field and
/// the frame.
pub proof fn messages_name_their_subject(
    a: Seq<char>,
    b: Seq<char>,
    firmware: Firmware,
    frame: crate::frame::DataFrameKind,
)
    ensures
        ErrorView::InvalidFirmware(a).message() == "could not parse firmware: `"@ + a + "`"@,
        ErrorView::UnsupportedFirmwareVersion(firmware).message() == "logs from "@
            + firmware.spec_name() + " v"@ + firmware.spec_version().text()
            + " are not supported"@,
        (ErrorView::InvalidHeader { header: a, value: b }).message()
            == "invalid value for header `"@ + a + "`: `"@ + b + "`"@,
        (ErrorView::MissingField { frame, field: a }).message() == "missing field `"@ + a
            + "` in `"@ + frame.spec_name() + "` frame definition"@,
        ErrorView::MalformedFrameDef(frame).message() == "malformed "@ + frame.spec_name()
            + " frame definition"@,
{
}

} // verus!
