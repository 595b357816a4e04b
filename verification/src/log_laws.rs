//! What the headers of a log say, in terms of the lines that it starts with.
use vstd::prelude::*;
use vstd::string::*;

use crate::error::ErrorView;
use crate::firmware::{firmware_of, Firmware, InternalFirmware};
use crate::frame::{
    frame_def_header, BuilderView, DataFrameKind, DefProperty, FieldView, MainBuilderView,
    MainDefView,
};
use crate::frame_laws::{frame_header_name, frame_headers_have_names};
use crate::header_laws::{
    end_state, headers_are_read_one_by_one, next_state, read_from, refused_headers,
};
use crate::headers::{
    after_header, after_line, header_at, headers_are_consumed, headers_from, headers_of,
    HeadersView,
};
use crate::intervals::intervals_of;
use crate::state::{MotorOutputRange, RawView, StateView};
use crate::tables::{debug_mode_name, pwm_protocol_name};
use crate::text::{signed_value, split_once_at, trimmed, unsigned_value};

verus! {

/// A number that tells the names of the headers apart.
#[verifier::opaque]
spec fn name_key(s: Seq<char>) -> int {
    1000000 * s.len() + 3000 * (s[0] as int) + 7 * (s[4] as int) + (s[s.len() - 4] as int)
}

/// Whether a name starts as those of the headers about frames do.
#[verifier::opaque]
spec fn starts_as_field(s: Seq<char>) -> bool {
    s.len() > 2 && s[0] == 'F' && s[2] == 'e'
}

#[verifier::rlimit(50)]
proof fn names_are_apart()
    ensures
        name_key("Firmware revision"@) == 17210948,
        !starts_as_field("Firmware revision"@),
        name_key("Firmware date"@) == 13210933,
        !starts_as_field("Firmware date"@),
        name_key("Firmware type"@) == 13210949,
        !starts_as_field("Firmware type"@),
        name_key("Board information"@) == 17198816,
        !starts_as_field("Board information"@),
        name_key("Board info"@) == 10198805,
        !starts_as_field("Board info"@),
        name_key("Craft name"@) == 10201922,
        !starts_as_field("Craft name"@),
        name_key("debug_mode"@) == 10300830,
        !starts_as_field("debug_mode"@),
        name_key("fields_disabled_mask"@) == 20306809,
        !starts_as_field("fields_disabled_mask"@),
        name_key("features"@) == 8306936,
        !starts_as_field("features"@),
        name_key("motor_pwm_protocol"@) == 18327909,
        !starts_as_field("motor_pwm_protocol"@),
        name_key("vbatref"@) == 7354914,
        !starts_as_field("vbatref"@),
        name_key("acc_1G"@) == 6291442,
        !starts_as_field("acc_1G"@),
        name_key("gyro.scale"@) == 10309421,
        !starts_as_field("gyro.scale"@),
        name_key("gyro_scale"@) == 10309764,
        !starts_as_field("gyro_scale"@),
        name_key("minthrottle"@) == 11327844,
        !starts_as_field("minthrottle"@),
        name_key("motorOutput"@) == 11327914,
        !starts_as_field("motorOutput"@),
        name_key("vbatscale"@) == 9354904,
        !starts_as_field("vbatscale"@),
        name_key("vbat_scale"@) == 10354764,
        !starts_as_field("vbat_scale"@),
        name_key("currentMeter"@) == 12297808,
        !starts_as_field("currentMeter"@),
        name_key("currentSensor"@) == 13297817,
        !starts_as_field("currentSensor"@),
{
    reveal(name_key);
    reveal(starts_as_field);
    reveal_strlit("Firmware revision");
    reveal_strlit("Firmware date");
    reveal_strlit("Firmware type");
    reveal_strlit("Board information");
    reveal_strlit("Board info");
    reveal_strlit("Craft name");
    reveal_strlit("debug_mode");
    reveal_strlit("fields_disabled_mask");
    reveal_strlit("features");
    reveal_strlit("motor_pwm_protocol");
    reveal_strlit("vbatref");
    reveal_strlit("acc_1G");
    reveal_strlit("gyro.scale");
    reveal_strlit("gyro_scale");
    reveal_strlit("minthrottle");
    reveal_strlit("motorOutput");
    reveal_strlit("vbatscale");
    reveal_strlit("vbat_scale");
    reveal_strlit("currentMeter");
    reveal_strlit("currentSensor");
}

proof fn frame_names_start_as_field(header: Seq<char>)
    ensures
        frame_def_header(header) is Some ==> starts_as_field(header),
{
    if frame_def_header(header) is Some {
        let (kind, property) = frame_def_header(header).unwrap();
        frame_headers_have_names(header, kind, property);
        reveal_strlit("Field ");
        reveal(starts_as_field);
        assert(header[0] == "Field "@[0]);
        assert(header[2] == "Field "@[2]);
    }
}

/// Whether a header is one that the library knows, or passes over, by its name.
pub open spec fn has_meaning(name: Seq<char>) -> bool {
    ||| exists|kind: DataFrameKind, property: DefProperty|
        name == #[trigger] frame_header_name(kind, property)
    ||| name == "Firmware revision"@
    ||| name == "Firmware date"@
    ||| name == "Firmware type"@
    ||| name == "Board information"@
    ||| name == "Board info"@
    ||| name == "Craft name"@
    ||| name == "debug_mode"@
    ||| name == "fields_disabled_mask"@
    ||| name == "features"@
    ||| name == "motor_pwm_protocol"@
    ||| name == "vbatref"@
    ||| name == "acc_1G"@
    ||| name == "gyro.scale"@
    ||| name == "gyro_scale"@
    ||| name == "minthrottle"@
    ||| name == "motorOutput"@
    ||| name == "vbatscale"@
    ||| name == "vbat_scale"@
    ||| name == "currentMeter"@
    ||| name == "currentSensor"@
}

/// The bits that a gyro scale writes, in hexadecimal behind `0x` and else in decimal.
pub open spec fn scale_of(value: Seq<char>) -> Option<nat> {
    if value.len() >= 2 && value[0] == '0' && value[1] == 'x' {
        unsigned_value(value.skip(2), 16, 0xffff_ffff)
    } else {
        unsigned_value(value, 10, 0xffff_ffff)
    }
}

/// The two numbers that a motor output range writes, with a comma in between.
pub open spec fn output_range_of(value: Seq<char>) -> Option<(nat, nat)> {
    match split_once_at(value, ',') {
        Some((min, max)) => match (
            unsigned_value(min, 10, 65535),
            unsigned_value(max, 10, 65535),
        ) {
            (Some(min), Some(max)) => Some((min, max)),
            _ => None,
        },
        None => None,
    }
}

/// Whether the value of a header can be read: where the header stands for a number, it is one that is
/// not too large.
pub open spec fn acceptable(name: Seq<char>, value: Seq<char>) -> bool {
    &&& name == "debug_mode"@ || name == "fields_disabled_mask"@ || name == "motor_pwm_protocol"@
        ==> unsigned_value(value, 10, 4294967295) is Some
    &&& name == "features"@ ==> signed_value(value) is Some
    &&& name == "vbatref"@ || name == "acc_1G"@ || name == "minthrottle"@ ==> unsigned_value(
        value,
        10,
        65535,
    ) is Some
    &&& name == "gyro.scale"@ || name == "gyro_scale"@ ==> scale_of(value) is Some
    &&& name == "motorOutput"@ ==> output_range_of(value) is Some
}

proof fn scales_are_read(value: Seq<char>)
    ensures
        crate::state::scale_bits_of(value) is Some <==> scale_of(value) is Some,
        scale_of(value) matches Some(n) ==> crate::state::scale_bits_of(value) == Some(n as u32),
{
    reveal_strlit("0x");
    let prefix = "0x"@;
    assert(prefix =~= seq!['0', 'x']);
    if value.len() >= 2 {
        if value[0] == '0' && value[1] == 'x' {
            assert(value.take(2) =~= prefix);
        } else {
            assert(value.take(2)[0] == value[0]);
            assert(value.take(2)[1] == value[1]);
        }
    }
}

/// What a header leaves of a text that was there: its own value where it has the name, else the text.
pub open spec fn replaced<T>(here: bool, new: T, old: T) -> T {
    if here {
        new
    } else {
        old
    }
}

/// How the texts of a state follow from one more header.
pub open spec fn texts_follow(s: StateView, t: StateView, name: Seq<char>, value: Seq<char>) -> bool {
    &&& t.firmware_revision == replaced(
        name == "Firmware revision"@,
        Some(value),
        s.firmware_revision,
    )
    &&& t.firmware_date == replaced(name == "Firmware date"@, Some(value), s.firmware_date)
    &&& t.board_info == replaced(
        name == "Board information"@ || name == "Board info"@,
        Some(value),
        s.board_info,
    )
    &&& t.craft_name == replaced(name == "Craft name"@, Some(value), s.craft_name)
    &&& t.unknown == replaced(has_meaning(name), s.unknown, s.unknown.insert(name, value))
}

/// How the numbers of a state follow from one more header.
pub open spec fn numbers_follow(
    s: StateView,
    t: StateView,
    name: Seq<char>,
    value: Seq<char>,
) -> bool {
    &&& t.debug_mode == replaced(name == "debug_mode"@, Some(number_header(name, value)), s.debug_mode)
    &&& t.pwm_protocol == replaced(
        name == "motor_pwm_protocol"@,
        Some(number_header(name, value)),
        s.pwm_protocol,
    )
    &&& t.disabled_fields == replaced(
        name == "fields_disabled_mask"@,
        unsigned_value(value, 10, 4294967295).unwrap() as u32,
        s.disabled_fields,
    )
    &&& t.features == replaced(name == "features"@, feature_bits(value), s.features)
    &&& t.vbat_reference == replaced(name == "vbatref"@, Some(small_number(value)), s.vbat_reference)
    &&& t.acceleration_1g == replaced(name == "acc_1G"@, Some(small_number(value)), s.acceleration_1g)
    &&& t.min_throttle == replaced(name == "minthrottle"@, Some(small_number(value)), s.min_throttle)
    &&& t.gyro_scale == replaced(
        name == "gyro.scale"@ || name == "gyro_scale"@,
        Some(scale_of(value).unwrap() as u32),
        s.gyro_scale,
    )
    &&& t.motor_output_range == replaced(
        name == "motorOutput"@,
        Some(output_range(value)),
        s.motor_output_range,
    )
}

/// The header of a number, as it was written and as it was read.
pub open spec fn number_header(name: Seq<char>, value: Seq<char>) -> RawView<u32> {
    RawView { header: name, raw: value, value: unsigned_value(value, 10, 4294967295).unwrap() as u32 }
}

/// A number of sixteen bits.
pub open spec fn small_number(value: Seq<char>) -> u16 {
    unsigned_value(value, 10, 65535).unwrap() as u16
}

/// The bits of a signed number of 32 bits.
pub open spec fn feature_bits(value: Seq<char>) -> u32 {
    (signed_value(value).unwrap() % 0x1_0000_0000) as u32
}

/// A range of two numbers of sixteen bits.
pub open spec fn output_range(value: Seq<char>) -> MotorOutputRange {
    let (min, max) = output_range_of(value).unwrap();
    MotorOutputRange { min: min as u16, max: max as u16 }
}

/// How what is known of one frame follows from one more header.
pub open spec fn frame_follows(
    s: BuilderView,
    t: BuilderView,
    kind: DataFrameKind,
    name: Seq<char>,
    value: Seq<char>,
) -> bool {
    &&& t.names == replaced(
        name == frame_header_name(kind, DefProperty::Name),
        Some(value),
        s.names,
    )
    &&& t.signs == replaced(
        name == frame_header_name(kind, DefProperty::Signed),
        Some(value),
        s.signs,
    )
    &&& t.predictors == replaced(
        name == frame_header_name(kind, DefProperty::Predictor),
        Some(value),
        s.predictors,
    )
    &&& t.encodings == replaced(
        name == frame_header_name(kind, DefProperty::Encoding),
        Some(value),
        s.encodings,
    )
}

/// How what is known of the frames follows from one more header.
pub open spec fn frames_follow(
    s: StateView,
    t: StateView,
    name: Seq<char>,
    value: Seq<char>,
) -> bool {
    &&& frame_follows(s.main_frames.intra, t.main_frames.intra, DataFrameKind::Intra, name, value)
    &&& frame_follows(s.main_frames.inter, t.main_frames.inter, DataFrameKind::Inter, name, value)
    &&& frame_follows(s.slow_frames, t.slow_frames, DataFrameKind::Slow, name, value)
    &&& frame_follows(s.gps_frames, t.gps_frames, DataFrameKind::Gps, name, value)
    &&& frame_follows(s.gps_home_frames, t.gps_home_frames, DataFrameKind::GpsHome, name, value)
}

proof fn meanings(name: Seq<char>)
    ensures
        frame_def_header(name) is Some ==> has_meaning(name),
        frame_def_header(name) is None ==> forall|kind: DataFrameKind, property: DefProperty|
            name != #[trigger] frame_header_name(kind, property),
{
    match frame_def_header(name) {
        Some((kind, property)) => {
            frame_headers_have_names(name, kind, property);
        },
        None => {
            assert forall|kind: DataFrameKind, property: DefProperty| name
                != #[trigger] frame_header_name(kind, property) by {
                frame_headers_have_names(name, kind, property);
            }
        },
    }
}

/// A header is taken in if and only if its value can be read.
#[verifier::rlimit(50)]
pub proof fn acceptable_headers_are_taken_in(state: StateView, name: Seq<char>, value: Seq<char>)
    ensures
        state.updated(name, value) is Some <==> acceptable(name, value),
{
    names_are_apart();
    scales_are_read(value);
    if name == "Firmware revision"@ {
    } else if name == "Firmware date"@ {
    } else if name == "Firmware type"@ {
    } else if name == "Board information"@ || name == "Board info"@ {
    } else if name == "Craft name"@ {
    } else if name == "debug_mode"@ {
    } else if name == "fields_disabled_mask"@ {
    } else if name == "features"@ {
    } else if name == "motor_pwm_protocol"@ {
    } else if name == "vbatref"@ {
    } else if name == "acc_1G"@ {
    } else if name == "gyro.scale"@ || name == "gyro_scale"@ {
    } else if name == "minthrottle"@ {
    } else if name == "motorOutput"@ {
    } else {
        frame_names_start_as_field(name);
    }
}

/// A header that is taken in sets the text that it is named after, and no other; a header without a
/// meaning is kept by its name.
#[verifier::rlimit(50)]
pub proof fn headers_set_texts(state: StateView, name: Seq<char>, value: Seq<char>)
    ensures
        state.updated(name, value) matches Some(next) ==> texts_follow(state, next, name, value),
{
    names_are_apart();
    meanings(name);
    frame_names_start_as_field(name);
    if name == "Firmware revision"@ {
    } else if name == "Firmware date"@ {
    } else if name == "Firmware type"@ {
    } else if name == "Board information"@ || name == "Board info"@ {
    } else if name == "Craft name"@ {
    } else if name == "debug_mode"@ {
    } else if name == "fields_disabled_mask"@ {
    } else if name == "features"@ {
    } else if name == "motor_pwm_protocol"@ {
    } else if name == "vbatref"@ {
    } else if name == "acc_1G"@ {
    } else if name == "gyro.scale"@ || name == "gyro_scale"@ {
    } else if name == "minthrottle"@ {
    } else if name == "motorOutput"@ {
    } else {
    }
}

/// A header that is taken in sets the number that it is named after, and no other.
#[verifier::rlimit(50)]
pub proof fn headers_set_numbers(state: StateView, name: Seq<char>, value: Seq<char>)
    ensures
        state.updated(name, value) matches Some(next) ==> numbers_follow(state, next, name, value),
{
    names_are_apart();
    scales_are_read(value);
    frame_names_start_as_field(name);
    if name == "Firmware revision"@ {
    } else if name == "Firmware date"@ {
    } else if name == "Firmware type"@ {
    } else if name == "Board information"@ || name == "Board info"@ {
    } else if name == "Craft name"@ {
    } else if name == "debug_mode"@ {
    } else if name == "fields_disabled_mask"@ {
    } else if name == "features"@ {
    } else if name == "motor_pwm_protocol"@ {
    } else if name == "vbatref"@ {
    } else if name == "acc_1G"@ {
    } else if name == "gyro.scale"@ || name == "gyro_scale"@ {
    } else if name == "minthrottle"@ {
    } else if name == "motorOutput"@ {
    } else {
    }
}

/// A header that is taken in sets the property of the frame that it is named after, and no other.
#[verifier::rlimit(50)]
pub proof fn headers_set_frames(state: StateView, name: Seq<char>, value: Seq<char>)
    ensures
        state.updated(name, value) matches Some(next) ==> frames_follow(state, next, name, value),
{
    names_are_apart();
    frame_names_start_as_field(name);
    assert forall|kind: DataFrameKind, property: DefProperty| name == #[trigger] frame_header_name(
        kind,
        property,
    ) implies frame_def_header(name) == Some((kind, property)) by {
        frame_headers_have_names(name, kind, property);
    }
    match frame_def_header(name) {
        Some((kind, property)) => {
            frame_headers_have_names(name, kind, property);
        },
        None => {},
    }
    if name == "Firmware revision"@ {
    } else if name == "Firmware date"@ {
    } else if name == "Firmware type"@ {
    } else if name == "Board information"@ || name == "Board info"@ {
    } else if name == "Craft name"@ {
    } else if name == "debug_mode"@ {
    } else if name == "fields_disabled_mask"@ {
    } else if name == "features"@ {
    } else if name == "motor_pwm_protocol"@ {
    } else if name == "vbatref"@ {
    } else if name == "acc_1G"@ {
    } else if name == "gyro.scale"@ || name == "gyro_scale"@ {
    } else if name == "minthrottle"@ {
    } else if name == "motorOutput"@ {
    } else {
    }
}

/// The headers that a log starts with, as names and values, up to the first line that is none.
pub open spec fn header_lines(bytes: Seq<u8>) -> Seq<(Seq<char>, Seq<char>)>
    decreases bytes.len(),
{
    match header_at(bytes) {
        Ok(header) => if bytes.len() > 0 {
            proof {
                headers_are_consumed(bytes);
            }
            seq![header] + header_lines(after_header(bytes))
        } else {
            Seq::empty()
        },
        Err(_) => Seq::empty(),
    }
}

/// What is left of a log behind those headers.
pub open spec fn behind_lines(bytes: Seq<u8>) -> Seq<u8>
    decreases bytes.len(),
{
    match header_at(bytes) {
        Ok(header) => if bytes.len() > 0 {
            proof {
                headers_are_consumed(bytes);
            }
            behind_lines(after_header(bytes))
        } else {
            bytes
        },
        Err(_) => bytes,
    }
}

/// The value of the last line that has one of two names.
pub open spec fn last_of(
    lines: Seq<(Seq<char>, Seq<char>)>,
    name: Seq<char>,
    alias: Seq<char>,
) -> Option<Seq<char>>
    decreases lines.len(),
{
    if lines.len() == 0 {
        None
    } else {
        match last_of(lines.drop_first(), name, alias) {
            Some(value) => Some(value),
            None => if lines[0].0 == name || lines[0].0 == alias {
                Some(lines[0].1)
            } else {
                None
            },
        }
    }
}

/// The last line of a name is the one that no other line of the name follows.
pub proof fn last_of_is_last(
    lines: Seq<(Seq<char>, Seq<char>)>,
    name: Seq<char>,
    alias: Seq<char>,
) -> (at: int)
    ensures
        match last_of(lines, name, alias) {
            Some(value) => 0 <= at < lines.len() && lines[at].1 == value && (lines[at].0 == name
                || lines[at].0 == alias) && forall|i: int|
                at < i < lines.len() ==> (#[trigger] lines[i]).0 != name && lines[i].0 != alias,
            None => forall|i: int|
                0 <= i < lines.len() ==> (#[trigger] lines[i]).0 != name && lines[i].0 != alias,
        },
    decreases lines.len(),
{
    if lines.len() == 0 {
        0
    } else {
        let rest = lines.drop_first();
        let at = last_of_is_last(rest, name, alias);
        assert forall|i: int| 0 < i < lines.len() implies lines[i] == #[trigger] rest[i - 1] by {}
        match last_of(rest, name, alias) {
            Some(_) => {
                assert forall|i: int| at + 1 < i < lines.len() implies (#[trigger] lines[i]).0 != name
                    && lines[i].0 != alias by {
                    assert(lines[i] == rest[i - 1]);
                }
                at + 1
            },
            None => {
                assert forall|i: int| 0 < i < lines.len() implies (#[trigger] lines[i]).0 != name
                    && lines[i].0 != alias by {
                    assert(lines[i] == rest[i - 1]);
                }
                0
            },
        }
    }
}

/// The state after some more headers, where all of them are taken in.
pub open spec fn state_after(
    state: StateView,
    lines: Seq<(Seq<char>, Seq<char>)>,
) -> Option<StateView>
    decreases lines.len(),
{
    if lines.len() == 0 {
        Some(state)
    } else {
        match next_state(state, lines[0].0, lines[0].1) {
            Some(next) => state_after(next, lines.drop_first()),
            None => None,
        }
    }
}

/// Whether every line can be taken in.
pub open spec fn all_acceptable(lines: Seq<(Seq<char>, Seq<char>)>) -> bool {
    forall|i: int| 0 <= i < lines.len() ==> acceptable((#[trigger] lines[i]).0, lines[i].1)
}

proof fn acceptable_lines(state: StateView, lines: Seq<(Seq<char>, Seq<char>)>)
    ensures
        state_after(state, lines) is Some <==> all_acceptable(lines),
    decreases lines.len(),
{
    if lines.len() > 0 {
        let (name, value) = lines[0];
        let rest = lines.drop_first();
        assert(next_state(state, name, value) is Some <==> acceptable(name, value)) by {
            reveal(next_state);
            acceptable_headers_are_taken_in(state, name, value);
        }
        assert forall|i: int| 0 < i < lines.len() implies lines[i] == #[trigger] rest[i - 1] by {}
        if next_state(state, name, value) is Some {
            acceptable_lines(next_state(state, name, value).unwrap(), rest);
            if all_acceptable(rest) {
                assert forall|i: int| 0 <= i < lines.len() implies acceptable(
                    (#[trigger] lines[i]).0,
                    lines[i].1,
                ) by {
                    if i > 0 {
                        assert(lines[i] == rest[i - 1]);
                    }
                }
            }
            if all_acceptable(lines) {
                assert forall|i: int| 0 <= i < rest.len() implies acceptable(
                    (#[trigger] rest[i]).0,
                    rest[i].1,
                ) by {
                    assert(rest[i] == lines[i + 1]);
                }
            }
        }
    }
}

/// The first line that cannot be taken in is the one that is reported. Where there is none, the log may
/// end in the middle of a line; else the headers end there.
pub proof fn headers_end_behind_lines(state: StateView, bytes: Seq<u8>)
    ensures
        ({
            let lines = header_lines(bytes);
            let rest = behind_lines(bytes);
            &&& forall|i: int|
                0 <= i < lines.len() && !acceptable((#[trigger] lines[i]).0, lines[i].1)
                    && all_acceptable(lines.take(i)) ==> headers_from(state, bytes) == Err::<
                    HeadersView,
                    ErrorView,
                >(ErrorView::InvalidHeader { header: lines[i].0, value: lines[i].1 })
            &&& all_acceptable(lines) && rest.len() > 0 && rest[0] == 0x48 && !rest.skip(1).contains(
                0x0a,
            ) ==> headers_from(state, bytes) == Err::<HeadersView, ErrorView>(
                ErrorView::IncompleteHeaders,
            )
            &&& all_acceptable(lines) && !(rest.len() > 0 && rest[0] == 0x48 && !rest.skip(
                1,
            ).contains(0x0a)) ==> state_after(state, lines) is Some && headers_from(state, bytes)
                == end_state(state_after(state, lines).unwrap(), rest)
        }),
{
    headers_are_read_one_by_one(state, bytes);
    read_ends_behind_lines(state, bytes);
    acceptable_lines(state, header_lines(bytes));
}

#[verifier::rlimit(50)]
proof fn read_ends_behind_lines(state: StateView, bytes: Seq<u8>)
    ensures
        ({
            let lines = header_lines(bytes);
            let rest = behind_lines(bytes);
            &&& forall|i: int|
                0 <= i < lines.len() && !acceptable((#[trigger] lines[i]).0, lines[i].1)
                    && all_acceptable(lines.take(i)) ==> read_from(state, bytes) == Err::<
                    HeadersView,
                    ErrorView,
                >(ErrorView::InvalidHeader { header: lines[i].0, value: lines[i].1 })
            &&& all_acceptable(lines) && rest.len() > 0 && rest[0] == 0x48 && !rest.skip(1).contains(
                0x0a,
            ) ==> read_from(state, bytes) == Err::<HeadersView, ErrorView>(
                ErrorView::IncompleteHeaders,
            )
            &&& all_acceptable(lines) && !(rest.len() > 0 && rest[0] == 0x48 && !rest.skip(
                1,
            ).contains(0x0a)) ==> state_after(state, lines) is Some && read_from(state, bytes)
                == end_state(state_after(state, lines).unwrap(), rest)
        }),
    decreases bytes.len(),
{
    let lines = header_lines(bytes);
    let rest = behind_lines(bytes);
    refused_headers(bytes);
    if header_at(bytes) is Ok {
        let (name, value) = header_at(bytes)->Ok_0;
        let tail = after_header(bytes);
        headers_are_consumed(bytes);
        assert(lines == seq![(name, value)] + header_lines(tail));
        assert(lines[0] == (name, value));
        assert(lines.drop_first() =~= header_lines(tail));
        assert(next_state(state, name, value) is Some <==> acceptable(name, value)) by {
            reveal(next_state);
            acceptable_headers_are_taken_in(state, name, value);
        }
        if acceptable(name, value) {
            let next = next_state(state, name, value).unwrap();
            let later = header_lines(tail);
            read_ends_behind_lines(next, tail);
            assert forall|i: int|
                0 <= i < lines.len() && !acceptable((#[trigger] lines[i]).0, lines[i].1)
                    && all_acceptable(lines.take(i)) implies read_from(state, bytes) == Err::<
                HeadersView,
                ErrorView,
            >(ErrorView::InvalidHeader { header: lines[i].0, value: lines[i].1 }) by {
                assert(i > 0);
                assert(lines[i] == later[i - 1]);
                assert forall|j: int| 0 <= j < i - 1 implies acceptable(
                    (#[trigger] later.take(i - 1)[j]).0,
                    later.take(i - 1)[j].1,
                ) by {
                    assert(lines.take(i)[j + 1] == later[j]);
                }
                assert(all_acceptable(later.take(i - 1)));
            }
            if all_acceptable(lines) {
                assert forall|j: int| 0 <= j < later.len() implies acceptable(
                    (#[trigger] later[j]).0,
                    later[j].1,
                ) by {
                    assert(lines[j + 1] == later[j]);
                }
            }
        } else {
            assert forall|i: int|
                0 <= i < lines.len() && !acceptable((#[trigger] lines[i]).0, lines[i].1)
                    && all_acceptable(lines.take(i)) implies i == 0 by {
                if i > 0 {
                    assert(lines.take(i)[0] == lines[0]);
                }
            }
            assert(!all_acceptable(lines));
        }
    } else {
        assert(lines.len() == 0);
        assert(state_after(state, lines) == Some(state));
    }
}

/// The texts that lines leave behind, on top of those of a state.
pub open spec fn texts_are_last(
    start: StateView,
    lines: Seq<(Seq<char>, Seq<char>)>,
    end: StateView,
) -> bool {
    &&& end.firmware_revision == match last_of(lines, "Firmware revision"@, "Firmware revision"@) {
        Some(v) => Some(v),
        None => start.firmware_revision,
    }
    &&& end.firmware_date == match last_of(lines, "Firmware date"@, "Firmware date"@) {
        Some(v) => Some(v),
        None => start.firmware_date,
    }
    &&& end.board_info == match last_of(lines, "Board information"@, "Board info"@) {
        Some(v) => Some(v),
        None => start.board_info,
    }
    &&& end.craft_name == match last_of(lines, "Craft name"@, "Craft name"@) {
        Some(v) => Some(v),
        None => start.craft_name,
    }
    &&& forall|name: Seq<char>| #[trigger]
        end.unknown.contains_key(name) <==> start.unknown.contains_key(name) || (!has_meaning(name)
            && last_of(lines, name, name) is Some)
    &&& forall|name: Seq<char>| #[trigger]
        end.unknown.contains_key(name) ==> end.unknown[name] == match last_of(lines, name, name) {
            Some(v) => if has_meaning(name) {
                start.unknown[name]
            } else {
                v
            },
            None => start.unknown[name],
        }
}

/// The numbers that lines leave behind, on top of those of a state.
pub open spec fn numbers_are_last(
    start: StateView,
    lines: Seq<(Seq<char>, Seq<char>)>,
    end: StateView,
) -> bool {
    &&& end.debug_mode == match last_of(lines, "debug_mode"@, "debug_mode"@) {
        Some(v) => Some(number_header("debug_mode"@, v)),
        None => start.debug_mode,
    }
    &&& end.pwm_protocol == match last_of(lines, "motor_pwm_protocol"@, "motor_pwm_protocol"@) {
        Some(v) => Some(number_header("motor_pwm_protocol"@, v)),
        None => start.pwm_protocol,
    }
    &&& end.disabled_fields == match last_of(lines, "fields_disabled_mask"@, "fields_disabled_mask"@) {
        Some(v) => unsigned_value(v, 10, 4294967295).unwrap() as u32,
        None => start.disabled_fields,
    }
    &&& end.features == match last_of(lines, "features"@, "features"@) {
        Some(v) => feature_bits(v),
        None => start.features,
    }
    &&& end.vbat_reference == match last_of(lines, "vbatref"@, "vbatref"@) {
        Some(v) => Some(small_number(v)),
        None => start.vbat_reference,
    }
    &&& end.acceleration_1g == match last_of(lines, "acc_1G"@, "acc_1G"@) {
        Some(v) => Some(small_number(v)),
        None => start.acceleration_1g,
    }
    &&& end.min_throttle == match last_of(lines, "minthrottle"@, "minthrottle"@) {
        Some(v) => Some(small_number(v)),
        None => start.min_throttle,
    }
    &&& end.gyro_scale == match last_of(lines, "gyro.scale"@, "gyro_scale"@) {
        Some(v) => Some(scale_of(v).unwrap() as u32),
        None => start.gyro_scale,
    }
    &&& end.motor_output_range == match last_of(lines, "motorOutput"@, "motorOutput"@) {
        Some(v) => Some(output_range(v)),
        None => start.motor_output_range,
    }
}

/// The headers about one frame that lines leave behind, on top of those of a state.
pub open spec fn frame_is_last(
    start: BuilderView,
    lines: Seq<(Seq<char>, Seq<char>)>,
    kind: DataFrameKind,
    end: BuilderView,
) -> bool {
    &&& end.names == match last_frame_header(lines, kind, DefProperty::Name) {
        Some(v) => Some(v),
        None => start.names,
    }
    &&& end.signs == match last_frame_header(lines, kind, DefProperty::Signed) {
        Some(v) => Some(v),
        None => start.signs,
    }
    &&& end.predictors == match last_frame_header(lines, kind, DefProperty::Predictor) {
        Some(v) => Some(v),
        None => start.predictors,
    }
    &&& end.encodings == match last_frame_header(lines, kind, DefProperty::Encoding) {
        Some(v) => Some(v),
        None => start.encodings,
    }
}

/// The value of the last header about a property of a frame.
pub open spec fn last_frame_header(
    lines: Seq<(Seq<char>, Seq<char>)>,
    kind: DataFrameKind,
    property: DefProperty,
) -> Option<Seq<char>> {
    last_of(lines, frame_header_name(kind, property), frame_header_name(kind, property))
}

/// The headers about the frames that lines leave behind, on top of those of a state.
pub open spec fn frames_are_last(
    start: StateView,
    lines: Seq<(Seq<char>, Seq<char>)>,
    end: StateView,
) -> bool {
    &&& frame_is_last(start.main_frames.intra, lines, DataFrameKind::Intra, end.main_frames.intra)
    &&& frame_is_last(start.main_frames.inter, lines, DataFrameKind::Inter, end.main_frames.inter)
    &&& frame_is_last(start.slow_frames, lines, DataFrameKind::Slow, end.slow_frames)
    &&& frame_is_last(start.gps_frames, lines, DataFrameKind::Gps, end.gps_frames)
    &&& frame_is_last(
        start.gps_home_frames,
        lines,
        DataFrameKind::GpsHome,
        end.gps_home_frames,
    )
}

/// The headers seen are those of the last lines: each text is the value of the last line of its name,
/// and every line without a meaning is kept.
#[verifier::rlimit(50)]
pub proof fn last_lines_set_texts(start: StateView, lines: Seq<(Seq<char>, Seq<char>)>)
    ensures
        state_after(start, lines) matches Some(end) ==> texts_are_last(start, lines, end),
    decreases lines.len(),
{
    if lines.len() > 0 && state_after(start, lines) is Some {
        let (name, value) = lines[0];
        let rest = lines.drop_first();
        let next = next_state(start, name, value).unwrap();
        let end = state_after(start, lines).unwrap();
        last_lines_set_texts(next, rest);
        assert(texts_follow(start, next, name, value)) by {
            reveal(next_state);
            headers_set_texts(start, name, value);
        }
        assert forall|n: Seq<char>| #[trigger]
            end.unknown.contains_key(n) <==> start.unknown.contains_key(n) || (!has_meaning(n)
                && last_of(lines, n, n) is Some) by {
            assert(next.unknown.contains_key(n) <==> start.unknown.contains_key(n) || (
            !has_meaning(name) && n == name));
        }
    }
}

/// Each number is the value of the last line of its name.
#[verifier::rlimit(50)]
pub proof fn last_lines_set_numbers(start: StateView, lines: Seq<(Seq<char>, Seq<char>)>)
    ensures
        state_after(start, lines) matches Some(end) ==> numbers_are_last(start, lines, end),
    decreases lines.len(),
{
    if lines.len() > 0 && state_after(start, lines) is Some {
        let (name, value) = lines[0];
        let next = next_state(start, name, value).unwrap();
        last_lines_set_numbers(next, lines.drop_first());
        assert(numbers_follow(start, next, name, value)) by {
            reveal(next_state);
            headers_set_numbers(start, name, value);
        }
    }
}

/// Each property of a frame is the value of the last line of its name.
#[verifier::rlimit(50)]
pub proof fn last_lines_set_frames(start: StateView, lines: Seq<(Seq<char>, Seq<char>)>)
    ensures
        state_after(start, lines) matches Some(end) ==> frames_are_last(start, lines, end),
    decreases lines.len(),
{
    if lines.len() > 0 && state_after(start, lines) is Some {
        let (name, value) = lines[0];
        let next = next_state(start, name, value).unwrap();
        last_lines_set_frames(next, lines.drop_first());
        assert(frames_follow(start, next, name, value)) by {
            reveal(next_state);
            headers_set_frames(start, name, value);
        }
    }
}

/// What lines say of one frame.
pub open spec fn frame_said(
    lines: Seq<(Seq<char>, Seq<char>)>,
    kind: DataFrameKind,
) -> BuilderView {
    BuilderView {
        names: last_frame_header(lines, kind, DefProperty::Name),
        signs: last_frame_header(lines, kind, DefProperty::Signed),
        predictors: last_frame_header(lines, kind, DefProperty::Predictor),
        encodings: last_frame_header(lines, kind, DefProperty::Encoding),
    }
}

/// What lines say of the main frames.
pub open spec fn main_frames_said(lines: Seq<(Seq<char>, Seq<char>)>) -> MainBuilderView {
    MainBuilderView {
        intra: frame_said(lines, DataFrameKind::Intra),
        inter: frame_said(lines, DataFrameKind::Inter),
    }
}

/// The value of the last line of a name.
pub open spec fn last_value(lines: Seq<(Seq<char>, Seq<char>)>, name: Seq<char>) -> Option<Seq<char>> {
    last_of(lines, name, name)
}

/// A number of sixteen bits that may be missing.
pub open spec fn last_small_number(
    lines: Seq<(Seq<char>, Seq<char>)>,
    name: Seq<char>,
) -> Option<u16> {
    match last_value(lines, name) {
        Some(value) => Some(small_number(value)),
        None => None,
    }
}

/// What is left of a text without the white space around it, unless that is nothing.
pub open spec fn left_over(value: Option<Seq<char>>) -> Option<Seq<char>> {
    if value is None || trimmed(value.unwrap()) == Seq::<char>::empty() {
        None
    } else {
        Some(trimmed(value.unwrap()))
    }
}

/// Whether headers say what lines say: each getter gives the value of the last line of its name.
pub open spec fn says_texts(headers: HeadersView, lines: Seq<(Seq<char>, Seq<char>)>) -> bool {
    &&& last_value(lines, "Firmware revision"@) == Some(headers.firmware_revision)
    &&& firmware_of(headers.firmware_revision) == Ok::<Firmware, ErrorView>(headers.firmware)
    &&& headers.internal_firmware == InternalFirmware::release_of(headers.firmware)
    &&& headers.firmware_date == last_value(lines, "Firmware date"@)
    &&& headers.board_info == left_over(last_of(lines, "Board information"@, "Board info"@))
    &&& headers.craft_name == left_over(last_value(lines, "Craft name"@))
    &&& forall|name: Seq<char>| #[trigger]
        headers.unknown.contains_key(name) <==> !has_meaning(name) && last_value(lines, name) is Some
    &&& forall|name: Seq<char>| #[trigger]
        headers.unknown.contains_key(name) ==> Some(headers.unknown[name]) == last_value(lines, name)
    &&& headers.frame_intervals == intervals_of(headers.unknown)
}

/// Whether headers say what lines say of the numbers.
pub open spec fn says_numbers(headers: HeadersView, lines: Seq<(Seq<char>, Seq<char>)>) -> bool {
    let release = headers.internal_firmware;
    &&& headers.debug_mode == match last_value(lines, "debug_mode"@) {
        Some(value) => match debug_mode_name(number_header("debug_mode"@, value).value, release) {
            Some(name) => name,
            None => "NONE"@,
        },
        None => "NONE"@,
    }
    &&& headers.disabled_fields.firmware == release
    &&& headers.disabled_fields.raw == match last_value(lines, "fields_disabled_mask"@) {
        Some(value) => unsigned_value(value, 10, 4294967295).unwrap() as u32,
        None => 0,
    }
    &&& headers.features.firmware == release
    &&& headers.features.raw == match last_value(lines, "features"@) {
        Some(value) => feature_bits(value),
        None => 0,
    }
    &&& last_value(lines, "motor_pwm_protocol"@) matches Some(value) && pwm_protocol_name(
        number_header("motor_pwm_protocol"@, value).value,
        release,
    ) == Some(headers.pwm_protocol)
    &&& headers.vbat_reference == last_small_number(lines, "vbatref"@)
    &&& headers.acceleration_1g == last_small_number(lines, "acc_1G"@)
    &&& headers.min_throttle == last_small_number(lines, "minthrottle"@)
    &&& headers.gyro_scale == match last_of(lines, "gyro.scale"@, "gyro_scale"@) {
        Some(value) => Some(scale_of(value).unwrap() as u32),
        None => None,
    }
    &&& headers.motor_output_range == match last_value(lines, "motorOutput"@) {
        Some(value) => Some(output_range(value)),
        None => None,
    }
}

/// Whether headers say what lines say of the frames.
pub open spec fn says_frames(headers: HeadersView, lines: Seq<(Seq<char>, Seq<char>)>) -> bool {
    &&& main_frames_said(lines).fields() == Ok::<MainDefView, ErrorView>(headers.main_frame_def)
    &&& frame_said(lines, DataFrameKind::Slow).fields(DataFrameKind::Slow) == Ok::<
        Seq<FieldView>,
        ErrorView,
    >(headers.slow_frame_def)
    &&& frame_said(lines, DataFrameKind::Gps).optional_fields(DataFrameKind::Gps) == Ok::<
        Option<Seq<FieldView>>,
        ErrorView,
    >(headers.gps_frame_def)
    &&& frame_said(lines, DataFrameKind::GpsHome).optional_fields(DataFrameKind::GpsHome) == Ok::<
        Option<Seq<FieldView>>,
        ErrorView,
    >(headers.gps_home_frame_def)
}

/// Whether headers say what lines say, and what is left of the log is their data section.
pub open spec fn says(
    headers: HeadersView,
    lines: Seq<(Seq<char>, Seq<char>)>,
    data: Seq<u8>,
) -> bool {
    &&& headers.data == data
    &&& says_texts(headers, lines)
    &&& says_numbers(headers, lines)
    &&& says_frames(headers, lines)
}

/// The first thing that is wrong with lines that can all be taken in: a missing or unsupported
/// firmware, a frame that is not defined, a missing or unknown motor protocol.
pub open spec fn first_problem(lines: Seq<(Seq<char>, Seq<char>)>) -> Option<ErrorView> {
    if last_value(lines, "Firmware revision"@) is None {
        Some(ErrorView::MissingHeader)
    } else if firmware_of(last_value(lines, "Firmware revision"@).unwrap()) is Err {
        Some(firmware_of(last_value(lines, "Firmware revision"@).unwrap())->Err_0)
    } else if main_frames_said(lines).fields() is Err {
        Some(main_frames_said(lines).fields()->Err_0)
    } else if frame_said(lines, DataFrameKind::Slow).fields(DataFrameKind::Slow) is Err {
        Some(frame_said(lines, DataFrameKind::Slow).fields(DataFrameKind::Slow)->Err_0)
    } else if frame_said(lines, DataFrameKind::Gps).optional_fields(DataFrameKind::Gps) is Err {
        Some(frame_said(lines, DataFrameKind::Gps).optional_fields(DataFrameKind::Gps)->Err_0)
    } else if frame_said(lines, DataFrameKind::GpsHome).optional_fields(
        DataFrameKind::GpsHome,
    ) is Err {
        Some(
            frame_said(lines, DataFrameKind::GpsHome).optional_fields(
                DataFrameKind::GpsHome,
            )->Err_0,
        )
    } else if last_value(lines, "motor_pwm_protocol"@) is None {
        Some(ErrorView::MissingHeader)
    } else {
        let firmware = firmware_of(last_value(lines, "Firmware revision"@).unwrap())->Ok_0;
        let raw = last_value(lines, "motor_pwm_protocol"@).unwrap();
        if pwm_protocol_name(
            unsigned_value(raw, 10, 4294967295).unwrap() as u32,
            InternalFirmware::release_of(firmware),
        ) is None {
            Some(ErrorView::InvalidHeader { header: "motor_pwm_protocol"@, value: raw })
        } else {
            None
        }
    }
}

proof fn frames_said_are_last(lines: Seq<(Seq<char>, Seq<char>)>, end: StateView)
    requires
        frames_are_last(StateView::empty(), lines, end),
    ensures
        end.main_frames == main_frames_said(lines),
        end.slow_frames == frame_said(lines, DataFrameKind::Slow),
        end.gps_frames == frame_said(lines, DataFrameKind::Gps),
        end.gps_home_frames == frame_said(lines, DataFrameKind::GpsHome),
{
}

#[verifier::rlimit(50)]
proof fn collected_headers_say_lines(
    lines: Seq<(Seq<char>, Seq<char>)>,
    end: StateView,
    data: Seq<u8>,
)
    requires
        texts_are_last(StateView::empty(), lines, end),
        numbers_are_last(StateView::empty(), lines, end),
        frames_are_last(StateView::empty(), lines, end),
    ensures
        match first_problem(lines) {
            Some(e) => end.collected(data) == Err::<HeadersView, ErrorView>(e),
            None => end.collected(data) matches Ok(headers) && says(headers, lines, data),
        },
{
    frames_said_are_last(lines, end);
    assert(end.firmware_revision == last_value(lines, "Firmware revision"@));
    if end.collected(data) is Ok {
        let headers = end.collected(data)->Ok_0;
        assert(says_frames(headers, lines));
        assert(says_numbers(headers, lines));
        assert(says_texts(headers, lines)) by {
            assert(headers.unknown == end.unknown);
            match end.board_info {
                Some(v) => {
                    assert(trimmed(v).len() == 0 ==> trimmed(v) =~= Seq::<char>::empty());
                },
                None => {},
            }
            match end.craft_name {
                Some(v) => {
                    assert(trimmed(v).len() == 0 ==> trimmed(v) =~= Seq::<char>::empty());
                },
                None => {},
            }
        }
    }
}

/// What a log is read as, where it starts with the two lines that every log starts with. Let `lines`
/// be its headers. The first that cannot be taken in is refused. A log that ends in the middle of a
/// line is incomplete. Else the first problem of the lines is reported, and without any the headers
/// say what the lines say; only a frame with a field that they do not suffice for is refused.
#[verifier::rlimit(50)]
pub proof fn headers_say_what_lines_say(bytes: Seq<u8>) -> (headers: HeadersView)
    ensures
        ({
            let lines = header_lines(bytes);
            let rest = behind_lines(bytes);
            let result = headers_from(StateView::empty(), bytes);
            &&& forall|i: int|
                0 <= i < lines.len() && !acceptable((#[trigger] lines[i]).0, lines[i].1)
                    && all_acceptable(lines.take(i)) ==> result == Err::<HeadersView, ErrorView>(
                    ErrorView::InvalidHeader { header: lines[i].0, value: lines[i].1 },
                )
            &&& all_acceptable(lines) && rest.len() > 0 && rest[0] == 0x48 && !rest.skip(1).contains(
                0x0a,
            ) ==> result == Err::<HeadersView, ErrorView>(ErrorView::IncompleteHeaders)
            &&& all_acceptable(lines) && !(rest.len() > 0 && rest[0] == 0x48 && !rest.skip(
                1,
            ).contains(0x0a)) ==> match first_problem(lines) {
                Some(e) => result == Err::<HeadersView, ErrorView>(e),
                None => says(headers, lines, rest) && match headers.malformed_frame() {
                    Some(kind) => result == Err::<HeadersView, ErrorView>(
                        ErrorView::MalformedFrameDef(kind),
                    ),
                    None => result == Ok::<HeadersView, ErrorView>(headers),
                },
            }
        }),
{
    let lines = header_lines(bytes);
    let rest = behind_lines(bytes);
    let start = StateView::empty();
    headers_end_behind_lines(start, bytes);
    if all_acceptable(lines) {
        acceptable_lines(start, lines);
        let end = state_after(start, lines).unwrap();
        last_lines_set_texts(start, lines);
        last_lines_set_numbers(start, lines);
        last_lines_set_frames(start, lines);
        collected_headers_say_lines(lines, end, rest);
        reveal(end_state);
        end.collected(rest)->Ok_0
    } else {
        arbitrary()
    }
}

/// The headers of a log that is read say what its lines say.
pub proof fn parsed_headers_say_what_lines_say(bytes: Seq<u8>)
    ensures
        headers_of(bytes) matches Ok(headers) ==> says(
            headers,
            header_lines(after_line(after_line(bytes))),
            behind_lines(after_line(after_line(bytes))),
        ),
{
    if headers_of(bytes) is Ok {
        let start = after_line(after_line(bytes));
        let lines = header_lines(start);
        let headers = headers_say_what_lines_say(start);
        if !all_acceptable(lines) {
            first_unacceptable(lines);
        }
    }
}

proof fn first_unacceptable(lines: Seq<(Seq<char>, Seq<char>)>) -> (at: int)
    requires
        !all_acceptable(lines),
    ensures
        0 <= at < lines.len(),
        !acceptable(lines[at].0, lines[at].1),
        all_acceptable(lines.take(at)),
    decreases lines.len(),
{
    let shorter = lines.drop_last();
    if all_acceptable(shorter) {
        let at = lines.len() - 1;
        assert(lines.take(at) =~= shorter);
        let bad = choose|i: int|
            0 <= i < lines.len() && !acceptable((#[trigger] lines[i]).0, lines[i].1);
        if bad < at {
            assert(shorter[bad] == lines[bad]);
        }
        at
    } else {
        let at = first_unacceptable(shorter);
        assert(shorter.take(at) =~= lines.take(at));
        at
    }
}

} // verus!
