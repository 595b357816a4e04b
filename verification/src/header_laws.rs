//! What holds of the headers of every log.
use vstd::prelude::*;
use vstd::string::*;
use vstd::utf8::{
    char_is_scalar, decode_utf8, decode_utf8_encode_utf8, encode_scalar, encode_utf8,
    encode_utf8_decode_utf8, encode_utf8_valid_utf8, valid_utf8,
};

use crate::error::ErrorView;
use crate::firmware::InternalFirmware;
use crate::frame::{
    field_position, AvailableView, DataFrameKind, FieldView, Predictor, Unit,
};
use crate::headers::{
    after_header, after_line, header_at, headers_are_consumed, headers_from, headers_of,
    name_and_value, HeadersView,
};
use crate::intervals::intervals_of;
use crate::parser::InternalError;
use crate::reader::{line_length, line_length_is_first};
use crate::state::{RawView, StateView};
use crate::text::{after_prefix, split_once_at, split_once_at_first};
use crate::text_laws::{prefix_is_stripped, split_once_at_parts};

verus! {

/// A field found by its name is the first of that name.
pub proof fn field_position_is_first(fields: Seq<FieldView>, name: Seq<char>, from: nat)
    ensures
        match field_position(fields, name, from) {
            Some(i) => from <= i < fields.len() && fields[i as int].name == name && forall|j: int|
                from <= j < i ==> (#[trigger] fields[j]).name != name,
            None => forall|j: int| from <= j < fields.len() ==> (#[trigger] fields[j]).name != name,
        },
    decreases fields.len() - from,
{
    if from < fields.len() && fields[from as int].name != name {
        field_position_is_first(fields, name, from + 1);
    }
}

/// Whether the headers hold what the field at `index` needs: the calibration of the accelerometer
/// for an acceleration, and for each prediction the values that it starts from. The output of
/// another motor can only be predicted from that of the first motor behind the latter.
pub open spec fn field_is_readable(headers: HeadersView, field: FieldView, index: int) -> bool {
    &&& field.unit == Unit::Acceleration ==> headers.acceleration_1g is Some
    &&& field.predictor == Predictor::MinThrottle ==> headers.min_throttle is Some
    &&& field.predictor == Predictor::HomeLat || field.predictor == Predictor::HomeLon
        ==> headers.gps_home_frame_def is Some
    &&& field.predictor == Predictor::VBatReference ==> headers.vbat_reference is Some
    &&& field.predictor == Predictor::MinMotor ==> headers.motor_output_range is Some
    &&& field.predictor == Predictor::Motor0 ==> exists|motor: int|
        0 <= motor < index && motor < headers.main_frame_def.intra.len() && (
        #[trigger] headers.main_frame_def.intra[motor]).name == "motor[0]"@
}

/// Whether every field of a frame is readable.
pub open spec fn fields_are_readable(headers: HeadersView, fields: Seq<FieldView>) -> bool {
    forall|i: int| 0 <= i < fields.len() ==> field_is_readable(headers, #[trigger] fields[i], i)
}

proof fn sufficient_fields_are_readable(headers: HeadersView, fields: Seq<FieldView>)
    requires
        headers.available().suffices(fields),
    ensures
        fields_are_readable(headers, fields),
{
    field_position_is_first(headers.main_frame_def.intra, "motor[0]"@, 0);
    assert forall|i: int| 0 <= i < fields.len() implies field_is_readable(
        headers,
        #[trigger] fields[i],
        i,
    ) by {
        let available: AvailableView = headers.available();
        assert(available.predicts(fields[i].predictor, i as nat));
        if fields[i].predictor == Predictor::Motor0 {
            let motor = headers.main_frame_def.motor_0().unwrap();
            assert(headers.main_frame_def.intra[motor as int].name == "motor[0]"@);
        }
    }
}

/// The data section becomes part of the headers as it is.
#[verifier::rlimit(50)]
proof fn finished_keeps_data(state: StateView, data: Seq<u8>)
    ensures
        state.finished(data) matches Ok(headers) ==> headers.data == data,
{
}

/// The state after one more header.
#[verifier::opaque]
pub open spec fn next_state(state: StateView, name: Seq<char>, value: Seq<char>) -> Option<StateView> {
    state.updated(name, value)
}

/// The headers that a state ends in.
#[verifier::opaque]
pub open spec fn end_state(state: StateView, data: Seq<u8>) -> Result<HeadersView, ErrorView> {
    state.finished(data)
}

/// The headers that `bytes` starts with, on top of those seen before.
pub open spec fn read_from(state: StateView, bytes: Seq<u8>) -> Result<HeadersView, ErrorView>
    decreases bytes.len(),
{
    if bytes.len() == 0 || bytes[0] != 0x48 {
        end_state(state, bytes)
    } else {
        match header_at(bytes) {
            Err(InternalError::Retry) => end_state(state, bytes),
            Err(InternalError::Eof) => Err(ErrorView::IncompleteHeaders),
            Ok((name, value)) => match next_state(state, name, value) {
                None => Err(ErrorView::InvalidHeader { header: name, value }),
                Some(next) => {
                    proof {
                        headers_are_consumed(bytes);
                    }
                    read_from(next, after_header(bytes))
                },
            },
        }
    }
}

/// The headers are read one by one, each on top of those before it.
#[verifier::rlimit(60)]
pub proof fn headers_are_read_one_by_one(state: StateView, bytes: Seq<u8>)
    ensures
        headers_from(state, bytes) == read_from(state, bytes),
    decreases bytes.len(),
{
    if bytes.len() == 0 || bytes[0] != 0x48 {
        reveal(end_state);
    } else {
        match header_at(bytes) {
            Err(_) => {
                reveal(end_state);
            },
            Ok((name, value)) => {
                assert(next_state(state, name, value) == state.updated(name, value)) by {
                    reveal(next_state);
                }
                match next_state(state, name, value) {
                    Some(next) => {
                        headers_are_consumed(bytes);
                        headers_are_read_one_by_one(next, after_header(bytes));
                    },
                    None => {},
                }
            },
        }
    }
}

/// Where reading the headers succeeds, it ends in some state at some place of the log.
proof fn read_ends_somewhere(state: StateView, bytes: Seq<u8>) -> (end: (StateView, nat))
    requires
        read_from(state, bytes) is Ok,
    ensures
        end.1 <= bytes.len(),
        end_state(end.0, bytes.skip(end.1 as int)) == read_from(state, bytes),
        ({
            let data = bytes.skip(end.1 as int);
            data.len() == 0 || data[0] != 0x48 || header_at(data) == Err::<
                (Seq<char>, Seq<char>),
                InternalError,
            >(InternalError::Retry)
        }),
    decreases bytes.len(),
{
    assert(bytes.skip(0) =~= bytes);
    if bytes.len() == 0 || bytes[0] != 0x48 {
        (state, 0)
    } else {
        match header_at(bytes) {
            Err(_) => (state, 0),
            Ok((name, value)) => {
                let rest = after_header(bytes);
                headers_are_consumed(bytes);
                let next = next_state(state, name, value).unwrap();
                let (last, n) = read_ends_somewhere(next, rest);
                let m = (bytes.len() - rest.len()) as nat;
                line_length_is_first(bytes.skip(1));
                assert(rest =~= bytes.skip(m as int));
                assert(rest.skip(n as int) =~= bytes.skip((m + n) as int));
                (last, m + n)
            },
        }
    }
}

proof fn headers_end_somewhere(state: StateView, bytes: Seq<u8>) -> (end: (StateView, nat))
    requires
        headers_from(state, bytes) is Ok,
    ensures
        end.1 <= bytes.len(),
        end.0.finished(bytes.skip(end.1 as int)) == headers_from(state, bytes),
        ({
            let data = bytes.skip(end.1 as int);
            data.len() == 0 || data[0] != 0x48 || header_at(data) == Err::<
                (Seq<char>, Seq<char>),
                InternalError,
            >(InternalError::Retry)
        }),
{
    headers_are_read_one_by_one(state, bytes);
    let end = read_ends_somewhere(state, bytes);
    reveal(end_state);
    end
}

/// The headers of a log are complete: every field of every frame can be read with them, the
/// firmware is supported, and the numbers that tell which frames were written are at least one.
#[verifier::rlimit(50)]
pub proof fn parsed_headers_are_complete(bytes: Seq<u8>)
    ensures
        headers_of(bytes) matches Ok(headers) ==> {
            &&& fields_are_readable(headers, headers.main_frame_def.intra)
            &&& fields_are_readable(headers, headers.main_frame_def.inter)
            &&& fields_are_readable(headers, headers.slow_frame_def)
            &&& headers.gps_frame_def matches Some(def) ==> fields_are_readable(headers, def)
            &&& headers.gps_home_frame_def matches Some(def) ==> fields_are_readable(headers, def)
            &&& headers.firmware.is_supported()
            &&& headers.internal_firmware == InternalFirmware::release_of(headers.firmware)
            &&& headers.frame_intervals.0 >= 1
            &&& headers.frame_intervals.1 >= 1
            &&& headers.frame_intervals.2 >= 1
        },
{
    if headers_of(bytes) is Ok {
        let headers = headers_of(bytes)->Ok_0;
        let (state, _) = headers_end_somewhere(StateView::empty(), after_line(after_line(bytes)));
        assert(headers.malformed_frame() is None);
        sufficient_fields_are_readable(headers, headers.main_frame_def.intra);
        sufficient_fields_are_readable(headers, headers.main_frame_def.inter);
        sufficient_fields_are_readable(headers, headers.slow_frame_def);
        match headers.gps_frame_def {
            Some(def) => sufficient_fields_are_readable(headers, def),
            None => {},
        }
        match headers.gps_home_frame_def {
            Some(def) => sufficient_fields_are_readable(headers, def),
            None => {},
        }
        assert(headers.frame_intervals == intervals_of(state.unknown));
    }
}

/// What is left of a log behind its headers is its data section: the end of the log, from a byte on
/// that starts no header.
pub proof fn data_section_follows_headers(bytes: Seq<u8>) -> (start: nat)
    requires
        headers_of(bytes) is Ok,
    ensures
        start <= bytes.len(),
        headers_of(bytes)->Ok_0.data == bytes.skip(start as int),
        ({
            let data = bytes.skip(start as int);
            data.len() == 0 || data[0] != 0x48 || header_at(data) == Err::<
                (Seq<char>, Seq<char>),
                InternalError,
            >(InternalError::Retry)
        }),
{
    let first = after_line(bytes);
    let rest = after_line(first);
    line_length_is_first(bytes);
    line_length_is_first(first);
    let (state, n) = headers_end_somewhere(StateView::empty(), rest);
    finished_keeps_data(state, rest.skip(n as int));
    let m = (bytes.len() - rest.len()) as nat;
    assert(first =~= bytes.skip(bytes.len() - first.len()));
    assert(rest =~= bytes.skip(m as int));
    assert(rest.skip(n as int) =~= bytes.skip((m + n) as int));
    m + n
}

/// A line that is complete stays the same whatever is appended.
proof fn line_stays(bytes: Seq<u8>, tail: Seq<u8>)
    requires
        line_length(bytes) is Some,
    ensures
        line_length(bytes + tail) == line_length(bytes),
        (bytes + tail).take(line_length(bytes).unwrap() as int) == bytes.take(
            line_length(bytes).unwrap() as int,
        ),
        after_line(bytes + tail) == after_line(bytes) + tail,
{
    let n = line_length(bytes).unwrap();
    line_length_is_first(bytes);
    line_length_is_first(bytes + tail);
    assert((bytes + tail)[n as int] == bytes[n as int]);
    match line_length(bytes + tail) {
        Some(m) => {
            if m < n {
                assert((bytes + tail)[m as int] == bytes[m as int]);
            }
            assert(m == n);
        },
        None => {},
    }
    assert((bytes + tail).take(n as int) =~= bytes.take(n as int));
    assert((bytes + tail).skip(n as int + 1) =~= bytes.skip(n as int + 1) + tail);
}

/// A header that is complete, or a line that is none, stays so whatever is appended.
proof fn header_stays(bytes: Seq<u8>, tail: Seq<u8>)
    requires
        bytes.len() > 0,
        bytes[0] == 0x48,
        header_at(bytes) != Err::<(Seq<char>, Seq<char>), InternalError>(InternalError::Eof),
    ensures
        header_at(bytes + tail) == header_at(bytes),
        after_header(bytes + tail) == after_header(bytes) + tail,
{
    assert((bytes + tail).skip(1) =~= bytes.skip(1) + tail);
    line_stays(bytes.skip(1), tail);
}

#[verifier::rlimit(50)]
proof fn headers_stay_from(state: StateView, bytes: Seq<u8>, tail: Seq<u8>)
    requires
        headers_from(state, bytes) is Ok,
        headers_from(state, bytes)->Ok_0.data.len() > 0,
    ensures
        headers_from(state, bytes + tail) == Ok::<HeadersView, ErrorView>(
            HeadersView {
                data: headers_from(state, bytes)->Ok_0.data + tail,
                ..headers_from(state, bytes)->Ok_0
            },
        ),
    decreases bytes.len(),
{
    let longer = bytes + tail;
    if bytes.len() == 0 {
    } else if bytes[0] != 0x48 {
    } else {
        header_stays(bytes, tail);
        match header_at(bytes) {
            Err(_) => {},
            Ok((name, value)) => {
                headers_are_consumed(bytes);
                headers_stay_from(
                    state.updated(name, value).unwrap(),
                    after_header(bytes),
                    tail,
                );
            },
        }
    }
}

/// The headers of a log do not depend on its data section: where it is not empty, anything can be
/// appended to it.
pub proof fn headers_do_not_depend_on_data(bytes: Seq<u8>, tail: Seq<u8>)
    requires
        headers_of(bytes) matches Ok(headers) && headers.data.len() > 0,
    ensures
        headers_of(bytes + tail) == Ok::<HeadersView, ErrorView>(
            HeadersView {
                data: headers_of(bytes)->Ok_0.data + tail,
                ..headers_of(bytes)->Ok_0
            },
        ),
{
    let first = after_line(bytes);
    assert(line_length(bytes) is Some || first == bytes);
    line_stays(first, tail);
    if line_length(bytes) is Some {
        line_stays(bytes, tail);
    }
    headers_stay_from(StateView::empty(), after_line(first), tail);
}

/// No debug mode costs the whole log: whatever the `debug_mode` header says, the other headers are
/// read as they would be without it.
#[verifier::rlimit(50)]
pub proof fn debug_mode_fails_no_log(state: StateView, mode: Option<RawView<u32>>, data: Seq<u8>)
    ensures
        ({
            let other = StateView { debug_mode: mode, ..state };
            match state.finished(data) {
                Ok(headers) => other.finished(data) matches Ok(changed) && changed == (
                HeadersView { debug_mode: changed.debug_mode, ..headers }),
                Err(e) => other.finished(data) == Err::<HeadersView, ErrorView>(e),
            }
        }),
{
}

/// Of two headers of one name the later one counts.
#[verifier::rlimit(50)]
pub proof fn last_header_counts(
    state: StateView,
    name: Seq<char>,
    earlier: Seq<char>,
    later: Seq<char>,
)
    requires
        state.updated(name, earlier) is Some,
    ensures
        state.updated(name, earlier).unwrap().updated(name, later) == state.updated(name, later),
{
    if name == "Firmware revision"@ {
    } else if name == "Firmware date"@ {
    } else if name == "Firmware type"@ {
    } else if name == "Board information"@ || name == "Board info"@ {
    } else if name == "Craft name"@ {
    } else if name == "debug_mode"@ {
    } else if name == "fields_disabled_mask"@ {
    } else if name == "features"@ {
    } else if name == "motor_pwm_protocol"@ {
    } else if name == "vbatref"@ {
    } else if name == "acc_1G"@ {
    } else if name == "gyro.scale"@ || name == "gyro_scale"@ {
    } else if name == "minthrottle"@ {
    } else if name == "motorOutput"@ {
    } else {
        assert(state.unknown.insert(name, earlier).insert(name, later) =~= state.unknown.insert(
            name,
            later,
        ));
    }
}

/// The line that writes a header.
pub open spec fn header_line(name: Seq<char>, value: Seq<char>) -> Seq<u8> {
    seq![0x48u8] + encode_utf8(" "@ + name + ":"@ + value) + seq![0x0au8]
}

proof fn no_line_feed_in_scalar(c: char)
    requires
        c != '\n',
    ensures
        forall|i: int|
            0 <= i < encode_scalar(c as u32).len() ==> #[trigger] encode_scalar(c as u32)[i] != 0x0a,
{
    let s = c as u32;
    char_is_scalar(c);
    assert(s <= 0x7f && s != 0x0a ==> (s & 0x7f) as u8 != 0x0a) by (bit_vector);
    assert(0xC0u8 | ((s >> 6) & 0x1F) as u8 >= 0x80) by (bit_vector);
    assert(0xE0u8 | ((s >> 12) & 0x0F) as u8 >= 0x80) by (bit_vector);
    assert(0xF0u8 | ((s >> 18) & 0x7) as u8 >= 0x80) by (bit_vector);
    assert(0x80u8 | (s & 0x3F) as u8 >= 0x80) by (bit_vector);
    assert(0x80u8 | ((s >> 6) & 0x3F) as u8 >= 0x80) by (bit_vector);
    assert(0x80u8 | ((s >> 12) & 0x3F) as u8 >= 0x80) by (bit_vector);
}

proof fn no_line_feed(chars: Seq<char>)
    requires
        !chars.contains('\n'),
    ensures
        !encode_utf8(chars).contains(0x0a),
    decreases chars.len(),
{
    if chars.len() > 0 {
        let first = encode_scalar(chars[0] as u32);
        let rest = chars.drop_first();
        assert forall|i: int| 0 <= i < rest.len() implies rest[i] != '\n' by {
            assert(rest[i] == chars[i + 1]);
        }
        no_line_feed(rest);
        assert(chars.contains(chars[0]));
        no_line_feed_in_scalar(chars[0]);
        let bytes = first + encode_utf8(rest);
        assert forall|i: int| 0 <= i < bytes.len() implies bytes[i] != 0x0a by {
            if i < first.len() {
                assert(bytes[i] == first[i]);
            } else {
                assert(bytes[i] == encode_utf8(rest)[i - first.len()]);
            }
        }
    }
}

/// A header that was written is read back, whatever follows it.
pub proof fn header_reads_back(name: Seq<char>, value: Seq<char>, rest: Seq<u8>)
    requires
        !name.contains(':'),
        !name.contains('\n'),
        !value.contains('\n'),
    ensures
        header_at(header_line(name, value) + rest) == Ok::<(Seq<char>, Seq<char>), InternalError>(
            (name, value),
        ),
        after_header(header_line(name, value) + rest) == rest,
{
    reveal_strlit(" ");
    reveal_strlit(":");
    let text = " "@ + name + ":"@ + value;
    let line = encode_utf8(text);
    let bytes = header_line(name, value) + rest;
    let tail = bytes.skip(1);
    assert forall|i: int| 0 <= i < text.len() implies text[i] != '\n' by {
        if 1 <= i < 1 + name.len() {
            assert(text[i] == name[i - 1]);
        } else if i >= 2 + name.len() {
            assert(text[i] == value[i - 2 - name.len()]);
        }
    }
    no_line_feed(text);
    assert(tail =~= line + seq![0x0au8] + rest);
    line_length_is_first(tail);
    assert(tail[line.len() as int] == 0x0a);
    assert(line_length(tail) == Some(line.len())) by {
        match line_length(tail) {
            Some(n) => {
                if n < line.len() {
                    assert(line.contains(line[n as int]));
                }
            },
            None => {},
        }
    }
    assert(tail.take(line.len() as int) =~= line);
    assert(tail.skip(line.len() as int + 1) =~= rest);
    encode_utf8_valid_utf8(text);
    encode_utf8_decode_utf8(text);
    assert(text.take(1) =~= " "@);
    assert(text.skip(1) =~= name.push(':') + value);
    assert forall|i: int| 0 <= i < name.len() implies name[i] != ':' by {
        assert(name.contains(name[i]));
    }
    split_once_at_first(name, value, ':');
}

/// A header that was written takes effect: where its value can be read, the rest of the log is read
/// on top of it, else it is the one that is refused.
pub proof fn written_header_takes_effect(
    state: StateView,
    name: Seq<char>,
    value: Seq<char>,
    rest: Seq<u8>,
)
    requires
        !name.contains(':'),
        !name.contains('\n'),
        !value.contains('\n'),
    ensures
        headers_from(state, header_line(name, value) + rest) == match state.updated(name, value) {
            Some(next) => headers_from(next, rest),
            None => Err(ErrorView::InvalidHeader { header: name, value }),
        },
{
    header_reads_back(name, value, rest);
}

proof fn readable_fields_are_sufficient(headers: HeadersView, fields: Seq<FieldView>)
    requires
        fields_are_readable(headers, fields),
    ensures
        headers.available().suffices(fields),
{
    let available: AvailableView = headers.available();
    field_position_is_first(headers.main_frame_def.intra, "motor[0]"@, 0);
    assert forall|i: int| 0 <= i < fields.len() implies available.predicts(
        (#[trigger] fields[i]).predictor,
        i as nat,
    ) && available.measures(fields[i].unit) by {
        assert(field_is_readable(headers, fields[i], i));
        if fields[i].predictor == Predictor::Motor0 {
            let motor = choose|motor: int|
                0 <= motor < i && motor < headers.main_frame_def.intra.len() && (
                #[trigger] headers.main_frame_def.intra[motor]).name == "motor[0]"@;
            let first = headers.main_frame_def.motor_0().unwrap();
            assert(first <= motor);
        }
    }
}

/// The fields of a frame.
pub open spec fn fields_of_frame(headers: HeadersView, kind: DataFrameKind) -> Seq<FieldView> {
    match kind {
        DataFrameKind::Intra => headers.main_frame_def.intra,
        DataFrameKind::Inter => headers.main_frame_def.inter,
        DataFrameKind::Slow => headers.slow_frame_def,
        DataFrameKind::Gps => match headers.gps_frame_def {
            Some(def) => def,
            None => Seq::empty(),
        },
        DataFrameKind::GpsHome => match headers.gps_home_frame_def {
            Some(def) => def,
            None => Seq::empty(),
        },
    }
}

/// A frame is refused only for a field that cannot be read: the frame that is reported has one, and
/// none is reported where every field of every frame can be read. Of several such frames the first
/// one is reported, in the order of intra, inter, slow, GPS and GPS home.
pub proof fn only_unreadable_frames_are_refused(headers: HeadersView)
    ensures
        headers.malformed_frame() is None <==> {
            &&& fields_are_readable(headers, headers.main_frame_def.intra)
            &&& fields_are_readable(headers, headers.main_frame_def.inter)
            &&& fields_are_readable(headers, headers.slow_frame_def)
            &&& headers.gps_frame_def matches Some(def) ==> fields_are_readable(headers, def)
            &&& headers.gps_home_frame_def matches Some(def) ==> fields_are_readable(headers, def)
        },
        headers.malformed_frame() matches Some(kind) ==> !fields_are_readable(
            headers,
            fields_of_frame(headers, kind),
        ),
        headers.malformed_frame() == Some(DataFrameKind::Intra) <==> !fields_are_readable(
            headers,
            headers.main_frame_def.intra,
        ),
        headers.malformed_frame() == Some(DataFrameKind::Inter) ==> fields_are_readable(
            headers,
            headers.main_frame_def.intra,
        ),
        headers.malformed_frame() == Some(DataFrameKind::Slow) ==> fields_are_readable(
            headers,
            headers.main_frame_def.intra,
        ) && fields_are_readable(headers, headers.main_frame_def.inter),
        headers.malformed_frame() == Some(DataFrameKind::Gps) ==> fields_are_readable(
            headers,
            headers.main_frame_def.intra,
        ) && fields_are_readable(headers, headers.main_frame_def.inter) && fields_are_readable(
            headers,
            headers.slow_frame_def,
        ),
        headers.malformed_frame() == Some(DataFrameKind::GpsHome) ==> fields_are_readable(
            headers,
            headers.main_frame_def.intra,
        ) && fields_are_readable(headers, headers.main_frame_def.inter) && fields_are_readable(
            headers,
            headers.slow_frame_def,
        ) && (headers.gps_frame_def matches Some(def) ==> fields_are_readable(headers, def)),
{
    readable_is_sufficient(headers, headers.main_frame_def.intra);
    readable_is_sufficient(headers, headers.main_frame_def.inter);
    readable_is_sufficient(headers, headers.slow_frame_def);
    readable_is_sufficient(headers, fields_of_frame(headers, DataFrameKind::Gps));
    readable_is_sufficient(headers, fields_of_frame(headers, DataFrameKind::GpsHome));
}

proof fn readable_is_sufficient(headers: HeadersView, fields: Seq<FieldView>)
    ensures
        headers.available().suffices(fields) <==> fields_are_readable(headers, fields),
{
    if headers.available().suffices(fields) {
        sufficient_fields_are_readable(headers, fields);
    }
    if fields_are_readable(headers, fields) {
        readable_fields_are_sufficient(headers, fields);
    }
}

/// A header that was read is what the line writes, with or without a space before the name.
#[verifier::rlimit(50)]
pub proof fn read_header_was_written(bytes: Seq<u8>) -> (line: Seq<char>)
    requires
        header_at(bytes) is Ok,
    ensures
        ({
            let (name, value) = header_at(bytes)->Ok_0;
            &&& !name.contains(':')
            &&& !line.contains('\n')
            &&& line == name.push(':') + value || line == seq![' '] + name.push(':') + value
            &&& bytes == seq![0x48u8] + encode_utf8(line) + seq![0x0au8] + after_header(bytes)
        }),
{
    reveal_strlit(" ");
    let tail = bytes.skip(1);
    line_length_is_first(tail);
    let n = line_length(tail).unwrap();
    let raw = tail.take(n as int);
    let line = decode_utf8(raw);
    decode_utf8_encode_utf8(raw);
    assert(encode_utf8(line) == raw);
    prefix_is_stripped(line, " "@);
    let text = match after_prefix(line, " "@) {
        Some(rest) => rest,
        None => line,
    };
    split_once_at_parts(text, ':');
    let (name, value) = header_at(bytes)->Ok_0;
    assert(text == name.push(':') + value);
    assert(" "@ =~= seq![' ']);
    assert(seq![' '] + (name.push(':') + value) =~= seq![' '] + name.push(':') + value);
    assert(bytes =~= seq![0x48u8] + raw + seq![0x0au8] + after_header(bytes));
    if line.contains('\n') {
        let i = choose|i: int| 0 <= i < line.len() && line[i] == '\n';
        line_feed_is_kept(line, i);
        let j = choose|j: int| 0 <= j < raw.len() && raw[j] == 0x0a;
        assert(tail[j] == 0x0a);
    }
    line
}

proof fn line_feed_is_kept(chars: Seq<char>, i: int)
    requires
        0 <= i < chars.len(),
        chars[i] == '\n',
    ensures
        encode_utf8(chars).contains(0x0a),
    decreases chars.len(),
{
    let first = encode_scalar(chars[0] as u32);
    let rest = encode_utf8(chars.drop_first());
    let bytes = encode_utf8(chars);
    assert(bytes == first + rest);
    if i == 0 {
        assert(0x0au32 & 0x7f == 0x0a) by (bit_vector);
        assert(first[0] == 0x0a);
        assert(bytes[0] == 0x0a);
    } else {
        line_feed_is_kept(chars.drop_first(), i - 1);
        let j = choose|j: int| 0 <= j < rest.len() && rest[j] == 0x0a;
        assert(bytes[first.len() + j] == 0x0a);
    }
}

/// A header without a space before its name is read back too, whatever follows it.
pub proof fn header_without_space_reads_back(name: Seq<char>, value: Seq<char>, rest: Seq<u8>)
    requires
        !name.contains(':'),
        !name.contains('\n'),
        !value.contains('\n'),
        name.len() > 0 ==> name[0] != ' ',
    ensures
        header_at(
            seq![0x48u8] + encode_utf8(name.push(':') + value) + seq![0x0au8] + rest,
        ) == Ok::<(Seq<char>, Seq<char>), InternalError>((name, value)),
        after_header(seq![0x48u8] + encode_utf8(name.push(':') + value) + seq![0x0au8] + rest)
            == rest,
{
    let text = name.push(':') + value;
    assert forall|i: int| 0 <= i < text.len() implies text[i] != '\n' by {
        if i < name.len() {
            assert(text[i] == name[i]);
        } else if i > name.len() {
            assert(text[i] == value[i - 1 - name.len()]);
        }
    }
    lines_are_read(text, rest);
    reveal_strlit(" ");
    assert(" "@ =~= seq![' ']);
    assert(text.take(1)[0] == text[0]);
    assert(after_prefix(text, " "@) is None);
    assert forall|i: int| 0 <= i < name.len() implies name[i] != ':' by {
        assert(name.contains(name[i]));
    }
    split_once_at_first(name, value, ':');
}

/// A line of text is read whole. Without a colon it is no header.
#[verifier::rlimit(50)]
pub proof fn lines_are_read(text: Seq<char>, rest: Seq<u8>)
    requires
        !text.contains('\n'),
    ensures
        ({
            let bytes = seq![0x48u8] + encode_utf8(text) + seq![0x0au8] + rest;
            &&& after_header(bytes) == rest
            &&& header_at(bytes) == match name_and_value(text) {
                Some(header) => Ok::<(Seq<char>, Seq<char>), InternalError>(header),
                None => Err(InternalError::Retry),
            }
            &&& name_and_value(text) is None <==> !text.contains(':')
        }),
{
    let line = encode_utf8(text);
    let bytes = seq![0x48u8] + line + seq![0x0au8] + rest;
    let tail = bytes.skip(1);
    no_line_feed(text);
    assert(tail =~= line + seq![0x0au8] + rest);
    line_length_is_first(tail);
    assert(tail[line.len() as int] == 0x0a);
    assert(line_length(tail) == Some(line.len())) by {
        match line_length(tail) {
            Some(n) => {
                if n < line.len() {
                    assert(line.contains(line[n as int]));
                }
            },
            None => {},
        }
    }
    assert(tail.take(line.len() as int) =~= line);
    assert(tail.skip(line.len() as int + 1) =~= rest);
    encode_utf8_valid_utf8(text);
    encode_utf8_decode_utf8(text);
    reveal_strlit(" ");
    prefix_is_stripped(text, " "@);
    let inner = match after_prefix(text, " "@) {
        Some(inner) => inner,
        None => text,
    };
    split_once_at_parts(inner, ':');
    if text.contains(':') {
        let i = choose|i: int| 0 <= i < text.len() && text[i] == ':';
        if inner != text {
            assert(text[i] == (" "@ + inner)[i]);
            assert(inner[i - 1] == ':');
        }
        assert(inner.contains(':'));
    }
    match split_once_at(inner, ':') {
        Some((a, b)) => {
            assert(inner[a.len() as int] == ':');
            if inner != text {
                assert(text[a.len() as int + 1] == ':');
            }
        },
        None => {},
    }
}

/// When a header is refused: the log ends before a line feed, or the line is none. A line is none that
/// does not start with an `H`, is not valid UTF-8, or has no colon.
#[verifier::rlimit(50)]
pub proof fn refused_headers(bytes: Seq<u8>)
    ensures
        header_at(bytes) == Err::<(Seq<char>, Seq<char>), InternalError>(InternalError::Eof)
            <==> bytes.len() == 0 || (bytes[0] == 0x48 && !bytes.skip(1).contains(0x0a)),
        bytes.len() > 0 && bytes[0] != 0x48 ==> header_at(bytes) == Err::<
            (Seq<char>, Seq<char>),
            InternalError,
        >(InternalError::Retry) && after_header(bytes) == bytes.skip(1),
        forall|line: Seq<u8>, rest: Seq<u8>|
            bytes == #[trigger] (seq![0x48u8] + line + seq![0x0au8] + rest) && !line.contains(0x0a)
                && !valid_utf8(line) ==> header_at(bytes) == Err::<
                (Seq<char>, Seq<char>),
                InternalError,
            >(InternalError::Retry) && after_header(bytes) == rest,
{
    if bytes.len() > 0 {
        let tail = bytes.skip(1);
        line_length_is_first(tail);
        match line_length(tail) {
            Some(n) => {
                assert(tail[n as int] == 0x0a);
            },
            None => {},
        }
        assert forall|line: Seq<u8>, rest: Seq<u8>|
            bytes == #[trigger] (seq![0x48u8] + line + seq![0x0au8] + rest) && !line.contains(0x0a)
                && !valid_utf8(line) implies header_at(bytes) == Err::<
            (Seq<char>, Seq<char>),
            InternalError,
        >(InternalError::Retry) && after_header(bytes) == rest by {
            assert(tail =~= line + seq![0x0au8] + rest);
            assert(tail[line.len() as int] == 0x0a);
            let n = line_length(tail).unwrap();
            if n < line.len() {
                assert(line.contains(line[n as int]));
            }
            assert(n == line.len());
            assert(tail.take(n as int) =~= line);
            assert(tail.skip(n as int + 1) =~= rest);
        }
    }
}

/// A log starts with any line, then the line `H Data version:2`, then the headers. Any other start is
/// refused.
#[verifier::rlimit(50)]
pub proof fn logs_start_with_two_lines(bytes: Seq<u8>)
    ensures
        forall|product: Seq<u8>, rest: Seq<u8>|
            bytes == #[trigger] (product + seq![0x0au8] + encode_utf8("H Data version:2"@)
                + seq![0x0au8] + rest) && !product.contains(0x0a) ==> headers_of(bytes)
                == headers_from(StateView::empty(), rest),
        headers_of(bytes) != Err::<HeadersView, ErrorView>(ErrorView::UnsupportedDataVersion)
            ==> exists|product: Seq<u8>, rest: Seq<u8>|
            bytes == #[trigger] (product + encode_utf8("H Data version:2"@) + seq![0x0au8] + rest)
                && (product.len() == 0 || (product.last() == 0x0a && !product.drop_last().contains(
                0x0a,
            ))),
{
    let version = encode_utf8("H Data version:2"@);
    reveal_strlit("H Data version:2");
    no_line_feed("H Data version:2"@);
    assert forall|product: Seq<u8>, rest: Seq<u8>|
        bytes == #[trigger] (product + seq![0x0au8] + encode_utf8("H Data version:2"@)
            + seq![0x0au8] + rest) && !product.contains(0x0a) implies headers_of(bytes)
        == headers_from(StateView::empty(), rest) by {
        let second = version + seq![0x0au8] + rest;
        assert(bytes =~= product + seq![0x0au8] + second);
        first_line(product, second);
        first_line(version, rest);
    }
    if headers_of(bytes) != Err::<HeadersView, ErrorView>(ErrorView::UnsupportedDataVersion) {
        let second = after_line(bytes);
        let rest = after_line(second);
        line_length_is_first(bytes);
        line_length_is_first(second);
        let n = line_length(second).unwrap();
        assert(second =~= version + seq![0x0au8] + rest);
        match line_length(bytes) {
            Some(m) => {
                let product = bytes.take(m as int + 1);
                assert(product.last() == 0x0a);
                assert(bytes =~= product + version + seq![0x0au8] + rest);
            },
            None => {
                let product = Seq::<u8>::empty();
                assert(bytes =~= product + version + seq![0x0au8] + rest);
            },
        }
    }
}

proof fn first_line(line: Seq<u8>, rest: Seq<u8>)
    requires
        !line.contains(0x0a),
    ensures
        ({
            let bytes = line + seq![0x0au8] + rest;
            &&& line_length(bytes) == Some(line.len())
            &&& bytes.take(line.len() as int) == line
            &&& after_line(bytes) == rest
        }),
{
    let bytes = line + seq![0x0au8] + rest;
    line_length_is_first(bytes);
    assert(bytes[line.len() as int] == 0x0a);
    match line_length(bytes) {
        Some(n) => {
            if n < line.len() {
                assert(line.contains(line[n as int]));
            }
        },
        None => {},
    }
    assert(bytes.take(line.len() as int) =~= line);
    assert(bytes.skip(line.len() as int + 1) =~= rest);
}

} // verus!
