//! Values and what is said of them.
use vstd::prelude::*;
use vstd::string::*;

use crate::data::{kept_names, FieldFilter, FilterSet, FilterView};
use crate::date::{is_date_or_text, DateTime};
use crate::error::{ErrorView, ParseError};
use crate::flight_mode::FlightMode;
use crate::frame::{
    Available, DataFrameKind, FieldDef, FrameDef, FrameDefBuilder, MainFrameDef,
    MainFrameDefBuilder,
};
use crate::state::{RawHeaderValue, State};
use crate::tables::{DebugMode, PwmProtocol};
use crate::text::{optional_text, texts};
use crate::units::Flag;

verus! {

/// A field says what it holds.
pub proof fn fields_say_what_they_hold(field: FieldDef)
    ensures
        field@.name == field.name@,
        field@.signed == field.signed,
        field@.predictor == field.predictor,
        field@.encoding == field.encoding,
        field@.unit == field.unit,
{
}

/// A definition says what its fields say, in their order.
pub proof fn definitions_say_what_fields_say(def: FrameDef, main: MainFrameDef)
    ensures
        def@.len() == def.fields@.len(),
        forall|i: int| 0 <= i < def@.len() ==> #[trigger] def@[i] == def.fields@[i]@,
        main@.intra == main.intra@,
        main@.inter == main.inter@,
{
}

/// A text that may be absent says what it holds, and so does each text of a list.
pub proof fn texts_say_what_they_hold(s: &str, list: Seq<&str>)
    ensures
        optional_text(Some(s)) == Some(s@),
        optional_text(None) is None,
        texts(list).len() == list.len(),
        forall|i: int| 0 <= i < list.len() ==> #[trigger] texts(list)[i] == list[i]@,
{
}

/// What was collected of frames says what it holds.
pub proof fn builders_say_what_they_hold(builder: FrameDefBuilder, main: MainFrameDefBuilder)
    ensures
        builder@.names == optional_text(builder.names),
        builder@.signs == optional_text(builder.signs),
        builder@.predictors == optional_text(builder.predictors),
        builder@.encodings == optional_text(builder.encodings),
        main@.intra == main.intra@,
        main@.inter == main.inter@,
{
}

/// A state says what it holds.
pub proof fn states_say_what_they_hold(state: State, raw: RawHeaderValue<u32>)
    ensures
        state@.vbat_reference == state.vbat_reference,
        state@.acceleration_1g == state.acceleration_1g,
        state@.gyro_scale == state.gyro_scale,
        state@.min_throttle == state.min_throttle,
        state@.motor_output_range == state.motor_output_range,
        state@.disabled_fields == state.disabled_fields,
        state@.features == state.features,
        state@.firmware_revision == optional_text(state.firmware_revision),
        state@.firmware_date == optional_text(state.firmware_date),
        state@.firmware_kind == optional_text(state.firmware_kind),
        state@.board_info == optional_text(state.board_info),
        state@.craft_name == optional_text(state.craft_name),
        state@.unknown == state.unknown@,
        raw@.header == raw.header@,
        raw@.raw == raw.raw@,
        raw@.value == raw.value,
{
}

/// What is available says what it holds.
pub proof fn available_says_what_it_holds(available: Available)
    ensures
        available@.acceleration_1g == available.acceleration_1g,
        available@.min_throttle == available.min_throttle,
        available@.motor_0 is Some <==> available.motor_0 is Some,
        available.motor_0 matches Some(i) ==> available@.motor_0 == Some(i as nat),
        available@.vbat_reference == available.vbat_reference,
        available@.motor_output_range == available.motor_output_range,
        available@.gps_home == available.gps_home,
{
}

/// An error says which it is and what it is about.
pub proof fn errors_say_what_they_are(error: ParseError)
    ensures
        error is UnsupportedDataVersion <==> error@ is UnsupportedDataVersion,
        error is MissingHeader <==> error@ is MissingHeader,
        error is IncompleteHeaders <==> error@ is IncompleteHeaders,
        error matches ParseError::InvalidFirmware(text) ==> error@ == ErrorView::InvalidFirmware(
            text@,
        ),
        error matches ParseError::UnsupportedFirmwareVersion(firmware) ==> error@
            == ErrorView::UnsupportedFirmwareVersion(firmware),
        error matches ParseError::InvalidHeader { header, value } ==> error@ == (
        ErrorView::InvalidHeader { header: header@, value: value@ }),
        error matches ParseError::MissingField { frame, field } ==> error@ == (
        ErrorView::MissingField { frame, field: field@ }),
        error matches ParseError::MalformedFrameDef(frame) ==> error@
            == ErrorView::MalformedFrameDef(frame),
{
}

/// A flag of any kind goes by its own name.
pub proof fn flags_go_by_their_names(debug: DebugMode, protocol: PwmProtocol, mode: FlightMode)
    ensures
        debug.flag_name() == debug@,
        protocol.flag_name() == protocol@,
        mode.flag_name() == mode@,
{
}

/// No two kinds of frames share a name.
pub proof fn frames_have_names_of_their_own(a: DataFrameKind, b: DataFrameKind)
    ensures
        a.spec_name() == b.spec_name() <==> a == b,
        DataFrameKind::Intra.spec_name() == "intra"@,
        DataFrameKind::Inter.spec_name() == "inter"@,
        DataFrameKind::Gps.spec_name() == "GPS"@,
        DataFrameKind::GpsHome.spec_name() == "GPS home"@,
        DataFrameKind::Slow.spec_name() == "slow"@,
{
    reveal_strlit("intra");
    reveal_strlit("inter");
    reveal_strlit("GPS");
    reveal_strlit("GPS home");
    reveal_strlit("slow");
    assert("intra"@[3] == 'r');
    assert("inter"@[3] == 'e');
    assert("GPS"@.len() == 3);
    assert("GPS home"@.len() == 8);
    assert("slow"@.len() == 4);
}

/// A date keeps each part that was read, and a text that is no date stays as it is.
pub proof fn dates_keep_their_parts(
    date: DateTime,
    raw: &str,
    parts: (i32, u8, u8, u8, u8, u8),
    text: Seq<char>,
)
    ensures
        is_date_or_text(Ok(date), Some(parts), text) <==> (
            date.year,
            date.month,
            date.day,
            date.hour,
            date.minute,
            date.second,
        ) == parts,
        is_date_or_text(Err(raw), None, text) <==> raw@ == text,
        !is_date_or_text(Ok(date), None, text),
        !is_date_or_text(Err(raw), Some(parts), text),
{
}

/// A filter keeps the names that it lists, in their order, and without a list everything is kept.
pub proof fn filters_keep_their_names(filter: FieldFilter, filters: FilterSet)
    ensures
        filter is None <==> kept_names(filter) is None,
        filter matches Some(names) ==> kept_names(filter).unwrap().len() == names@.len() && forall|
            i: int,
        |
            0 <= i < names@.len() ==> #[trigger] kept_names(filter).unwrap()[i] == names@[i]@,
        filters@.main == kept_names(filters.main),
        filters@.slow == kept_names(filters.slow),
        filters@.gps == kept_names(filters.gps),
        FilterView::everything().main is None,
        FilterView::everything().slow is None,
        FilterView::everything().gps is None,
{
}

} // verus!
