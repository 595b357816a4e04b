//! Types for the header section of blackbox logs.
use vstd::prelude::*;
use vstd::string::*;
use vstd::utf8::{decode_utf8, encode_utf8, valid_utf8};

use crate::data::{DataParser, FilterSet, FilterView};
use crate::date::{is_date_or_text, parse_firmware_date, parsed_date, DateTime, FIRMWARE_DATE_FORMAT};
use crate::error::{ErrorView, ParseError, ParseResult};
use crate::firmware::{firmware_of, Firmware, InternalFirmware};
use crate::frame::{
    Available, AvailableView, DataFrameKind, FieldView, FrameDef, GpsFrameDef, GpsHomeFrameDef,
    MainDefView, MainFrameDef, SlowFrameDef,
};
use crate::header_map::HeaderMap;
use crate::intervals::{
    intervals_of, iteration_after, parse_frame_intervals, run_of_skipped, writes_frame,
    FrameIntervals,
};
use crate::parser::{InternalError, InternalResult};
use crate::reader::{line_length, line_length_is_first, Reader};
use crate::state::{MotorOutputRange, RawHeaderValue, RawView, State, StateView};
use crate::tables::{
    debug_mode_name, pwm_protocol_name, DebugMode, DisabledFields, FeatureSet, PwmProtocol,
};
use crate::text::{
    after_prefix, optional_text, split_once, split_once_at, strip_prefix, trim, trimmed, utf8_text,
};

verus! {

/// The name and the value that a header line writes: an optional space, the name, a colon, and the
/// value.
pub open spec fn name_and_value(line: Seq<char>) -> Option<(Seq<char>, Seq<char>)> {
    let line = match after_prefix(line, " "@) {
        Some(rest) => rest,
        None => line,
    };
    split_once_at(line, ':')
}

/// The header that `bytes` starts with: an `H` and a line of valid UTF-8.
pub open spec fn header_at(bytes: Seq<u8>) -> InternalResult<(Seq<char>, Seq<char>)> {
    if bytes.len() == 0 {
        Err(InternalError::Eof)
    } else if bytes[0] != 0x48 {
        Err(InternalError::Retry)
    } else {
        match line_length(bytes.skip(1)) {
            None => Err(InternalError::Eof),
            Some(n) => {
                let line = bytes.skip(1).take(n as int);
                if valid_utf8(line) {
                    match name_and_value(decode_utf8(line)) {
                        Some(header) => Ok(header),
                        None => Err(InternalError::Retry),
                    }
                } else {
                    Err(InternalError::Retry)
                }
            },
        }
    }
}

/// What is left of `bytes` once a header was read, or its reading failed: a line that starts with an
/// `H` is gone, else at most one byte.
pub open spec fn after_header(bytes: Seq<u8>) -> Seq<u8> {
    if bytes.len() == 0 {
        bytes
    } else if bytes[0] != 0x48 {
        bytes.skip(1)
    } else {
        match line_length(bytes.skip(1)) {
            None => bytes.skip(1),
            Some(n) => bytes.skip(1).skip(n as int + 1),
        }
    }
}

/// Reads one header. Expects the next character to be the leading `H`.
pub fn parse_header<'data>(bytes: &mut Reader<'data>) -> (header: InternalResult<
    (&'data str, &'data str),
>)
    ensures
        match header {
            Ok((name, value)) => header_at(old(bytes)@) == Ok::<
                (Seq<char>, Seq<char>),
                InternalError,
            >((name@, value@)),
            Err(e) => header_at(old(bytes)@) == Err::<(Seq<char>, Seq<char>), InternalError>(e),
        },
        final(bytes)@ == after_header(old(bytes)@),
{
    match bytes.read_u8() {
        Some(byte) => if byte != 0x48 {
            return Err(InternalError::Retry);
        },
        None => return Err(InternalError::Eof),
    }
    let line = match bytes.read_line() {
        Some(line) => line,
        None => return Err(InternalError::Eof),
    };
    let line = match utf8_text(line) {
        Some(line) => line,
        None => return Err(InternalError::Retry),
    };
    let line = match strip_prefix(line, " ") {
        Some(rest) => rest,
        None => line,
    };
    match split_once(line, ':') {
        Some(header) => Ok(header),
        None => Err(InternalError::Retry),
    }
}

/// What a [`Headers`] says.
pub struct HeadersView {
    pub data: Seq<u8>,
    pub main_frame_def: MainDefView,
    pub slow_frame_def: Seq<FieldView>,
    pub gps_frame_def: Option<Seq<FieldView>>,
    pub gps_home_frame_def: Option<Seq<FieldView>>,
    pub firmware_revision: Seq<char>,
    pub internal_firmware: InternalFirmware,
    pub firmware: Firmware,
    pub firmware_date: Option<Seq<char>>,
    pub board_info: Option<Seq<char>>,
    pub craft_name: Option<Seq<char>>,
    pub debug_mode: Seq<char>,
    pub disabled_fields: DisabledFields,
    pub features: FeatureSet,
    pub pwm_protocol: Seq<char>,
    pub vbat_reference: Option<u16>,
    pub acceleration_1g: Option<u16>,
    pub gyro_scale: Option<u32>,
    pub min_throttle: Option<u16>,
    pub motor_output_range: Option<MotorOutputRange>,
    pub frame_intervals: (nat, nat, nat),
    pub unknown: Map<Seq<char>, Seq<char>>,
}

/// Decoded headers containing metadata for a blackbox log.
#[derive(Debug)]
pub struct Headers<'data> {
    data: Reader<'data>,
    main_frame_def: MainFrameDef<'data>,
    slow_frame_def: SlowFrameDef<'data>,
    gps_frame_def: Option<GpsFrameDef<'data>>,
    gps_home_frame_def: Option<GpsHomeFrameDef<'data>>,
    firmware_revision: &'data str,
    internal_firmware: InternalFirmware,
    firmware: Firmware,
    firmware_date: Option<&'data str>,
    board_info: Option<&'data str>,
    craft_name: Option<&'data str>,
    debug_mode: DebugMode,
    disabled_fields: DisabledFields,
    features: FeatureSet,
    pwm_protocol: PwmProtocol,
    vbat_reference: Option<u16>,
    acceleration_1g: Option<u16>,
    gyro_scale: Option<u32>,
    min_throttle: Option<u16>,
    motor_output_range: Option<MotorOutputRange>,
    frame_intervals: FrameIntervals,
    unknown: HeaderMap<'data>,
}

/// The fields of a frame that a log can do without.
pub open spec fn optional_def(def: Option<FrameDef>) -> Option<Seq<FieldView>> {
    match def {
        Some(def) => Some(def@),
        None => None,
    }
}

impl<'data> View for Headers<'data> {
    type V = HeadersView;

    closed spec fn view(&self) -> HeadersView {
        HeadersView {
            data: self.data@,
            main_frame_def: self.main_frame_def@,
            slow_frame_def: self.slow_frame_def@,
            gps_frame_def: optional_def(self.gps_frame_def),
            gps_home_frame_def: optional_def(self.gps_home_frame_def),
            firmware_revision: self.firmware_revision@,
            internal_firmware: self.internal_firmware,
            firmware: self.firmware,
            firmware_date: optional_text(self.firmware_date),
            board_info: optional_text(self.board_info),
            craft_name: optional_text(self.craft_name),
            debug_mode: self.debug_mode@,
            disabled_fields: self.disabled_fields,
            features: self.features,
            pwm_protocol: self.pwm_protocol@,
            vbat_reference: self.vbat_reference,
            acceleration_1g: self.acceleration_1g,
            gyro_scale: self.gyro_scale,
            min_throttle: self.min_throttle,
            motor_output_range: self.motor_output_range,
            frame_intervals: self.frame_intervals.parts(),
            unknown: self.unknown@,
        }
    }
}

fn clone_def<'data>(def: &Option<FrameDef<'data>>) -> (copy: Option<FrameDef<'data>>)
    ensures
        optional_def(copy) == optional_def(*def),
{
    match def {
        Some(def) => Some(def.clone()),
        None => None,
    }
}

impl<'data> Clone for Headers<'data> {
    fn clone(&self) -> (copy: Self)
        ensures
            copy@ == self@,
    {
        Headers {
            data: self.data,
            main_frame_def: self.main_frame_def.clone(),
            slow_frame_def: self.slow_frame_def.clone(),
            gps_frame_def: clone_def(&self.gps_frame_def),
            gps_home_frame_def: clone_def(&self.gps_home_frame_def),
            firmware_revision: self.firmware_revision,
            internal_firmware: self.internal_firmware,
            firmware: self.firmware,
            firmware_date: self.firmware_date,
            board_info: self.board_info,
            craft_name: self.craft_name,
            debug_mode: self.debug_mode,
            disabled_fields: self.disabled_fields,
            features: self.features,
            pwm_protocol: self.pwm_protocol,
            vbat_reference: self.vbat_reference,
            acceleration_1g: self.acceleration_1g,
            gyro_scale: self.gyro_scale,
            min_throttle: self.min_throttle,
            motor_output_range: self.motor_output_range,
            frame_intervals: self.frame_intervals,
            unknown: self.unknown.clone(),
        }
    }
}

impl HeadersView {
    /// What the headers give the predictions and units of the fields.
    pub open spec fn available(self) -> AvailableView {
        AvailableView {
            acceleration_1g: self.acceleration_1g is Some,
            min_throttle: self.min_throttle is Some,
            motor_0: self.main_frame_def.motor_0(),
            vbat_reference: self.vbat_reference is Some,
            motor_output_range: self.motor_output_range is Some,
            gps_home: self.gps_home_frame_def is Some,
        }
    }

    /// The first frame with a field that cannot be read with these headers.
    pub open spec fn malformed_frame(self) -> Option<DataFrameKind> {
        let available = self.available();
        if !available.suffices(self.main_frame_def.intra) {
            Some(DataFrameKind::Intra)
        } else if !available.suffices(self.main_frame_def.inter) {
            Some(DataFrameKind::Inter)
        } else if !available.suffices(self.slow_frame_def) {
            Some(DataFrameKind::Slow)
        } else if self.gps_frame_def matches Some(def) && !available.suffices(def) {
            Some(DataFrameKind::Gps)
        } else if self.gps_home_frame_def matches Some(def) && !available.suffices(def) {
            Some(DataFrameKind::GpsHome)
        } else {
            None
        }
    }
}

/// A text without the white space around it, where anything is left of it.
pub open spec fn non_empty(s: Option<Seq<char>>) -> Option<Seq<char>> {
    match s {
        Some(s) => if trimmed(s).len() > 0 {
            Some(trimmed(s))
        } else {
            None
        },
        None => None,
    }
}

/// The name of the debug mode that a header gives. A missing header and a mode that is not known
/// both stand for `NONE`.
pub open spec fn debug_mode_or_none(
    mode: Option<RawView<u32>>,
    firmware: InternalFirmware,
) -> Seq<char> {
    match mode {
        Some(raw) => match debug_mode_name(raw.value, firmware) {
            Some(name) => name,
            None => "NONE"@,
        },
        None => "NONE"@,
    }
}

/// The name of the motor protocol that a header gives.
pub open spec fn required_protocol(
    protocol: Option<RawView<u32>>,
    firmware: InternalFirmware,
) -> Result<Seq<char>, ErrorView> {
    match protocol {
        Some(raw) => match pwm_protocol_name(raw.value, firmware) {
            Some(name) => Ok(name),
            None => Err(ErrorView::InvalidHeader { header: raw.header, value: raw.raw }),
        },
        None => Err(ErrorView::MissingHeader),
    }
}

impl StateView {
    /// The headers of a log whose data section is `data`, before the fields of the frames are
    /// checked against them.
    pub open spec fn collected(self, data: Seq<u8>) -> Result<HeadersView, ErrorView> {
        match self.firmware_revision {
            None => Err(ErrorView::MissingHeader),
            Some(revision) => match firmware_of(revision) {
                Err(e) => Err(e),
                Ok(firmware) => match self.main_frames.fields() {
                    Err(e) => Err(e),
                    Ok(main) => match self.slow_frames.fields(DataFrameKind::Slow) {
                        Err(e) => Err(e),
                        Ok(slow) => match self.gps_frames.optional_fields(DataFrameKind::Gps) {
                            Err(e) => Err(e),
                            Ok(gps) => match self.gps_home_frames.optional_fields(
                                DataFrameKind::GpsHome,
                            ) {
                                Err(e) => Err(e),
                                Ok(gps_home) => {
                                    let release = InternalFirmware::release_of(firmware);
                                    match required_protocol(self.pwm_protocol, release) {
                                        Err(e) => Err(e),
                                        Ok(protocol) => Ok(
                                            HeadersView {
                                                data,
                                                main_frame_def: main,
                                                slow_frame_def: slow,
                                                gps_frame_def: gps,
                                                gps_home_frame_def: gps_home,
                                                firmware_revision: revision,
                                                internal_firmware: release,
                                                firmware,
                                                firmware_date: self.firmware_date,
                                                board_info: non_empty(self.board_info),
                                                craft_name: non_empty(self.craft_name),
                                                debug_mode: debug_mode_or_none(
                                                    self.debug_mode,
                                                    release,
                                                ),
                                                disabled_fields: DisabledFields {
                                                    raw: self.disabled_fields,
                                                    firmware: release,
                                                },
                                                features: FeatureSet {
                                                    raw: self.features,
                                                    firmware: release,
                                                },
                                                pwm_protocol: protocol,
                                                vbat_reference: self.vbat_reference,
                                                acceleration_1g: self.acceleration_1g,
                                                gyro_scale: self.gyro_scale,
                                                min_throttle: self.min_throttle,
                                                motor_output_range: self.motor_output_range,
                                                frame_intervals: intervals_of(self.unknown),
                                                unknown: self.unknown,
                                            },
                                        ),
                                    }
                                },
                            },
                        },
                    },
                },
            },
        }
    }

    /// The headers of a log whose data section is `data`.
    pub open spec fn finished(self, data: Seq<u8>) -> Result<HeadersView, ErrorView> {
        match self.collected(data) {
            Err(e) => Err(e),
            Ok(headers) => match headers.malformed_frame() {
                Some(kind) => Err(ErrorView::MalformedFrameDef(kind)),
                None => Ok(headers),
            },
        }
    }
}

fn trimmed_or_none<'data>(s: Option<&'data str>) -> (inner: Option<&'data str>)
    ensures
        optional_text(inner) == non_empty(optional_text(s)),
{
    match s {
        Some(s) => {
            let inner = trim(s);
            if inner.is_empty() {
                None
            } else {
                Some(inner)
            }
        },
        None => None,
    }
}

fn known_debug_mode(mode: Option<RawHeaderValue<u32>>, firmware: InternalFirmware) -> (known:
    DebugMode)
    ensures
        known@ == debug_mode_or_none(crate::state::optional_raw(mode), firmware),
{
    match mode {
        Some(raw) => match DebugMode::new(raw.value, firmware) {
            Some(mode) => mode,
            None => DebugMode::none(),
        },
        None => DebugMode::none(),
    }
}

fn known_protocol(protocol: Option<RawHeaderValue<u32>>, firmware: InternalFirmware) -> (known:
    ParseResult<PwmProtocol>)
    ensures
        match known {
            Ok(known) => required_protocol(crate::state::optional_raw(protocol), firmware) == Ok::<
                Seq<char>,
                ErrorView,
            >(known@),
            Err(e) => required_protocol(crate::state::optional_raw(protocol), firmware) == Err::<
                Seq<char>,
                ErrorView,
            >(e@),
        },
{
    match protocol {
        Some(raw) => match PwmProtocol::new(raw.value, firmware) {
            Some(protocol) => Ok(protocol),
            None => Err(raw.invalid_header_error()),
        },
        None => Err(ParseError::MissingHeader),
    }
}

impl<'data> State<'data> {
    /// The headers of a log whose data section is left in `data`.
    pub fn finish(self, data: Reader<'data>) -> (headers: ParseResult<Headers<'data>>)
        ensures
            match headers {
                Ok(headers) => self@.finished(data@) == Ok::<HeadersView, ErrorView>(headers@),
                Err(e) => self@.finished(data@) == Err::<HeadersView, ErrorView>(e@),
            },
    {
        let firmware_revision = match self.firmware_revision {
            Some(revision) => revision,
            None => return Err(ParseError::MissingHeader),
        };
        let firmware = match Firmware::parse(firmware_revision) {
            Ok(firmware) => firmware,
            Err(e) => return Err(e),
        };
        let internal_firmware = InternalFirmware::from(firmware);
        let (intra, num, denom) = parse_frame_intervals(&self.unknown);
        let main_frame_def = match self.main_frames.parse() {
            Ok(def) => def,
            Err(e) => return Err(e),
        };
        let slow_frame_def = match self.slow_frames.parse(DataFrameKind::Slow) {
            Ok(def) => def,
            Err(e) => return Err(e),
        };
        let gps_frame_def = match self.gps_frames.parse_optional(DataFrameKind::Gps) {
            Ok(def) => def,
            Err(e) => return Err(e),
        };
        let gps_home_frame_def = match self.gps_home_frames.parse_optional(DataFrameKind::GpsHome) {
            Ok(def) => def,
            Err(e) => return Err(e),
        };
        let pwm_protocol = match known_protocol(self.pwm_protocol, internal_firmware) {
            Ok(protocol) => protocol,
            Err(e) => return Err(e),
        };
        let headers = Headers {
            data,
            main_frame_def,
            slow_frame_def,
            gps_frame_def,
            gps_home_frame_def,
            firmware_revision,
            internal_firmware,
            firmware,
            firmware_date: self.firmware_date,
            board_info: trimmed_or_none(self.board_info),
            craft_name: trimmed_or_none(self.craft_name),
            // A mode that is not known only leaves the debug fields without a label.
            debug_mode: known_debug_mode(self.debug_mode, internal_firmware),
            disabled_fields: DisabledFields::new(self.disabled_fields, internal_firmware),
            features: FeatureSet::new(self.features, internal_firmware),
            pwm_protocol,
            vbat_reference: self.vbat_reference,
            acceleration_1g: self.acceleration_1g,
            gyro_scale: self.gyro_scale,
            min_throttle: self.min_throttle,
            motor_output_range: self.motor_output_range,
            frame_intervals: FrameIntervals::new(intra, num, denom),
            unknown: self.unknown,
        };
        assert(self@.collected(data@) == Ok::<HeadersView, ErrorView>(headers@));
        match headers.validate() {
            Ok(_) => Ok(headers),
            Err(e) => Err(e),
        }
    }
}

impl<'data> Headers<'data> {
    /// Checks that every field of every frame can be read with these headers.
    pub fn validate(&self) -> (valid: ParseResult<()>)
        ensures
            match valid {
                Ok(_) => self@.malformed_frame() is None,
                Err(e) => self@.malformed_frame() matches Some(kind) && e@
                    == ErrorView::MalformedFrameDef(kind),
            },
    {
        let available = Available {
            acceleration_1g: self.acceleration_1g.is_some(),
            min_throttle: self.min_throttle.is_some(),
            motor_0: self.main_frame_def.index_motor_0(),
            vbat_reference: self.vbat_reference.is_some(),
            motor_output_range: self.motor_output_range.is_some(),
            gps_home: self.gps_home_frame_def.is_some(),
        };
        assert(available@ == self@.available());
        match self.main_frame_def.validate(available) {
            Ok(_) => {},
            Err(e) => return Err(e),
        }
        match self.slow_frame_def.validate(DataFrameKind::Slow, available) {
            Ok(_) => {},
            Err(e) => return Err(e),
        }
        match &self.gps_frame_def {
            Some(def) => match def.validate(DataFrameKind::Gps, available) {
                Ok(_) => {},
                Err(e) => return Err(e),
            },
            None => {},
        }
        match &self.gps_home_frame_def {
            Some(def) => match def.validate(DataFrameKind::GpsHome, available) {
                Ok(_) => {},
                Err(e) => return Err(e),
            },
            None => {},
        }
        Ok(())
    }
}

/// What is left of `bytes` once a line was read, where there is one.
pub open spec fn after_line(bytes: Seq<u8>) -> Seq<u8> {
    match line_length(bytes) {
        Some(n) => bytes.skip(n as int + 1),
        None => bytes,
    }
}

/// Whether `bytes` starts with the line that tells the one version of the log format that can be
/// read.
pub open spec fn starts_with_version(bytes: Seq<u8>) -> bool {
    line_length(bytes) matches Some(n) && bytes.take(n as int) == encode_utf8("H Data version:2"@)
}

/// The headers that `bytes` starts with, on top of those seen before. They end before the first byte
/// that is no `H`, and before the first line that is no header.
pub open spec fn headers_from(state: StateView, bytes: Seq<u8>) -> Result<HeadersView, ErrorView>
    decreases bytes.len(),
{
    if bytes.len() == 0 || bytes[0] != 0x48 {
        state.finished(bytes)
    } else {
        match header_at(bytes) {
            Err(InternalError::Retry) => state.finished(bytes),
            Err(InternalError::Eof) => Err(ErrorView::IncompleteHeaders),
            Ok((name, value)) => match state.updated(name, value) {
                None => Err(ErrorView::InvalidHeader { header: name, value }),
                Some(next) => {
                    proof {
                        headers_are_consumed(bytes);
                    }
                    headers_from(next, after_header(bytes))
                },
            },
        }
    }
}

/// The headers of a log: a line that names the product, a line that tells the version of the format,
/// and the headers.
pub open spec fn headers_of(bytes: Seq<u8>) -> Result<HeadersView, ErrorView> {
    let rest = after_line(bytes);
    if starts_with_version(rest) {
        headers_from(StateView::empty(), after_line(rest))
    } else {
        Err(ErrorView::UnsupportedDataVersion)
    }
}

/// Reading a header leaves fewer bytes than there were.
pub proof fn headers_are_consumed(bytes: Seq<u8>)
    requires
        bytes.len() > 0,
    ensures
        after_header(bytes).len() < bytes.len(),
{
    line_length_is_first(bytes.skip(1));
}

fn same_bytes(a: &[u8], b: &[u8]) -> (same: bool)
    ensures
        same == (a@ == b@),
{
    if a.len() != b.len() {
        return false;
    }
    let mut i: usize = 0;
    while i < a.len()
        invariant
            a@.len() == b@.len(),
            i <= a@.len(),
            forall|j: int| 0 <= j < i ==> a@[j] == b@[j],
        decreases a@.len() - i,
    {
        if a[i] != b[i] {
            return false;
        }
        i += 1;
    }
    assert(a@ =~= b@);
    true
}

impl<'data> Headers<'data> {
    /// Parses only the headers of a blackbox log.
    ///
    /// `data` is taken to start at the start of a log. What follows the headers is the log's data
    /// section.
    pub fn parse(data: &'data [u8]) -> (headers: ParseResult<Self>)
        ensures
            match headers {
                Ok(headers) => headers_of(data@) == Ok::<HeadersView, ErrorView>(headers@),
                Err(e) => headers_of(data@) == Err::<HeadersView, ErrorView>(e@),
            },
    {
        let mut reader = Reader::new(data);
        // Skip the product header
        let _ = reader.read_line();
        match reader.read_line() {
            Some(line) => if !same_bytes(line, "H Data version:2".as_bytes()) {
                return Err(ParseError::UnsupportedDataVersion);
            },
            None => return Err(ParseError::UnsupportedDataVersion),
        }
        let mut state = State::new();
        loop
            invariant_except_break
                headers_of(data@) == headers_from(state@, reader@),
            ensures
                headers_of(data@) == state@.finished(reader@),
            decreases reader@.len(),
        {
            match reader.peek() {
                Some(0x48) => {},
                _ => break,
            }
            proof {
                headers_are_consumed(reader@);
            }
            let restore = reader.get_restore_point();
            let (name, value) = match parse_header(&mut reader) {
                Ok(header) => header,
                Err(InternalError::Retry) => {
                    reader.restore(restore);
                    break;
                },
                Err(InternalError::Eof) => return Err(ParseError::IncompleteHeaders),
            };
            if !state.update(name, value) {
                return Err(
                    ParseError::InvalidHeader { header: name.to_owned(), value: value.to_owned() },
                );
            }
        }
        state.finish(reader)
    }
}

impl<'data> Headers<'data> {
    /// Returns a new [`DataParser`] without beginning parsing.
    pub fn data_parser<'headers>(&'headers self) -> (parser: DataParser<'data, 'headers>)
        ensures
            parser.data() == self@.data,
            parser.headers() == *self,
            parser.filters() == FilterView::everything(),
    {
        DataParser::new(self.data, self, &FilterSet::default())
    }

    /// Returns a new [`DataParser`] that keeps the fields that the filters name, without beginning
    /// parsing.
    pub fn data_parser_with_filters<'headers>(&'headers self, filters: &FilterSet) -> (parser:
        DataParser<'data, 'headers>)
        ensures
            parser.data() == self@.data,
            parser.headers() == *self,
            parser.filters() == filters@,
    {
        DataParser::new(self.data, self, filters)
    }

    /// The fields of the main frames.
    pub fn main_frame_def(&self) -> (def: &MainFrameDef<'data>)
        ensures
            def@ == self@.main_frame_def,
    {
        &self.main_frame_def
    }

    /// The fields of the slow frames.
    pub fn slow_frame_def(&self) -> (def: &SlowFrameDef<'data>)
        ensures
            def@ == self@.slow_frame_def,
    {
        &self.slow_frame_def
    }

    /// The fields of the GPS frames, where the log has any.
    pub fn gps_frame_def(&self) -> (def: Option<&GpsFrameDef<'data>>)
        ensures
            match def {
                Some(def) => self@.gps_frame_def == Some(def@),
                None => self@.gps_frame_def is None,
            },
    {
        match &self.gps_frame_def {
            Some(def) => Some(def),
            None => None,
        }
    }

    /// The fields of the GPS home frames, where the log has any.
    pub fn gps_home_frame_def(&self) -> (def: Option<&GpsHomeFrameDef<'data>>)
        ensures
            match def {
                Some(def) => self@.gps_home_frame_def == Some(def@),
                None => self@.gps_home_frame_def is None,
            },
    {
        match &self.gps_home_frame_def {
            Some(def) => Some(def),
            None => None,
        }
    }

    /// The full `Firmware revision` header.
    ///
    /// Consider using the [`firmware`][Self::firmware] method instead.
    pub fn firmware_revision(&self) -> (revision: &'data str)
        ensures
            revision@ == self@.firmware_revision,
    {
        self.firmware_revision
    }

    /// The firmware that wrote the log.
    pub fn firmware(&self) -> (firmware: Firmware)
        ensures
            firmware == self@.firmware,
    {
        self.firmware
    }

    /// The release of the firmware that wrote the log.
    pub fn internal_firmware(&self) -> (firmware: InternalFirmware)
        ensures
            firmware == self@.internal_firmware,
    {
        self.internal_firmware
    }

    /// The `Firmware date` header, as it is where it is no date.
    pub fn firmware_date(&self) -> (date: Option<Result<DateTime, &'data str>>)
        ensures
            match (date, self@.firmware_date) {
                (Some(date), Some(text)) => is_date_or_text(
                    date,
                    parsed_date(text, FIRMWARE_DATE_FORMAT@),
                    text,
                ),
                (None, None) => true,
                _ => false,
            },
            date matches Some(Ok(date)) ==> date.in_range(),
    {
        match self.firmware_date {
            Some(text) => Some(parse_firmware_date(text)),
            None => None,
        }
    }

    /// The `Board info` header, which is also written `Board information`.
    pub fn board_info(&self) -> (info: Option<&'data str>)
        ensures
            optional_text(info) == self@.board_info,
    {
        self.board_info
    }

    /// The `Craft name` header.
    pub fn craft_name(&self) -> (name: Option<&'data str>)
        ensures
            optional_text(name) == self@.craft_name,
    {
        self.craft_name
    }

    /// What the firmware wrote to the debug fields.
    pub fn debug_mode(&self) -> (mode: DebugMode)
        ensures
            mode@ == self@.debug_mode,
    {
        self.debug_mode
    }

    /// The groups of fields that the log leaves out.
    pub fn disabled_fields(&self) -> (fields: DisabledFields)
        ensures
            fields == self@.disabled_fields,
    {
        self.disabled_fields
    }

    /// The features that were enabled.
    pub fn features(&self) -> (features: FeatureSet)
        ensures
            features == self@.features,
    {
        self.features
    }

    /// How the firmware talked to the motors.
    pub fn pwm_protocol(&self) -> (protocol: PwmProtocol)
        ensures
            protocol@ == self@.pwm_protocol,
    {
        self.pwm_protocol
    }

    /// The battery voltage measured at arm.
    pub fn vbat_reference(&self) -> (reference: Option<u16>)
        ensures
            reference == self@.vbat_reference,
    {
        self.vbat_reference
    }

    /// Calibration for the accelerometer.
    pub fn acceleration_1g(&self) -> (one_g: Option<u16>)
        ensures
            one_g == self@.acceleration_1g,
    {
        self.acceleration_1g
    }

    /// Calibration for the gyro in degrees per second, as the bits of a number in IEEE 754 format.
    pub fn gyro_scale_bits(&self) -> (bits: Option<u32>)
        ensures
            bits == self@.gyro_scale,
    {
        self.gyro_scale
    }

    /// The configured `minthrottle`, if logged. For analog ESC protocols this is the bottom of the
    /// motor output range used to scale motor values to percent.
    pub fn min_throttle(&self) -> (throttle: Option<u16>)
        ensures
            throttle == self@.min_throttle,
    {
        self.min_throttle
    }

    /// The logged `motorOutput` range as `(min, max)`, if present.
    pub fn motor_output_range(&self) -> (range: Option<(u16, u16)>)
        ensures
            range == match self@.motor_output_range {
                Some(range) => Some((range.min, range.max)),
                None => None,
            },
    {
        match self.motor_output_range {
            Some(range) => Some((range.min, range.max)),
            None => None,
        }
    }

    /// Any unknown headers.
    pub fn unknown(&self) -> (unknown: &HeaderMap<'data>)
        ensures
            unknown@ == self@.unknown,
    {
        &self.unknown
    }

    /// Whether the firmware would have written a frame for loop iteration `index`.
    pub fn should_have_frame(&self, index: u32) -> (written: bool)
        ensures
            written == writes_frame(
                self@.frame_intervals.0,
                self@.frame_intervals.1,
                self@.frame_intervals.2,
                index as nat,
            ),
    {
        self.frame_intervals.should_have_frame(index)
    }

    /// Counts the frames the firmware intentionally skipped between `last_iteration` and the next
    /// frame it actually wrote.
    pub fn count_intentionally_skipped_frames(&self, last_iteration: u32) -> (skipped: u32)
        ensures
            skipped == run_of_skipped(
                self@.frame_intervals.0,
                self@.frame_intervals.1,
                self@.frame_intervals.2,
                iteration_after(last_iteration as nat, 1),
                self@.frame_intervals.2,
            ),
    {
        self.frame_intervals.count_intentionally_skipped_frames(last_iteration)
    }
}

} // verus!
