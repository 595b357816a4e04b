//! The headers seen so far.
use vstd::prelude::*;
use vstd::string::*;

use crate::error::{ErrorView, ParseError};
use crate::frame::{
    frame_def_header, parse_frame_def_header, BuilderView, DataFrameKind, DefProperty,
    FrameDefBuilder, MainBuilderView, MainFrameDefBuilder,
};
use crate::header_map::{no_entries, HeaderMap};
use crate::text::{
    after_prefix, optional_text, parse_i32, parse_u16, parse_u32, parse_unsigned, same_text,
    signed_value, split_once, split_once_at, strip_prefix, unsigned_value,
};

verus! {

/// The range of the motor outputs.
#[derive(Debug, Clone, Copy)]
pub struct MotorOutputRange {
    pub min: u16,
    pub max: u16,
}

/// The number that fits `u16` and that `s` writes.
pub open spec fn u16_of(s: Seq<char>) -> Option<u16> {
    match unsigned_value(s, 10, 0xffff) {
        Some(n) => Some(n as u16),
        None => None,
    }
}

/// The number that fits `u32` and that `s` writes.
pub open spec fn u32_of(s: Seq<char>) -> Option<u32> {
    match unsigned_value(s, 10, 0xffff_ffff) {
        Some(n) => Some(n as u32),
        None => None,
    }
}

/// The bits in two's complement of the number that fits `i32` and that `s` writes.
pub open spec fn i32_bits_of(s: Seq<char>) -> Option<u32> {
    match signed_value(s) {
        Some(n) => Some(
            if n < 0 {
                (n + 0x1_0000_0000) as u32
            } else {
                n as u32
            },
        ),
        None => None,
    }
}

/// The bits of the gyro's scale: in hexadecimal behind `0x`, else in decimal.
pub open spec fn scale_bits_of(s: Seq<char>) -> Option<u32> {
    match after_prefix(s, "0x"@) {
        Some(hex) => match unsigned_value(hex, 16, 0xffff_ffff) {
            Some(n) => Some(n as u32),
            None => None,
        },
        None => u32_of(s),
    }
}

/// The range that `s` writes: the least and the greatest output, with a comma in between.
pub open spec fn range_of(s: Seq<char>) -> Option<MotorOutputRange> {
    match split_once_at(s, ',') {
        Some((min, max)) => match (u16_of(min), u16_of(max)) {
            (Some(min), Some(max)) => Some(MotorOutputRange { min, max }),
            _ => None,
        },
        None => None,
    }
}

impl MotorOutputRange {
    /// Reads the range of the motor outputs.
    pub fn from_str(s: &str) -> (range: Option<Self>)
        ensures
            range == range_of(s@),
    {
        let (min, max) = match split_once(s, ',') {
            Some(parts) => parts,
            None => return None,
        };
        match (parse_u16(min), parse_u16(max)) {
            (Some(min), Some(max)) => Some(MotorOutputRange { min, max }),
            _ => None,
        }
    }
}

fn parse_bits(s: &str) -> (bits: Option<u32>)
    ensures
        bits == i32_bits_of(s@),
{
    match parse_i32(s) {
        Some(n) => if n < 0 {
            Some((n as i64 + 0x1_0000_0000) as u32)
        } else {
            Some(n as u32)
        },
        None => None,
    }
}

fn parse_scale(s: &str) -> (bits: Option<u32>)
    ensures
        bits == scale_bits_of(s@),
{
    match strip_prefix(s, "0x") {
        Some(hex) => parse_unsigned(hex, 16, 0xffff_ffff),
        None => parse_u32(s),
    }
}

/// What a [`RawHeaderValue`] says.
pub struct RawView<T> {
    pub header: Seq<char>,
    pub raw: Seq<char>,
    pub value: T,
}

/// The value of a header, together with the text that it was read from.
#[derive(Debug)]
pub struct RawHeaderValue<'data, T> {
    pub header: &'data str,
    pub raw: &'data str,
    pub value: T,
}

impl<'data, T> View for RawHeaderValue<'data, T> {
    type V = RawView<T>;

    open spec fn view(&self) -> RawView<T> {
        RawView { header: self.header@, raw: self.raw@, value: self.value }
    }
}

impl<'data, T> RawHeaderValue<'data, T> {
    /// The error that says that the value is out of range.
    pub fn invalid_header_error(&self) -> (error: ParseError)
        ensures
            error@ == (ErrorView::InvalidHeader { header: self@.header, value: self@.raw }),
    {
        ParseError::InvalidHeader { header: self.header.to_owned(), value: self.raw.to_owned() }
    }
}

/// The value of a header that is a number.
pub open spec fn raw_value_of(header: Seq<char>, raw: Seq<char>) -> Option<RawView<u32>> {
    match u32_of(raw) {
        Some(value) => Some(RawView { header, raw, value }),
        None => None,
    }
}

/// What a raw value that may be absent says.
pub open spec fn optional_raw(value: Option<RawHeaderValue<u32>>) -> Option<RawView<u32>> {
    match value {
        Some(value) => Some(value@),
        None => None,
    }
}

impl<'data> RawHeaderValue<'data, u32> {
    /// Reads the value of a header as a number.
    pub fn parse(header: &'data str, raw: &'data str) -> (value: Option<Self>)
        ensures
            optional_raw(value) == raw_value_of(header@, raw@),
    {
        match parse_u32(raw) {
            Some(value) => Some(RawHeaderValue { header, raw, value }),
            None => None,
        }
    }
}

/// What a [`State`] says.
pub struct StateView {
    pub main_frames: MainBuilderView,
    pub slow_frames: BuilderView,
    pub gps_frames: BuilderView,
    pub gps_home_frames: BuilderView,
    pub firmware_revision: Option<Seq<char>>,
    pub firmware_date: Option<Seq<char>>,
    pub firmware_kind: Option<Seq<char>>,
    pub board_info: Option<Seq<char>>,
    pub craft_name: Option<Seq<char>>,
    pub debug_mode: Option<RawView<u32>>,
    pub disabled_fields: u32,
    pub features: u32,
    pub pwm_protocol: Option<RawView<u32>>,
    pub vbat_reference: Option<u16>,
    pub acceleration_1g: Option<u16>,
    pub gyro_scale: Option<u32>,
    pub min_throttle: Option<u16>,
    pub motor_output_range: Option<MotorOutputRange>,
    pub unknown: Map<Seq<char>, Seq<char>>,
}

/// The headers seen so far.
#[derive(Debug)]
pub struct State<'data> {
    pub main_frames: MainFrameDefBuilder<'data>,
    pub slow_frames: FrameDefBuilder<'data>,
    pub gps_frames: FrameDefBuilder<'data>,
    pub gps_home_frames: FrameDefBuilder<'data>,
    pub firmware_revision: Option<&'data str>,
    pub firmware_date: Option<&'data str>,
    pub firmware_kind: Option<&'data str>,
    pub board_info: Option<&'data str>,
    pub craft_name: Option<&'data str>,
    pub debug_mode: Option<RawHeaderValue<'data, u32>>,
    pub disabled_fields: u32,
    pub features: u32,
    pub pwm_protocol: Option<RawHeaderValue<'data, u32>>,
    pub vbat_reference: Option<u16>,
    pub acceleration_1g: Option<u16>,
    /// The bits of a number in IEEE 754 format.
    pub gyro_scale: Option<u32>,
    pub min_throttle: Option<u16>,
    pub motor_output_range: Option<MotorOutputRange>,
    pub unknown: HeaderMap<'data>,
}

impl<'data> View for State<'data> {
    type V = StateView;

    open spec fn view(&self) -> StateView {
        StateView {
            main_frames: self.main_frames@,
            slow_frames: self.slow_frames@,
            gps_frames: self.gps_frames@,
            gps_home_frames: self.gps_home_frames@,
            firmware_revision: optional_text(self.firmware_revision),
            firmware_date: optional_text(self.firmware_date),
            firmware_kind: optional_text(self.firmware_kind),
            board_info: optional_text(self.board_info),
            craft_name: optional_text(self.craft_name),
            debug_mode: optional_raw(self.debug_mode),
            disabled_fields: self.disabled_fields,
            features: self.features,
            pwm_protocol: optional_raw(self.pwm_protocol),
            vbat_reference: self.vbat_reference,
            acceleration_1g: self.acceleration_1g,
            gyro_scale: self.gyro_scale,
            min_throttle: self.min_throttle,
            motor_output_range: self.motor_output_range,
            unknown: self.unknown@,
        }
    }
}

impl StateView {
    /// No header seen yet.
    pub open spec fn empty() -> StateView {
        StateView {
            main_frames: MainBuilderView::empty(),
            slow_frames: BuilderView::empty(),
            gps_frames: BuilderView::empty(),
            gps_home_frames: BuilderView::empty(),
            firmware_revision: None,
            firmware_date: None,
            firmware_kind: None,
            board_info: None,
            craft_name: None,
            debug_mode: None,
            disabled_fields: 0,
            features: 0,
            pwm_protocol: None,
            vbat_reference: None,
            acceleration_1g: None,
            gyro_scale: None,
            min_throttle: None,
            motor_output_range: None,
            unknown: no_entries(),
        }
    }

    /// The state after a header about the fields of a frame.
    pub open spec fn with_frame_def(
        self,
        kind: DataFrameKind,
        property: DefProperty,
        value: Seq<char>,
    ) -> StateView {
        match kind {
            DataFrameKind::Intra | DataFrameKind::Inter => StateView {
                main_frames: self.main_frames.updated(kind, property, value),
                ..self
            },
            DataFrameKind::Slow => StateView {
                slow_frames: self.slow_frames.updated(property, value),
                ..self
            },
            DataFrameKind::Gps => StateView {
                gps_frames: self.gps_frames.updated(property, value),
                ..self
            },
            DataFrameKind::GpsHome => StateView {
                gps_home_frames: self.gps_home_frames.updated(property, value),
                ..self
            },
        }
    }

    /// The state after one more header; none where its value cannot be read.
    pub open spec fn updated(self, header: Seq<char>, value: Seq<char>) -> Option<StateView> {
        if header == "Firmware revision"@ {
            Some(StateView { firmware_revision: Some(value), ..self })
        } else if header == "Firmware date"@ {
            Some(StateView { firmware_date: Some(value), ..self })
        } else if header == "Firmware type"@ {
            Some(StateView { firmware_kind: Some(value), ..self })
        } else if header == "Board information"@ || header == "Board info"@ {
            Some(StateView { board_info: Some(value), ..self })
        } else if header == "Craft name"@ {
            Some(StateView { craft_name: Some(value), ..self })
        } else if header == "debug_mode"@ {
            match raw_value_of(header, value) {
                Some(mode) => Some(StateView { debug_mode: Some(mode), ..self }),
                None => None,
            }
        } else if header == "fields_disabled_mask"@ {
            match u32_of(value) {
                Some(mask) => Some(StateView { disabled_fields: mask, ..self }),
                None => None,
            }
        } else if header == "features"@ {
            match i32_bits_of(value) {
                Some(bits) => Some(StateView { features: bits, ..self }),
                None => None,
            }
        } else if header == "motor_pwm_protocol"@ {
            match raw_value_of(header, value) {
                Some(protocol) => Some(StateView { pwm_protocol: Some(protocol), ..self }),
                None => None,
            }
        } else if header == "vbatref"@ {
            match u16_of(value) {
                Some(reference) => Some(StateView { vbat_reference: Some(reference), ..self }),
                None => None,
            }
        } else if header == "acc_1G"@ {
            match u16_of(value) {
                Some(one_g) => Some(StateView { acceleration_1g: Some(one_g), ..self }),
                None => None,
            }
        } else if header == "gyro.scale"@ || header == "gyro_scale"@ {
            match scale_bits_of(value) {
                Some(bits) => Some(StateView { gyro_scale: Some(bits), ..self }),
                None => None,
            }
        } else if header == "minthrottle"@ {
            match u16_of(value) {
                Some(throttle) => Some(StateView { min_throttle: Some(throttle), ..self }),
                None => None,
            }
        } else if header == "motorOutput"@ {
            match range_of(value) {
                Some(range) => Some(StateView { motor_output_range: Some(range), ..self }),
                None => None,
            }
        } else {
            match frame_def_header(header) {
                Some((kind, property)) => Some(self.with_frame_def(kind, property, value)),
                None => if is_legacy(header) {
                    Some(self)
                } else {
                    Some(StateView { unknown: self.unknown.insert(header, value), ..self })
                },
            }
        }
    }
}

/// The calibration headers of old firmware, which are passed over.
pub open spec fn is_legacy(header: Seq<char>) -> bool {
    header == "vbatscale"@ || header == "vbat_scale"@ || header == "currentMeter"@ || header
        == "currentSensor"@
}

fn legacy(header: &str) -> (yes: bool)
    ensures
        yes == is_legacy(header@),
{
    same_text(header, "vbatscale") || same_text(header, "vbat_scale") || same_text(
        header,
        "currentMeter",
    ) || same_text(header, "currentSensor")
}

impl<'data> State<'data> {
    /// No header seen yet.
    pub fn new() -> (state: Self)
        ensures
            state@ == StateView::empty(),
    {
        State {
            main_frames: MainFrameDefBuilder::new(),
            slow_frames: FrameDefBuilder::new(),
            gps_frames: FrameDefBuilder::new(),
            gps_home_frames: FrameDefBuilder::new(),
            firmware_revision: None,
            firmware_date: None,
            firmware_kind: None,
            board_info: None,
            craft_name: None,
            debug_mode: None,
            disabled_fields: 0,
            features: 0,
            pwm_protocol: None,
            vbat_reference: None,
            acceleration_1g: None,
            gyro_scale: None,
            min_throttle: None,
            motor_output_range: None,
            unknown: HeaderMap::new(),
        }
    }

    fn update_frame_def(&mut self, kind: DataFrameKind, property: DefProperty, value: &'data str)
        ensures
            final(self)@ == old(self)@.with_frame_def(kind, property, value@),
    {
        match kind {
            DataFrameKind::Intra | DataFrameKind::Inter => {
                self.main_frames.update(kind, property, value);
            },
            DataFrameKind::Slow => self.slow_frames.update(property, value),
            DataFrameKind::Gps => self.gps_frames.update(property, value),
            DataFrameKind::GpsHome => self.gps_home_frames.update(property, value),
        }
    }

    /// Takes in one header. Returns `true` if the value was valid, and changes nothing if not.
    pub fn update(&mut self, header: &'data str, value: &'data str) -> (valid: bool)
        ensures
            match old(self)@.updated(header@, value@) {
                Some(state) => valid && final(self)@ == state,
                None => !valid && final(self)@ == old(self)@,
            },
    {
        if same_text(header, "Firmware revision") {
            self.firmware_revision = Some(value);
        } else if same_text(header, "Firmware date") {
            self.firmware_date = Some(value);
        } else if same_text(header, "Firmware type") {
            self.firmware_kind = Some(value);
        } else if same_text(header, "Board information") || same_text(header, "Board info") {
            self.board_info = Some(value);
        } else if same_text(header, "Craft name") {
            self.craft_name = Some(value);
        } else if same_text(header, "debug_mode") {
            match RawHeaderValue::parse(header, value) {
                Some(mode) => {
                    self.debug_mode = Some(mode);
                },
                None => return false,
            }
        } else if same_text(header, "fields_disabled_mask") {
            match parse_u32(value) {
                Some(mask) => {
                    self.disabled_fields = mask;
                },
                None => return false,
            }
        } else if same_text(header, "features") {
            match parse_bits(value) {
                Some(bits) => {
                    self.features = bits;
                },
                None => return false,
            }
        } else if same_text(header, "motor_pwm_protocol") {
            match RawHeaderValue::parse(header, value) {
                Some(protocol) => {
                    self.pwm_protocol = Some(protocol);
                },
                None => return false,
            }
        } else if same_text(header, "vbatref") {
            match parse_u16(value) {
                Some(reference) => {
                    self.vbat_reference = Some(reference);
                },
                None => return false,
            }
        } else if same_text(header, "acc_1G") {
            match parse_u16(value) {
                Some(one_g) => {
                    self.acceleration_1g = Some(one_g);
                },
                None => return false,
            }
        } else if same_text(header, "gyro.scale") || same_text(header, "gyro_scale") {
            match parse_scale(value) {
                Some(bits) => {
                    self.gyro_scale = Some(bits);
                },
                None => return false,
            }
        } else if same_text(header, "minthrottle") {
            match parse_u16(value) {
                Some(throttle) => {
                    self.min_throttle = Some(throttle);
                },
                None => return false,
            }
        } else if same_text(header, "motorOutput") {
            match MotorOutputRange::from_str(value) {
                Some(range) => {
                    self.motor_output_range = Some(range);
                },
                None => return false,
            }
        } else {
            match parse_frame_def_header(header) {
                Some((kind, property)) => self.update_frame_def(kind, property, value),
                None => if !legacy(header) {
                    let _ = self.unknown.insert(header, value);
                },
            }
        }
        true
    }
}

} // verus!
