//! Header section and field decoding of blackbox flight logs.
pub mod data;
pub mod date;
pub mod error;
pub mod firmware;
pub mod firmware_laws;
pub mod flight_mode;
pub mod frame;
pub mod frame_laws;
pub mod header_laws;
pub mod header_map;
pub mod headers;
pub mod interval_laws;
pub mod intervals;
pub mod log_laws;
pub mod parser;
pub mod reader;
pub mod state;
pub mod tables;
pub mod text;
pub mod text_laws;
pub mod units;
pub mod view_laws;

pub use data::{DataParser, FieldFilter, FilterSet};
pub use date::DateTime;
pub use error::{ParseError, ParseResult};
pub use firmware::{Firmware, FirmwareVersion, InternalFirmware};
pub use flight_mode::{FlightMode, FlightModeSet};
pub use frame::{DataFrameKind, Encoding, Predictor, Unit};
pub use header_map::HeaderMap;
pub use headers::Headers;
pub use reader::Reader;
pub use tables::{DebugMode, DisabledFields, FeatureSet, PwmProtocol};
pub use units::{Flag, FlagSet};
