//! Fatal errors of the header section.
use vstd::prelude::*;
use vstd::string::*;

use crate::firmware::Firmware;
use crate::frame::DataFrameKind;

verus! {

pub type ParseResult<T> = Result<T, ParseError>;

/// A fatal error encountered while parsing the headers of a log.
#[derive(Debug, Clone)]
pub enum ParseError {
    /// The log uses a data format version that is unsupported or could not be
    /// parsed.
    UnsupportedDataVersion,
    /// The `Firmware revision` header could not be parsed, or is from an
    /// unsupported firmware.
    InvalidFirmware(String),
    /// The log comes from an unsupported version of a known firmware.
    UnsupportedFirmwareVersion(Firmware),
    /// Could not parse the value in header `header`.
    InvalidHeader { header: String, value: String },
    /// Did not find a required header.
    MissingHeader,
    /// The file ended before the start of the data section.
    IncompleteHeaders,
    /// The definition for frame type `frame` lacks a required field.
    MissingField { frame: DataFrameKind, field: String },
    /// Unknown unrecoverable error in the frame definition.
    MalformedFrameDef(DataFrameKind),
}

/// What a [`ParseError`] says.
pub enum ErrorView {
    UnsupportedDataVersion,
    InvalidFirmware(Seq<char>),
    UnsupportedFirmwareVersion(Firmware),
    InvalidHeader { header: Seq<char>, value: Seq<char> },
    MissingHeader,
    IncompleteHeaders,
    MissingField { frame: DataFrameKind, field: Seq<char> },
    MalformedFrameDef(DataFrameKind),
}

impl View for ParseError {
    type V = ErrorView;

    open spec fn view(&self) -> ErrorView {
        match self {
            ParseError::UnsupportedDataVersion => ErrorView::UnsupportedDataVersion,
            ParseError::InvalidFirmware(firmware) => ErrorView::InvalidFirmware(firmware@),
            ParseError::UnsupportedFirmwareVersion(firmware) =>
                ErrorView::UnsupportedFirmwareVersion(*firmware),
            ParseError::InvalidHeader { header, value } => ErrorView::InvalidHeader {
                header: header@,
                value: value@,
            },
            ParseError::MissingHeader => ErrorView::MissingHeader,
            ParseError::IncompleteHeaders => ErrorView::IncompleteHeaders,
            ParseError::MissingField { frame, field } => ErrorView::MissingField {
                frame: *frame,
                field: field@,
            },
            ParseError::MalformedFrameDef(frame) => ErrorView::MalformedFrameDef(*frame),
        }
    }
}

impl ErrorView {
    /// The error in words.
    pub open spec fn message(self) -> Seq<char> {
        match self {
            ErrorView::UnsupportedDataVersion => "unsupported or invalid data version"@,
            ErrorView::InvalidFirmware(firmware) => "could not parse firmware: `"@ + firmware
                + "`"@,
            ErrorView::UnsupportedFirmwareVersion(firmware) => "logs from "@ + firmware.spec_name()
                + " v"@ + firmware.spec_version().text() + " are not supported"@,
            ErrorView::InvalidHeader { header, value } => "invalid value for header `"@ + header
                + "`: `"@ + value + "`"@,
            ErrorView::MissingHeader => "one or more headers required for parsing are missing"@,
            ErrorView::IncompleteHeaders => "end of file found before data section"@,
            ErrorView::MissingField { frame, field } => "missing field `"@ + field + "` in `"@
                + frame.spec_name() + "` frame definition"@,
            ErrorView::MalformedFrameDef(frame) => "malformed "@ + frame.spec_name()
                + " frame definition"@,
        }
    }
}

impl ParseError {
    /// The error in words.
    pub fn to_string(&self) -> (message: String)
        ensures
            message@ == self@.message(),
    {
        match self {
            ParseError::UnsupportedDataVersion => "unsupported or invalid data version".to_owned(),
            ParseError::InvalidFirmware(firmware) => {
                let mut message = "could not parse firmware: `".to_owned();
                message.append(firmware.as_str());
                message.append("`");
                message
            },
            ParseError::UnsupportedFirmwareVersion(firmware) => {
                let version = firmware.version().to_string();
                let mut message = "logs from ".to_owned();
                message.append(firmware.name());
                message.append(" v");
                message.append(version.as_str());
                message.append(" are not supported");
                message
            },
            ParseError::InvalidHeader { header, value } => {
                let mut message = "invalid value for header `".to_owned();
                message.append(header.as_str());
                message.append("`: `");
                message.append(value.as_str());
                message.append("`");
                message
            },
            ParseError::MissingHeader => {
                "one or more headers required for parsing are missing".to_owned()
            },
            ParseError::IncompleteHeaders => "end of file found before data section".to_owned(),
            ParseError::MissingField { frame, field } => {
                let mut message = "missing field `".to_owned();
                message.append(field.as_str());
                message.append("` in `");
                message.append(frame.name());
                message.append("` frame definition");
                message
            },
            ParseError::MalformedFrameDef(frame) => {
                let mut message = "malformed ".to_owned();
                message.append(frame.name());
                message.append(" frame definition");
                message
            },
        }
    }
}

} // verus!
