//! The blocks that make up a frame: satellite counts, numeric measurements,
//! latitude/longitude and the UTC time of the sample.
use vstd::prelude::*;

use crate::bytes::{le_i32_at, le_u32_at, le_u64_at, read_le_i32, read_le_u32, read_le_u64};
use crate::error::{size_mismatch, DecodeError};
use crate::text::char_text;

verus! {

/// Width of the visible-satellite block.
pub const SATELLITES_LEN: usize = 6;

/// Width of a numeric measurement block.
pub const NUMERIC_LEN: usize = 24;

/// Width of a latitude or longitude block.
pub const LAT_LONG_LEN: usize = 16;

/// Width of the UTC time block.
pub const UTC_LEN: usize = 16;

/// Offset of the unit byte inside a numeric measurement block.
pub const UNIT_OFFSET: usize = 16;

/// Offset of the hemisphere byte inside a latitude or longitude block.
pub const INDICATOR_OFFSET: usize = 12;

/// Visible satellites per constellation.
#[derive(Debug, Clone, Copy, PartialEq, Eq, Structural)]
pub struct GnssAvailableSatellites {
    pub gp: u8,
    pub gl: u8,
    pub ga: u8,
    pub gb: u8,
    pub gi: u8,
    pub gq: u8,
}

/// The six counts, in the order of the block's bytes.
pub open spec fn satellites_of(b: Seq<u8>) -> GnssAvailableSatellites {
    GnssAvailableSatellites { gp: b[0], gl: b[1], ga: b[2], gb: b[3], gi: b[4], gq: b[5] }
}

/// What decoding `b` as a visible-satellite block gives.
pub open spec fn satellites_result(b: Seq<u8>) -> Result<GnssAvailableSatellites, DecodeError> {
    if b.len() != SATELLITES_LEN {
        Err(size_mismatch(SATELLITES_LEN, b.len()))
    } else {
        Ok(satellites_of(b))
    }
}

impl GnssAvailableSatellites {
    /// Decodes a block of exactly `SATELLITES_LEN` bytes, one count per byte.
    pub fn from_bytes(raw_bytes: &[u8]) -> (r: Result<Self, DecodeError>)
        ensures
            r == satellites_result(raw_bytes@),
    {
        if raw_bytes.len() != SATELLITES_LEN {
            return Err(DecodeError::SizeMismatch { expected: SATELLITES_LEN, actual: raw_bytes.len() });
        }
        Ok(GnssAvailableSatellites {
            gp: raw_bytes[0],
            gl: raw_bytes[1],
            ga: raw_bytes[2],
            gb: raw_bytes[3],
            gi: raw_bytes[4],
            gq: raw_bytes[5],
        })
    }
}

/// A scalar that may be unavailable, with a one-character unit.
/// The value is kept as the bit pattern of a little-endian IEEE-754 double,
/// passed through unchanged (NaN and infinities included).
#[derive(Debug, Clone, Copy, PartialEq, Eq, Structural)]
pub struct GnssNumericMeasurement {
    pub is_available: bool,
    pub value_bits: u64,
    pub unit_of_measurement: char,
}

/// The measurement laid out in `b`, whose unit byte is ASCII.
pub open spec fn numeric_of(b: Seq<u8>) -> GnssNumericMeasurement {
    GnssNumericMeasurement {
        is_available: b[0] != 0,
        value_bits: le_u64_at(b, 8),
        unit_of_measurement: b[UNIT_OFFSET as int] as char,
    }
}

/// What decoding `b` as a numeric measurement block gives.
pub open spec fn numeric_result(b: Seq<u8>) -> Result<GnssNumericMeasurement, DecodeError> {
    if b.len() != NUMERIC_LEN {
        Err(size_mismatch(NUMERIC_LEN, b.len()))
    } else if b[UNIT_OFFSET as int] >= 0x80 {
        Err(DecodeError::InvalidCharacter(b[UNIT_OFFSET as int]))
    } else {
        Ok(numeric_of(b))
    }
}

impl GnssNumericMeasurement {
    /// Decodes a block of exactly `NUMERIC_LEN` bytes: availability at 0,
    /// value at 8..16, unit at 16; the other bytes are padding.
    pub fn from_bytes(raw_bytes: &[u8]) -> (r: Result<Self, DecodeError>)
        ensures
            r == numeric_result(raw_bytes@),
    {
        if raw_bytes.len() != NUMERIC_LEN {
            return Err(DecodeError::SizeMismatch { expected: NUMERIC_LEN, actual: raw_bytes.len() });
        }
        let unit = raw_bytes[UNIT_OFFSET];
        if unit >= 0x80 {
            return Err(DecodeError::InvalidCharacter(unit));
        }
        Ok(GnssNumericMeasurement {
            is_available: raw_bytes[0] != 0,
            value_bits: read_le_u64(raw_bytes, 8),
            unit_of_measurement: unit as char,
        })
    }
}

/// Hemisphere of a latitude (`N`, `S`) or a longitude (`E`, `W`).
#[derive(Debug, Clone, Copy, PartialEq, Eq, Structural)]
pub enum GnssLatLongIndicator {
    N,
    S,
    E,
    W,
}

/// The hemisphere that the byte `b` names, if it is the ASCII code of `N`,
/// `S`, `E` or `W`.
pub open spec fn indicator_of(b: u8) -> Option<GnssLatLongIndicator> {
    if b == 0x4e {  // 'N'
        Some(GnssLatLongIndicator::N)
    } else if b == 0x53 {  // 'S'
        Some(GnssLatLongIndicator::S)
    } else if b == 0x45 {  // 'E'
        Some(GnssLatLongIndicator::E)
    } else if b == 0x57 {  // 'W'
        Some(GnssLatLongIndicator::W)
    } else {
        None
    }
}

/// The letter that names the hemisphere.
pub open spec fn indicator_char(i: GnssLatLongIndicator) -> char {
    match i {
        GnssLatLongIndicator::N => 'N',
        GnssLatLongIndicator::S => 'S',
        GnssLatLongIndicator::E => 'E',
        GnssLatLongIndicator::W => 'W',
    }
}

impl GnssLatLongIndicator {
    /// The hemisphere named by an ASCII letter; any other byte is refused.
    pub fn from_byte(b: u8) -> (r: Result<Self, DecodeError>)
        ensures
            r == (match indicator_of(b) {
                Some(i) => Ok(i),
                None => Err(DecodeError::InvalidEnumeration(b)),
            }),
    {
        match b {
            0x4e => Ok(GnssLatLongIndicator::N),  // 'N'
            0x53 => Ok(GnssLatLongIndicator::S),  // 'S'
            0x45 => Ok(GnssLatLongIndicator::E),  // 'E'
            0x57 => Ok(GnssLatLongIndicator::W),  // 'W'
            _ => Err(DecodeError::InvalidEnumeration(b)),
        }
    }

    /// The one-letter name of the hemisphere.
    pub fn to_string(&self) -> (r: String)
        ensures
            r@ == seq![indicator_char(*self)],
    {
        let c = match self {
            GnssLatLongIndicator::N => 'N',
            GnssLatLongIndicator::S => 'S',
            GnssLatLongIndicator::E => 'E',
            GnssLatLongIndicator::W => 'W',
        };
        char_text(c)
    }
}

/// A latitude or longitude in degrees and minutes, with its hemisphere.
/// The minutes are kept as the bit pattern of a little-endian IEEE-754 single.
#[derive(Debug, Clone, Copy, PartialEq, Eq, Structural)]
pub struct GnssLatLongMeasurement {
    pub is_available: bool,
    pub degrees: i32,
    pub minutes_bits: u32,
    pub indicator: GnssLatLongIndicator,
}

/// What decoding `b` as a latitude or longitude block gives.
pub open spec fn lat_long_result(b: Seq<u8>) -> Result<GnssLatLongMeasurement, DecodeError> {
    if b.len() != LAT_LONG_LEN {
        Err(size_mismatch(LAT_LONG_LEN, b.len()))
    } else {
        match indicator_of(b[INDICATOR_OFFSET as int]) {
            None => Err(DecodeError::InvalidEnumeration(b[INDICATOR_OFFSET as int])),
            Some(indicator) => Ok(
                GnssLatLongMeasurement {
                    is_available: b[0] != 0,
                    degrees: le_i32_at(b, 4),
                    minutes_bits: le_u32_at(b, 8),
                    indicator,
                },
            ),
        }
    }
}

impl GnssLatLongMeasurement {
    /// Decodes a block of exactly `LAT_LONG_LEN` bytes: availability at 0,
    /// degrees at 4..8, minutes at 8..12, hemisphere at 12; the other bytes
    /// are padding.
    pub fn from_bytes(raw_bytes: &[u8]) -> (r: Result<Self, DecodeError>)
        ensures
            r == lat_long_result(raw_bytes@),
    {
        if raw_bytes.len() != LAT_LONG_LEN {
            return Err(DecodeError::SizeMismatch { expected: LAT_LONG_LEN, actual: raw_bytes.len() });
        }
        let indicator = match GnssLatLongIndicator::from_byte(raw_bytes[INDICATOR_OFFSET]) {
            Ok(i) => i,
            Err(e) => return Err(e),
        };
        Ok(GnssLatLongMeasurement {
            is_available: raw_bytes[0] != 0,
            degrees: read_le_i32(raw_bytes, 4),
            minutes_bits: read_le_u32(raw_bytes, 8),
            indicator,
        })
    }
}

/// Date and time of a sample, each part as the raw byte the receiver wrote
/// (the year included, with no epoch applied). The seconds are kept as the
/// bit pattern of a little-endian IEEE-754 single.
#[derive(Debug, Clone, Copy, PartialEq, Eq, Structural)]
pub struct UtcDateTime {
    pub year: u8,
    pub month: u8,
    pub day: u8,
    pub hour: u8,
    pub minute: u8,
    pub second_bits: u32,
    pub is_available: bool,
}

/// The time laid out in `b`.
pub open spec fn utc_of(b: Seq<u8>) -> UtcDateTime {
    UtcDateTime {
        year: b[0],
        month: b[1],
        day: b[2],
        hour: b[3],
        minute: b[4],
        second_bits: le_u32_at(b, 8),
        is_available: b[12] != 0,
    }
}

/// What decoding `b` as a UTC time block gives.
pub open spec fn utc_result(b: Seq<u8>) -> Result<UtcDateTime, DecodeError> {
    if b.len() != UTC_LEN {
        Err(size_mismatch(UTC_LEN, b.len()))
    } else {
        Ok(utc_of(b))
    }
}

impl UtcDateTime {
    /// Decodes a block of exactly `UTC_LEN` bytes: year, month, day, hour and
    /// minute at 0..5, seconds at 8..12, availability at 12; the other bytes
    /// are padding.
    pub fn from_bytes(raw_bytes: &[u8]) -> (r: Result<Self, DecodeError>)
        ensures
            r == utc_result(raw_bytes@),
    {
        if raw_bytes.len() != UTC_LEN {
            return Err(DecodeError::SizeMismatch { expected: UTC_LEN, actual: raw_bytes.len() });
        }
        Ok(UtcDateTime {
            year: raw_bytes[0],
            month: raw_bytes[1],
            day: raw_bytes[2],
            hour: raw_bytes[3],
            minute: raw_bytes[4],
            second_bits: read_le_u32(raw_bytes, 8),
            is_available: raw_bytes[12] != 0,
        })
    }
}

} // verus!
