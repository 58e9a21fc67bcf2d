//! The record type produced by the decode pipeline, its mathematical model,
//! and the error taxonomy of the pipeline.

use vstd::prelude::*;

verus! {

/// The kind of a timing record. A record's kind is fixed at construction;
/// records of different kinds are never compared.
#[derive(Debug, Clone, Copy, PartialEq, Eq, Structural)]
pub enum RecType {
    Almanac,
    Ephemeris,
}

/// Why a line, or an offer to the registry, was rejected. Every variant is
/// recoverable: the offending line is skipped and processing continues.
#[derive(Debug, Clone, Copy, PartialEq, Eq, Structural)]
pub enum NavError {
    /// The line does not split into exactly the expected fields.
    MalformedLine,
    /// The first field is neither recognized keyword.
    UnknownRecordKeyword,
    /// The satellite-id field does not parse as an unsigned integer.
    InvalidSatelliteId,
    /// The declared-length field does not parse as a signed integer.
    InvalidLength,
    /// The payload or the checksum field is not valid hexadecimal, or the
    /// checksum does not decode to exactly one byte.
    HexDecodeError,
    /// The checksum byte does not match the XOR fold of the covered text.
    ChecksumMismatch,
    /// The declared length does not match the contract of the record kind,
    /// or the decoded payload is too short for its byte layout.
    IncorrectLength,
    /// A registry offer compared records of different kinds.
    IncomparableKinds,
}

/// A decoded satellite timing record: the unit of merge.
///
/// `satid` ranges partition the constellation: 1-32 GPS, 33-96 GLONASS,
/// 301-336 Galileo. Id 0 marks a record decoded from an unsupported id
/// range; the registry never retains such a record. `nmea` holds the
/// original sentence verbatim, for re-emission.
#[derive(Debug)]
pub struct SatRec {
    pub satid: u16,
    pub week: u16,
    pub toa: u8,
    pub toe: u32,
    pub toc: u16,
    pub rec_type: RecType,
    pub nmea: Vec<u8>,
}

/// The mathematical model of a [`SatRec`]: the same fields, with the raw
/// sentence as a sequence.
#[verifier::ext_equal]
pub ghost struct RecordModel {
    pub satid: u16,
    pub week: u16,
    pub toa: u8,
    pub toe: u32,
    pub toc: u16,
    pub rec_type: RecType,
    pub nmea: Seq<u8>,
}

impl View for SatRec {
    type V = RecordModel;

    open spec fn view(&self) -> RecordModel {
        RecordModel {
            satid: self.satid,
            week: self.week,
            toa: self.toa,
            toe: self.toe,
            toc: self.toc,
            rec_type: self.rec_type,
            nmea: self.nmea@,
        }
    }
}

} // verus!
