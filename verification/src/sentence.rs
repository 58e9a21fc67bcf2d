//! The sentence-to-record decode pipeline: tokenization, checksum
//! validation, and dispatch to the binary byte layouts.
//!
//! A sentence has the shape
//! `$<KEYWORD>,<satellite_id>,<declared_length>,<hex_payload>*<hex_checksum>`;
//! the checksum byte is the XOR fold of every character between (and
//! excluding) the leading `$` and the `*`.

use vstd::prelude::*;
use crate::hexcodec::hex_decode;
use crate::hexcodec::hex_decoded;
use crate::hexcodec::is_hex_text;
use crate::layouts::fill_galileo_almanac;
use crate::layouts::fill_glonass_alamanc;
use crate::layouts::fill_glonass_ephemeris;
use crate::layouts::fill_gps_almanac;
use crate::layouts::fill_gps_ephemeris;
use crate::layouts::glonass_toe;
use crate::layouts::le16;
use crate::records::NavError;
use crate::records::RecType;
use crate::records::RecordModel;
use crate::records::SatRec;
use crate::text::check_checksum;
use crate::text::spec_parse_i32;
use crate::text::spec_parse_u16;
use crate::text::split_bytes;
use crate::text::split_on;
use crate::text::parse_i32;
use crate::text::parse_u16;
use crate::text::xor_fold;
use vstd::slice::slice_subrange;
use vstd::slice::slice_to_vec;

verus! {

/// The ASCII bytes of the almanac sentence keyword, `$PSTMALMANAC`.
pub open spec fn kw_almanac() -> Seq<u8> {
    seq![36u8, 80u8, 83u8, 84u8, 77u8, 65u8, 76u8, 77u8, 65u8, 78u8, 65u8, 67u8]
}

/// The ASCII bytes of the ephemeris sentence keyword, `$PSTMEPHEM`.
pub open spec fn kw_ephemeris() -> Seq<u8> {
    seq![36u8, 80u8, 83u8, 84u8, 77u8, 69u8, 80u8, 72u8, 69u8, 77u8]
}

/// A record with every timing field zero: what an id outside all three
/// constellation ranges decodes to. The registry never retains it.
pub open spec fn zero_record(rec_type: RecType, line: Seq<u8>) -> RecordModel {
    RecordModel { satid: 0, week: 0, toa: 0, toe: 0, toc: 0, rec_type, nmea: line }
}

/// What the binary record decoder yields for a validated payload: the field
/// extraction of the layout selected by the record kind and the
/// constellation range of `satid`.
///
/// The declared length (`len`, in hex characters of the wire form) must be
/// exactly 40 for an almanac and 64 for an ephemeris; a payload too short
/// for the selected layout is rejected the same way, so that extraction
/// never reads past the payload.
pub open spec fn spec_decode_record(
    rec_type: RecType,
    satid: u16,
    len: i32,
    bytes: Seq<u8>,
    line: Seq<u8>,
) -> Result<RecordModel, NavError> {
    if rec_type == RecType::Almanac {
        if len != 40 {
            Err(NavError::IncorrectLength)
        } else if 1 <= satid <= 32 || 33 <= satid <= 96 {
            if bytes.len() < 4 {
                Err(NavError::IncorrectLength)
            } else {
                Ok(
                    RecordModel {
                        satid: bytes[0] as u16,
                        week: le16(bytes[1], bytes[2]),
                        toa: bytes[3],
                        toe: 0,
                        toc: 0,
                        rec_type,
                        nmea: line,
                    },
                )
            }
        } else if 301 <= satid <= 336 {
            if bytes.len() < 6 {
                Err(NavError::IncorrectLength)
            } else {
                Ok(
                    RecordModel {
                        satid: le16(bytes[0], bytes[1]),
                        week: le16(bytes[3], bytes[4]),
                        toa: bytes[5],
                        toe: 0,
                        toc: 0,
                        rec_type,
                        nmea: line,
                    },
                )
            }
        } else {
            Ok(zero_record(rec_type, line))
        }
    } else {
        if len != 64 {
            Err(NavError::IncorrectLength)
        } else if 1 <= satid <= 32 {
            if bytes.len() < 6 {
                Err(NavError::IncorrectLength)
            } else {
                Ok(
                    RecordModel {
                        satid,
                        week: le16(bytes[0], bytes[1]),
                        toa: 0,
                        toe: le16(bytes[2], bytes[3]) as u32,
                        toc: le16(bytes[4], bytes[5]),
                        rec_type,
                        nmea: line,
                    },
                )
            }
        } else if 33 <= satid <= 96 {
            if bytes.len() < 5 {
                Err(NavError::IncorrectLength)
            } else {
                Ok(
                    RecordModel {
                        satid,
                        week: le16(bytes[0], bytes[1]),
                        toa: 0,
                        toe: glonass_toe(bytes[2], bytes[3], bytes[4]),
                        toc: 0,
                        rec_type,
                        nmea: line,
                    },
                )
            }
        } else {
            Ok(zero_record(rec_type, line))
        }
    }
}

/// Extracts the timing fields from a validated payload, as
/// [`spec_decode_record`] states; `line` is retained verbatim on the record.
pub fn decode_record(rec_type: RecType, satid: u16, len: i32, bytes: Vec<u8>, line: &[u8]) -> (r:
    Result<SatRec, NavError>)
    ensures
        match r {
            Ok(rec) => spec_decode_record(rec_type, satid, len, bytes@, line@) == Ok::<
                RecordModel,
                NavError,
            >(rec@),
            Err(e) => spec_decode_record(rec_type, satid, len, bytes@, line@) == Err::<
                RecordModel,
                NavError,
            >(e),
        },
{
    let ghost bv = bytes@;
    let nmea = slice_to_vec(line);
    if rec_type == RecType::Almanac {
        if len != 40 {
            return Err(NavError::IncorrectLength);
        }
        if (1 <= satid && satid <= 32) || (33 <= satid && satid <= 96) {
            if bytes.len() < 4 {
                return Err(NavError::IncorrectLength);
            }
            let g = fill_gps_almanac(bytes);
            let rec = SatRec {
                satid: g.satid as u16,
                week: g.week,
                toa: g.toa,
                toe: 0,
                toc: 0,
                rec_type,
                nmea,
            };
            proof {
                assert(spec_decode_record(rec_type, satid, len, bv, line@)->Ok_0 =~= rec@);
            }
            Ok(rec)
        } else if 301 <= satid && satid <= 336 {
            if bytes.len() < 6 {
                return Err(NavError::IncorrectLength);
            }
            let g = fill_galileo_almanac(bytes);
            let rec = SatRec {
                satid: g.satid,
                week: g.week,
                toa: g.toa,
                toe: 0,
                toc: 0,
                rec_type,
                nmea,
            };
            proof {
                assert(spec_decode_record(rec_type, satid, len, bv, line@)->Ok_0 =~= rec@);
            }
            Ok(rec)
        } else {
            let rec = SatRec { satid: 0, week: 0, toa: 0, toe: 0, toc: 0, rec_type, nmea };
            proof {
                assert(spec_decode_record(rec_type, satid, len, bv, line@)->Ok_0 =~= rec@);
            }
            Ok(rec)
        }
    } else {
        if len != 64 {
            return Err(NavError::IncorrectLength);
        }
        if 1 <= satid && satid <= 32 {
            if bytes.len() < 6 {
                return Err(NavError::IncorrectLength);
            }
            let g = fill_gps_ephemeris(bytes);
            let rec = SatRec {
                satid,
                week: g.week,
                toa: 0,
                toe: g.toe as u32,
                toc: g.toc,
                rec_type,
                nmea,
            };
            proof {
                assert(spec_decode_record(rec_type, satid, len, bv, line@)->Ok_0 =~= rec@);
            }
            Ok(rec)
        } else if 33 <= satid && satid <= 96 {
            if bytes.len() < 5 {
                return Err(NavError::IncorrectLength);
            }
            let g = fill_glonass_ephemeris(bytes);
            let rec = SatRec { satid, week: g.week, toa: 0, toe: g.toe, toc: 0, rec_type, nmea };
            proof {
                assert(spec_decode_record(rec_type, satid, len, bv, line@)->Ok_0 =~= rec@);
            }
            Ok(rec)
        } else {
            let rec = SatRec { satid: 0, week: 0, toa: 0, toe: 0, toc: 0, rec_type, nmea };
            proof {
                assert(spec_decode_record(rec_type, satid, len, bv, line@)->Ok_0 =~= rec@);
            }
            Ok(rec)
        }
    }
}

/// The text range covered by the checksum: everything after the leading `$`
/// and before the first `*`.
pub open spec fn checksum_range(line: Seq<u8>) -> Seq<u8> {
    split_on(line, 42)[0].skip(1)
}

/// What processing one line yields: either the decoded record, or the
/// classified failure. The steps, in order: split on commas into exactly 4
/// fields; match the keyword; parse the satellite id and the declared
/// length; split the last field on `*` into payload and checksum; decode
/// both from hexadecimal; verify the checksum fold; extract the fields.
pub open spec fn spec_process_line(line: Seq<u8>) -> Result<RecordModel, NavError> {
    let fields = split_on(line, 44);
    if fields.len() != 4 {
        Err(NavError::MalformedLine)
    } else if fields[0] != kw_almanac() && fields[0] != kw_ephemeris() {
        Err(NavError::UnknownRecordKeyword)
    } else {
        let rec_type = if fields[0] == kw_almanac() {
            RecType::Almanac
        } else {
            RecType::Ephemeris
        };
        if spec_parse_u16(fields[1]) is None {
            Err(NavError::InvalidSatelliteId)
        } else if spec_parse_i32(fields[2]) is None {
            Err(NavError::InvalidLength)
        } else {
            let satid = spec_parse_u16(fields[1])->Some_0;
            let len = spec_parse_i32(fields[2])->Some_0;
            let parts = split_on(fields[3], 42);
            if parts.len() != 2 {
                Err(NavError::MalformedLine)
            } else if !is_hex_text(parts[1]) || !is_hex_text(parts[0]) {
                Err(NavError::HexDecodeError)
            } else if hex_decoded(parts[1]).len() != 1 {
                Err(NavError::HexDecodeError)
            } else if xor_fold(checksum_range(line)) != hex_decoded(parts[1])[0] {
                Err(NavError::ChecksumMismatch)
            } else {
                spec_decode_record(rec_type, satid, len, hex_decoded(parts[0]), line)
            }
        }
    }
}

/// The first field of a split is the prefix of the text up to the first
/// delimiter.
proof fn lemma_split_on_first(s: Seq<u8>, d: u8)
    ensures
        split_on(s, d)[0].len() <= s.len(),
        forall|i: int|
            0 <= i < split_on(s, d)[0].len() ==> #[trigger] split_on(s, d)[0][i] == s[i] && s[i]
                != d,
    decreases s.len(),
{
    if s.len() == 0 || s[0] == d {
    } else {
        lemma_split_on_first(s.skip(1), d);
        let rest = split_on(s.skip(1), d);
        assert forall|i: int| 0 <= i < split_on(s, d)[0].len() implies #[trigger] split_on(
            s,
            d,
        )[0][i] == s[i] && s[i] != d by {
            if i > 0 {
                assert(rest[0][i - 1] == s.skip(1)[i - 1]);
            }
        }
    }
}

/// Checks whether `f` is the almanac keyword.
fn is_kw_almanac(f: &Vec<u8>) -> (r: bool)
    ensures
        r == (f@ == kw_almanac()),
{
    let r = f.len() == 12 && f[0] == 36 && f[1] == 80 && f[2] == 83 && f[3] == 84 && f[4] == 77
        && f[5] == 65 && f[6] == 76 && f[7] == 77 && f[8] == 65 && f[9] == 78 && f[10] == 65
        && f[11] == 67;
    proof {
        if r {
            assert(f@ =~= kw_almanac());
        }
        if f@ == kw_almanac() {
            assert(f@[0] == 36 && f@[1] == 80 && f@[2] == 83 && f@[3] == 84 && f@[4] == 77 && f@[5]
                == 65 && f@[6] == 76 && f@[7] == 77 && f@[8] == 65 && f@[9] == 78 && f@[10] == 65
                && f@[11] == 67);
        }
    }
    r
}

/// Checks whether `f` is the ephemeris keyword.
fn is_kw_ephemeris(f: &Vec<u8>) -> (r: bool)
    ensures
        r == (f@ == kw_ephemeris()),
{
    let r = f.len() == 10 && f[0] == 36 && f[1] == 80 && f[2] == 83 && f[3] == 84 && f[4] == 77
        && f[5] == 69 && f[6] == 80 && f[7] == 72 && f[8] == 69 && f[9] == 77;
    proof {
        if r {
            assert(f@ =~= kw_ephemeris());
        }
        if f@ == kw_ephemeris() {
            assert(f@[0] == 36 && f@[1] == 80 && f@[2] == 83 && f@[3] == 84 && f@[4] == 77 && f@[5]
                == 69 && f@[6] == 80 && f@[7] == 72 && f@[8] == 69 && f@[9] == 77);
        }
    }
    r
}

/// Tokenizes, checksum-validates and decodes one line, as
/// [`spec_process_line`] states: the decoded record on success, the
/// classified failure otherwise.
pub fn process_line(line: &[u8]) -> (r: Result<SatRec, NavError>)
    ensures
        match r {
            Ok(rec) => spec_process_line(line@) == Ok::<RecordModel, NavError>(rec@),
            Err(e) => spec_process_line(line@) == Err::<RecordModel, NavError>(e),
        },
{
    let field = split_bytes(line, 44);
    if field.len() != 4 {
        return Err(NavError::MalformedLine);
    }
    let rec_type: RecType;
    if is_kw_almanac(&field[0]) {
        rec_type = RecType::Almanac;
    } else if is_kw_ephemeris(&field[0]) {
        rec_type = RecType::Ephemeris;
    } else {
        return Err(NavError::UnknownRecordKeyword);
    }
    let satid: u16 = match parse_u16(field[1].as_slice()) {
        Some(n) => n,
        None => {
            return Err(NavError::InvalidSatelliteId);
        },
    };
    let len: i32 = match parse_i32(field[2].as_slice()) {
        Some(n) => n,
        None => {
            return Err(NavError::InvalidLength);
        },
    };
    let record = split_bytes(field[3].as_slice(), 42);
    if record.len() != 2 {
        return Err(NavError::MalformedLine);
    }
    let sum = match hex_decode(record[1].as_slice()) {
        Ok(v) => v,
        Err(_) => {
            return Err(NavError::HexDecodeError);
        },
    };
    let bytes = match hex_decode(record[0].as_slice()) {
        Ok(v) => v,
        Err(_) => {
            return Err(NavError::HexDecodeError);
        },
    };
    if sum.len() != 1 {
        return Err(NavError::HexDecodeError);
    }
    let chars = split_bytes(line, 42);
    proof {
        crate::text::lemma_split_on_nonempty(line@, 42);
        lemma_split_on_first(line@, 44);
        assert(field@[0]@ == split_on(line@, 44)[0]);
        // The keyword field is a prefix of the line, so the line starts with
        // `$`, which is not `*`: the first `*`-field is nonempty.
        assert(split_on(line@, 44)[0][0] == line@[0]);
        assert(line@[0] == 36);
        lemma_split_on_first(line@, 42);
        if split_on(line@, 42)[0].len() == 0 {
            assert(split_on(line@, 42) == seq![Seq::<u8>::empty()] + split_on(line@.skip(1), 42));
        }
        assert(split_on(line@, 42)[0].len() >= 1);
    }
    let chars0 = &chars[0];
    let covered = slice_subrange(chars0.as_slice(), 1, chars0.len());
    proof {
        assert(covered@ =~= checksum_range(line@));
    }
    match check_checksum(covered, sum[0]) {
        Ok(_) => (),
        Err(e) => {
            return Err(e);
        },
    }
    decode_record(rec_type, satid, len, bytes, line)
}

/// Decoder determinism: extracting fields from the same payload bytes twice
/// yields bit-identical field values, whatever the kind and id. (The decoder
/// is lossy — only the tabulated fields are extracted — so decoding is not
/// required to round-trip to the original bytes.)
pub proof fn lemma_decode_deterministic(
    rec_type: RecType,
    satid: u16,
    len: i32,
    b1: Seq<u8>,
    b2: Seq<u8>,
    line: Seq<u8>,
)
    requires
        b1 == b2,
    ensures
        spec_decode_record(rec_type, satid, len, b1, line) == spec_decode_record(
            rec_type,
            satid,
            len,
            b2,
            line,
        ),
{
}

/// Validator round trip: whenever a line is accepted, the XOR fold of the
/// text between the leading `$` and the `*` is exactly the transmitted
/// checksum byte.
pub proof fn lemma_checksum_round_trip(line: Seq<u8>)
    requires
        spec_process_line(line) is Ok,
    ensures
        xor_fold(checksum_range(line)) == hex_decoded(split_on(split_on(line, 44)[3], 42)[1])[0],
{
}

} // verus!
