//! Constellation- and kind-specific byte layouts.
//!
//! Each decoded payload is read with a layout selected by the record kind
//! and the constellation inferred from the satellite id. Multi-byte values
//! are little-endian, assembled by summing shifted byte values; the shift
//! amounts are fixed and below the target width, so no assembled value can
//! overflow its field.

use vstd::prelude::*;
use vstd::slice::slice_subrange;
use vstd::slice::slice_to_vec;

verus! {

/// A GPS almanac payload: satellite id in byte 0, week in bytes 1-2
/// (little-endian), time of applicability in byte 3.
#[derive(Debug)]
pub struct GpsAlmanac {
    pub satid: u8,
    pub week: u16,
    pub toa: u8,
    pub rem: Vec<u8>,
}

/// A GPS ephemeris payload: week in bytes 0-1, time of ephemeris in bytes
/// 2-3, time of clock in bytes 4-5, all little-endian.
#[derive(Debug)]
pub struct GpsEphemeris {
    pub week: u16,
    pub toe: u16,
    pub toc: u16,
    pub rem: Vec<u8>,
}

/// A GLONASS almanac payload; same field layout as a GPS almanac.
#[derive(Debug)]
pub struct GlonassAlmanac {
    pub satid: u8,
    pub week: u16,
    pub toa: u8,
    pub rem: Vec<u8>,
}

/// A GLONASS ephemeris payload: week in bytes 0-1, time of ephemeris
/// accumulated from bytes 2-4 with shifts of 12, 4 and 0 bits.
#[derive(Debug)]
pub struct GlonassEphemeris {
    pub week: u16,
    pub toe: u32,
    pub rem: Vec<u8>,
}

/// A Galileo almanac payload: satellite id in bytes 0-1, a secondary
/// space-vehicle id in byte 2, week in bytes 3-4, time of applicability in
/// byte 5.
#[derive(Debug)]
pub struct GalileoAlmanac {
    pub satid: u16,
    pub svid: u8,
    pub week: u16,
    pub toa: u8,
    pub rem: Vec<u8>,
}

/// A 16-bit little-endian value: `hi` shifted by 8 bits plus `lo`.
pub open spec fn le16(lo: u8, hi: u8) -> u16 {
    (hi * 256 + lo) as u16
}

impl GpsAlmanac {
    /// Reads a GPS almanac layout out of `bytes`; the remainder after the
    /// fixed fields is kept verbatim.
    pub fn fill(bytes: Vec<u8>) -> (r: GpsAlmanac)
        requires
            bytes@.len() >= 4,
        ensures
            r.satid == bytes@[0],
            r.week == le16(bytes@[1], bytes@[2]),
            r.toa == bytes@[3],
            r.rem@ == bytes@.skip(4),
    {
        let satid = bytes[0];
        let week: u16 = (bytes[2] as u16) * 256 + (bytes[1] as u16);
        let toa = bytes[3];
        let rem = slice_to_vec(slice_subrange(bytes.as_slice(), 4, bytes.len()));
        proof {
            assert(bytes@.subrange(4, bytes@.len() as int) =~= bytes@.skip(4));
        }
        GpsAlmanac { satid, week, toa, rem }
    }
}

/// Reads a GPS almanac layout out of `bytes`, as [`GpsAlmanac::fill`] does.
pub fn fill_gps_almanac(bytes: Vec<u8>) -> (r: GpsAlmanac)
    requires
        bytes@.len() >= 4,
    ensures
        r.satid == bytes@[0],
        r.week == le16(bytes@[1], bytes@[2]),
        r.toa == bytes@[3],
        r.rem@ == bytes@.skip(4),
{
    GpsAlmanac::fill(bytes)
}

impl GpsEphemeris {
    /// Reads a GPS ephemeris layout out of `bytes`; the remainder starts
    /// right after the time-of-clock field.
    pub fn fill(bytes: Vec<u8>) -> (r: GpsEphemeris)
        requires
            bytes@.len() >= 6,
        ensures
            r.week == le16(bytes@[0], bytes@[1]),
            r.toe == le16(bytes@[2], bytes@[3]),
            r.toc == le16(bytes@[4], bytes@[5]),
            r.rem@ == bytes@.skip(6),
    {
        let week: u16 = (bytes[1] as u16) * 256 + (bytes[0] as u16);
        let toe: u16 = (bytes[3] as u16) * 256 + (bytes[2] as u16);
        let toc: u16 = (bytes[5] as u16) * 256 + (bytes[4] as u16);
        let rem = slice_to_vec(slice_subrange(bytes.as_slice(), 6, bytes.len()));
        proof {
            assert(bytes@.subrange(6, bytes@.len() as int) =~= bytes@.skip(6));
        }
        GpsEphemeris { week, toe, toc, rem }
    }
}

/// Reads a GPS ephemeris layout out of `bytes`. Unlike [`GpsEphemeris::fill`],
/// the remainder here starts one byte early, at offset 5, and so overlaps the
/// high byte of the time-of-clock field: the historical wire-compatible slice,
/// kept exactly as transmitted rather than corrected. The three scalar fields
/// are unaffected.
pub fn fill_gps_ephemeris(bytes: Vec<u8>) -> (r: GpsEphemeris)
    requires
        bytes@.len() >= 6,
    ensures
        r.week == le16(bytes@[0], bytes@[1]),
        r.toe == le16(bytes@[2], bytes@[3]),
        r.toc == le16(bytes@[4], bytes@[5]),
        r.rem@ == bytes@.skip(5),
{
    let week: u16 = (bytes[1] as u16) * 256 + (bytes[0] as u16);
    let toe: u16 = (bytes[3] as u16) * 256 + (bytes[2] as u16);
    let toc: u16 = (bytes[5] as u16) * 256 + (bytes[4] as u16);
    let rem = slice_to_vec(slice_subrange(bytes.as_slice(), 5, bytes.len()));
    proof {
        assert(bytes@.subrange(5, bytes@.len() as int) =~= bytes@.skip(5));
    }
    GpsEphemeris { week, toe, toc, rem }
}

/// Reads a GLONASS almanac layout out of `bytes`; the layout matches the GPS
/// almanac one.
pub fn fill_glonass_alamanc(bytes: Vec<u8>) -> (r: GlonassAlmanac)
    requires
        bytes@.len() >= 4,
    ensures
        r.satid == bytes@[0],
        r.week == le16(bytes@[1], bytes@[2]),
        r.toa == bytes@[3],
        r.rem@ == bytes@.skip(4),
{
    let satid = bytes[0];
    let week: u16 = (bytes[2] as u16) * 256 + (bytes[1] as u16);
    let toa = bytes[3];
    let rem = slice_to_vec(slice_subrange(bytes.as_slice(), 4, bytes.len()));
    proof {
        assert(bytes@.subrange(4, bytes@.len() as int) =~= bytes@.skip(4));
    }
    GlonassAlmanac { satid, week, toa, rem }
}

/// The GLONASS time-of-ephemeris accumulation: byte 3 shifted by 12 bits,
/// byte 2 shifted by 4 bits, byte 4 unshifted.
pub open spec fn glonass_toe(b2: u8, b3: u8, b4: u8) -> u32 {
    (b3 * 4096 + b2 * 16 + b4) as u32
}

/// Reads a GLONASS ephemeris layout out of `bytes`.
pub fn fill_glonass_ephemeris(bytes: Vec<u8>) -> (r: GlonassEphemeris)
    requires
        bytes@.len() >= 5,
    ensures
        r.week == le16(bytes@[0], bytes@[1]),
        r.toe == glonass_toe(bytes@[2], bytes@[3], bytes@[4]),
        r.rem@ == bytes@.skip(5),
{
    let week: u16 = (bytes[1] as u16) * 256 + (bytes[0] as u16);
    let toe: u32 = (bytes[3] as u32) * 4096 + (bytes[2] as u32) * 16 + (bytes[4] as u32);
    let rem = slice_to_vec(slice_subrange(bytes.as_slice(), 5, bytes.len()));
    proof {
        assert(bytes@.subrange(5, bytes@.len() as int) =~= bytes@.skip(5));
    }
    GlonassEphemeris { week, toe, rem }
}

/// Reads a Galileo almanac layout out of `bytes`; the satellite id itself is
/// a 16-bit little-endian field of the payload.
pub fn fill_galileo_almanac(bytes: Vec<u8>) -> (r: GalileoAlmanac)
    requires
        bytes@.len() >= 6,
    ensures
        r.satid == le16(bytes@[0], bytes@[1]),
        r.svid == bytes@[2],
        r.week == le16(bytes@[3], bytes@[4]),
        r.toa == bytes@[5],
        r.rem@ == bytes@.skip(6),
{
    let satid: u16 = (bytes[1] as u16) * 256 + (bytes[0] as u16);
    let svid = bytes[2];
    let week: u16 = (bytes[4] as u16) * 256 + (bytes[3] as u16);
    let toa = bytes[5];
    let rem = slice_to_vec(slice_subrange(bytes.as_slice(), 6, bytes.len()));
    proof {
        assert(bytes@.subrange(6, bytes@.len() as int) =~= bytes@.skip(6));
    }
    GalileoAlmanac { satid, svid, week, toa, rem }
}

} // verus!
