//! The freshness comparator: a signed ordering signal over two records of
//! the same kind, used by the registry to decide which record is newer.
//!
//! Almanac records order by week, then time of applicability; ephemeris
//! records by week, then time of ephemeris, then time of clock. Only the
//! sign of the signal carries meaning.

use vstd::prelude::*;
use crate::records::NavError;
use crate::records::RecType;
use crate::records::RecordModel;
use crate::records::SatRec;

verus! {

/// The almanac ordering signal: positive when `a` is newer than `b`,
/// negative when older, zero when equally recent.
pub open spec fn spec_almanac_cmp(a: RecordModel, b: RecordModel) -> i8 {
    if a.week > b.week {
        1i8
    } else if a.week < b.week {
        -1i8
    } else if a.toa > b.toa {
        2i8
    } else if a.toa < b.toa {
        -2i8
    } else {
        0i8
    }
}

/// The ephemeris ordering signal: week, then time of ephemeris, then time
/// of clock.
pub open spec fn spec_ephemeris_cmp(a: RecordModel, b: RecordModel) -> i8 {
    if a.week > b.week {
        1i8
    } else if a.week < b.week {
        -1i8
    } else if a.toe > b.toe {
        2i8
    } else if a.toe < b.toe {
        -2i8
    } else if a.toc > b.toc {
        3i8
    } else if a.toc < b.toc {
        -3i8
    } else {
        0i8
    }
}

/// The ordering signal for two records of the same kind.
pub open spec fn spec_cmp(a: RecordModel, b: RecordModel) -> i8
    recommends
        a.rec_type == b.rec_type,
{
    if a.rec_type == RecType::Almanac {
        spec_almanac_cmp(a, b)
    } else {
        spec_ephemeris_cmp(a, b)
    }
}

/// Whether `a` is strictly newer than `b`; only such a candidate replaces a
/// stored record.
pub open spec fn spec_newer(a: RecordModel, b: RecordModel) -> bool {
    spec_cmp(a, b) > 0
}

/// Compares two almanac records by week, then time of applicability, as
/// [`spec_almanac_cmp`] states; records of different kinds are rejected.
pub fn compare_almanac_date(rec1: &SatRec, rec2: &SatRec) -> (r: Result<i8, NavError>)
    ensures
        r == if rec1.rec_type != rec2.rec_type {
            Err::<i8, NavError>(NavError::IncomparableKinds)
        } else {
            Ok::<i8, NavError>(spec_almanac_cmp(rec1@, rec2@))
        },
{
    if rec1.rec_type != rec2.rec_type {
        return Err(NavError::IncomparableKinds);
    }
    if rec1.week > rec2.week {
        return Ok(1);
    }
    if rec1.week < rec2.week {
        return Ok(-1);
    }
    if rec1.toa > rec2.toa {
        return Ok(2);
    }
    if rec1.toa < rec2.toa {
        return Ok(-2);
    }
    Ok(0)
}

/// Compares two ephemeris records by week, then time of ephemeris, then
/// time of clock, as [`spec_ephemeris_cmp`] states; records of different
/// kinds are rejected.
pub fn compare_ephemeris_date(rec1: &SatRec, rec2: &SatRec) -> (r: Result<i8, NavError>)
    ensures
        r == if rec1.rec_type != rec2.rec_type {
            Err::<i8, NavError>(NavError::IncomparableKinds)
        } else {
            Ok::<i8, NavError>(spec_ephemeris_cmp(rec1@, rec2@))
        },
{
    if rec1.rec_type != rec2.rec_type {
        return Err(NavError::IncomparableKinds);
    }
    if rec1.week > rec2.week {
        return Ok(1);
    }
    if rec1.week < rec2.week {
        return Ok(-1);
    }
    if rec1.toe > rec2.toe {
        return Ok(2);
    }
    if rec1.toe < rec2.toe {
        return Ok(-2);
    }
    if rec1.toc > rec2.toc {
        return Ok(3);
    }
    if rec1.toc < rec2.toc {
        return Ok(-3);
    }
    Ok(0)
}

/// Compares two records of the same kind with the ordering of that kind, as
/// [`spec_cmp`] states; records of different kinds are rejected.
pub fn compare_date(rec1: &SatRec, rec2: &SatRec) -> (r: Result<i8, NavError>)
    ensures
        r == if rec1.rec_type != rec2.rec_type {
            Err::<i8, NavError>(NavError::IncomparableKinds)
        } else {
            Ok::<i8, NavError>(spec_cmp(rec1@, rec2@))
        },
{
    if rec1.rec_type != rec2.rec_type {
        return Err(NavError::IncomparableKinds);
    }
    if rec1.rec_type == RecType::Almanac {
        return compare_almanac_date(rec1, rec2);
    }
    compare_ephemeris_date(rec1, rec2)
}

/// The comparator is transitive on "newer" within one kind: part of its
/// strict weak ordering.
pub proof fn lemma_cmp_transitive(a: RecordModel, b: RecordModel, c: RecordModel)
    requires
        a.rec_type == b.rec_type,
        b.rec_type == c.rec_type,
        spec_newer(a, b),
        spec_newer(b, c),
    ensures
        spec_newer(a, c),
{
}

/// A record compared with itself is always equally recent: the comparator
/// is irreflexive on "newer".
pub proof fn lemma_cmp_self_equal(a: RecordModel)
    ensures
        spec_cmp(a, a) == 0,
{
}

/// The comparator is asymmetric: when `a` is newer than `b`, `b` is older
/// than `a`.
pub proof fn lemma_cmp_asymmetric(a: RecordModel, b: RecordModel)
    requires
        a.rec_type == b.rec_type,
        spec_newer(a, b),
    ensures
        spec_cmp(b, a) < 0,
{
}

} // verus!
