use satnav::compare::compare_almanac_date;
use satnav::compare::compare_date;
use satnav::compare::compare_ephemeris_date;
use satnav::layouts::fill_galileo_almanac;
use satnav::layouts::fill_glonass_alamanc;
use satnav::layouts::fill_glonass_ephemeris;
use satnav::layouts::fill_gps_almanac;
use satnav::layouts::fill_gps_ephemeris;
use satnav::layouts::GpsAlmanac;
use satnav::layouts::GpsEphemeris;
use satnav::records::NavError;
use satnav::records::RecType;
use satnav::records::SatRec;

fn rec(rec_type: RecType, week: u16, toa: u8, toe: u32, toc: u16) -> SatRec {
    SatRec {
        satid: 1,
        week,
        toa,
        toe,
        toc,
        rec_type,
        nmea: Vec::new(),
    }
}

#[test]
fn gps_almanac_layout() {
    let g = fill_gps_almanac(vec![5, 100, 0, 7, 9, 8]);
    assert_eq!(g.satid, 5);
    assert_eq!(g.week, 100);
    assert_eq!(g.toa, 7);
    assert_eq!(g.rem, vec![9, 8]);

    let m = GpsAlmanac::fill(vec![5, 100, 0, 7, 9, 8]);
    assert_eq!(m.satid, 5);
    assert_eq!(m.week, 100);
    assert_eq!(m.toa, 7);
    assert_eq!(m.rem, vec![9, 8]);
}

#[test]
fn gps_almanac_week_high_byte() {
    let g = fill_gps_almanac(vec![1, 0xff, 0xff, 0]);
    assert_eq!(g.week, 0xffff);
}

#[test]
fn gps_ephemeris_layout_and_remainder_overlap() {
    let bytes = vec![1, 2, 3, 4, 5, 6, 7];
    let free = fill_gps_ephemeris(bytes.clone());
    assert_eq!(free.week, 2 * 256 + 1);
    assert_eq!(free.toe, 4 * 256 + 3);
    assert_eq!(free.toc, 6 * 256 + 5);
    // The free function keeps the wire-compatible remainder, which starts one
    // byte early and overlaps the high byte of toc.
    assert_eq!(free.rem, vec![6, 7]);

    let method = GpsEphemeris::fill(bytes);
    assert_eq!(method.week, free.week);
    assert_eq!(method.toe, free.toe);
    assert_eq!(method.toc, free.toc);
    assert_eq!(method.rem, vec![7]);
}

#[test]
fn glonass_almanac_layout() {
    let g = fill_glonass_alamanc(vec![40, 100, 0, 7, 1]);
    assert_eq!(g.satid, 40);
    assert_eq!(g.week, 100);
    assert_eq!(g.toa, 7);
    assert_eq!(g.rem, vec![1]);
}

#[test]
fn glonass_ephemeris_layout() {
    let g = fill_glonass_ephemeris(vec![100, 0, 3, 4, 5, 11]);
    assert_eq!(g.week, 100);
    assert_eq!(g.toe, 4 * 4096 + 3 * 16 + 5);
    assert_eq!(g.rem, vec![11]);
}

#[test]
fn galileo_almanac_layout() {
    let g = fill_galileo_almanac(vec![54, 1, 0x44, 100, 0, 7, 2]);
    assert_eq!(g.satid, 310);
    assert_eq!(g.svid, 0x44);
    assert_eq!(g.week, 100);
    assert_eq!(g.toa, 7);
    assert_eq!(g.rem, vec![2]);
}

#[test]
fn almanac_compare_orders_by_week_then_toa() {
    let a = rec(RecType::Almanac, 101, 0, 0, 0);
    let b = rec(RecType::Almanac, 100, 9, 0, 0);
    assert_eq!(compare_almanac_date(&a, &b), Ok(1));
    assert_eq!(compare_almanac_date(&b, &a), Ok(-1));

    let c = rec(RecType::Almanac, 100, 8, 0, 0);
    assert_eq!(compare_almanac_date(&b, &c), Ok(2));
    assert_eq!(compare_almanac_date(&c, &b), Ok(-2));
    assert_eq!(compare_almanac_date(&b, &b), Ok(0));
}

#[test]
fn ephemeris_compare_orders_by_week_toe_toc() {
    let a = rec(RecType::Ephemeris, 101, 0, 0, 0);
    let b = rec(RecType::Ephemeris, 100, 0, 900, 5);
    assert_eq!(compare_ephemeris_date(&a, &b), Ok(1));
    assert_eq!(compare_ephemeris_date(&b, &a), Ok(-1));

    let c = rec(RecType::Ephemeris, 100, 0, 800, 9);
    assert_eq!(compare_ephemeris_date(&b, &c), Ok(2));
    assert_eq!(compare_ephemeris_date(&c, &b), Ok(-2));

    let d = rec(RecType::Ephemeris, 100, 0, 900, 4);
    assert_eq!(compare_ephemeris_date(&b, &d), Ok(3));
    assert_eq!(compare_ephemeris_date(&d, &b), Ok(-3));
    assert_eq!(compare_ephemeris_date(&b, &b), Ok(0));
}

#[test]
fn compare_date_dispatches_on_kind() {
    let alm_new = rec(RecType::Almanac, 101, 0, 0, 0);
    let alm_old = rec(RecType::Almanac, 100, 0, 0, 0);
    assert_eq!(compare_date(&alm_new, &alm_old), Ok(1));

    let eph_new = rec(RecType::Ephemeris, 100, 0, 901, 0);
    let eph_old = rec(RecType::Ephemeris, 100, 0, 900, 0);
    assert_eq!(compare_date(&eph_new, &eph_old), Ok(2));

    assert_eq!(
        compare_date(&alm_new, &eph_old),
        Err(NavError::IncomparableKinds)
    );
    assert_eq!(
        compare_almanac_date(&alm_new, &eph_old),
        Err(NavError::IncomparableKinds)
    );
    assert_eq!(
        compare_ephemeris_date(&eph_new, &alm_old),
        Err(NavError::IncomparableKinds)
    );
}

#[test]
fn newer_than_is_transitive_in_practice() {
    let a = rec(RecType::Almanac, 102, 0, 0, 0);
    let b = rec(RecType::Almanac, 101, 5, 0, 0);
    let c = rec(RecType::Almanac, 101, 4, 0, 0);
    assert!(compare_date(&a, &b).unwrap() > 0);
    assert!(compare_date(&b, &c).unwrap() > 0);
    assert!(compare_date(&a, &c).unwrap() > 0);
}
