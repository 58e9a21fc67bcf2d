use satnav::records::NavError;
use satnav::records::RecType;
use satnav::records::SatRec;
use satnav::registry::process_text;
use satnav::registry::Registry;
use satnav::sentence::process_line;

fn almanac_rec(satid: u16, week: u16, toa: u8) -> SatRec {
    SatRec {
        satid,
        week,
        toa,
        toe: 0,
        toc: 0,
        rec_type: RecType::Almanac,
        nmea: Vec::new(),
    }
}

#[test]
fn newest_week_wins_in_either_order() {
    // Two GPS almanac sentences for satellite id 5: week 100 in source A,
    // week 101 in source B. B's record must survive both processing orders.
    let a = "$PSTMALMANAC,5,40,05640007*4a";
    let b = "$PSTMALMANAC,5,40,05650007*4b";

    let mut first = Registry::new();
    process_text(a.as_bytes(), &mut first);
    process_text(b.as_bytes(), &mut first);
    let out = first.into_records();
    assert_eq!(out.len(), 1);
    assert_eq!(out[0].week, 101);
    assert_eq!(out[0].nmea, b.as_bytes().to_vec());

    let mut second = Registry::new();
    process_text(b.as_bytes(), &mut second);
    process_text(a.as_bytes(), &mut second);
    let out = second.into_records();
    assert_eq!(out.len(), 1);
    assert_eq!(out[0].week, 101);
    assert_eq!(out[0].nmea, b.as_bytes().to_vec());
}

#[test]
fn toa_breaks_week_ties() {
    let mut sats = Registry::new();
    process_text(b"$PSTMALMANAC,5,40,05640007*4a", &mut sats); // week 100, toa 7
    process_text(b"$PSTMALMANAC,5,40,05640008*45", &mut sats); // week 100, toa 8
    let out = sats.into_records();
    assert_eq!(out.len(), 1);
    assert_eq!(out[0].toa, 8);
}

#[test]
fn offering_same_record_twice_changes_nothing() {
    let line = "$PSTMALMANAC,5,40,05640007*4a";
    let mut sats = Registry::new();
    let rec = process_line(line.as_bytes()).unwrap();
    assert_eq!(sats.offer(rec), Ok(()));
    let rec_again = process_line(line.as_bytes()).unwrap();
    assert_eq!(sats.offer(rec_again), Ok(()));
    let out = sats.into_records();
    assert_eq!(out.len(), 1);
    assert_eq!(out[0].satid, 5);
    assert_eq!(out[0].week, 100);
    assert_eq!(out[0].toa, 7);
    assert_eq!(out[0].nmea, line.as_bytes().to_vec());
}

#[test]
fn equal_records_keep_the_stored_one() {
    let mut sats = Registry::new();
    let mut first = almanac_rec(5, 100, 7);
    first.nmea = b"first".to_vec();
    let mut second = almanac_rec(5, 100, 7);
    second.nmea = b"second".to_vec();
    assert_eq!(sats.offer(first), Ok(()));
    assert_eq!(sats.offer(second), Ok(()));
    let out = sats.into_records();
    assert_eq!(out.len(), 1);
    assert_eq!(out[0].nmea, b"first".to_vec());
}

#[test]
fn zero_id_is_never_stored() {
    let mut sats = Registry::new();
    // An id outside every constellation range decodes to the zero record.
    process_text(b"$PSTMALMANAC,200,40,00*4d", &mut sats);
    assert_eq!(sats.len(), 0);
    // A directly offered zero-id record is discarded too.
    assert_eq!(sats.offer(almanac_rec(0, 500, 9)), Ok(()));
    assert_eq!(sats.into_records().len(), 0);
}

#[test]
fn output_is_sorted_by_id_without_duplicates() {
    let mut sats = Registry::new();
    let text = "$PSTMALMANAC,310,40,360144640007*4c\n$PSTMALMANAC,40,40,28640007*74\n$PSTMALMANAC,5,40,05640007*4a\n$PSTMALMANAC,5,40,05650007*4b";
    process_text(text.as_bytes(), &mut sats);
    let out = sats.into_records();
    let ids: Vec<u16> = out.iter().map(|r| r.satid).collect();
    assert_eq!(ids, vec![5, 40, 310]);
    for w in ids.windows(2) {
        assert!(w[0] < w[1]);
    }
}

#[test]
fn mismatched_kinds_keep_the_stored_record() {
    let mut sats = Registry::new();
    let almanac = process_line(b"$PSTMALMANAC,5,40,05640007*4a").unwrap();
    assert_eq!(sats.offer(almanac), Ok(()));
    // A GPS ephemeris for the same id 5 cannot be compared with the stored
    // almanac: the offer is rejected and the almanac is kept.
    let mut ephemeris = almanac_rec(5, 999, 0);
    ephemeris.rec_type = RecType::Ephemeris;
    assert_eq!(sats.offer(ephemeris), Err(NavError::IncomparableKinds));
    let out = sats.into_records();
    assert_eq!(out.len(), 1);
    assert!(out[0].rec_type == RecType::Almanac);
    assert_eq!(out[0].week, 100);
}

#[test]
fn rejected_line_is_not_stored_and_processing_continues() {
    let mut sats = Registry::new();
    // First line has a flipped checksum, second is garbage: both rejected.
    let text = "$PSTMALMANAC,5,40,05640007*4b\nnot a sentence\n$PSTMALMANAC,40,40,28640007*74";
    process_text(text.as_bytes(), &mut sats);
    let out = sats.into_records();
    assert_eq!(out.len(), 1);
    assert_eq!(out[0].satid, 40);
}

#[test]
fn empty_text_stores_nothing() {
    let mut sats = Registry::new();
    process_text(b"", &mut sats);
    assert_eq!(sats.len(), 0);
}

#[test]
fn ephemeris_merge_uses_toe_and_toc() {
    let mut sats = Registry::new();
    process_text(b"$PSTMEPHEM,7,64,640000020000*56", &mut sats); // week 100, toe 512
    process_text(b"$PSTMEPHEM,7,64,65000003000a*07", &mut sats); // week 101: newer
    let out = sats.into_records();
    assert_eq!(out.len(), 1);
    assert_eq!(out[0].week, 101);
    assert_eq!(out[0].toe, 768);
    assert_eq!(out[0].toc, 2560);
}
