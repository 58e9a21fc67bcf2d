//! The satellite registry: an insert-or-replace store keyed by satellite
//! id, keeping for each id only the newest known record.
//!
//! Records are held sorted strictly ascending by satellite id, one per id,
//! and id 0 (the unparseable-record sentinel) is never retained. Offering a
//! candidate either inserts it (first sighting of its id), replaces the
//! stored record (the candidate is strictly newer), or discards it.

use vstd::prelude::*;
use crate::compare::compare_date;
use crate::compare::lemma_cmp_self_equal;
use crate::compare::spec_newer;
use crate::records::NavError;
use crate::records::RecordModel;
use crate::records::SatRec;
use crate::sentence::process_line;
use crate::sentence::spec_process_line;
use crate::text::split_bytes;
use crate::text::split_on;

verus! {

/// The models of a sequence of records.
pub open spec fn models(s: Seq<SatRec>) -> Seq<RecordModel> {
    s.map_values(|r: SatRec| r@)
}

/// What one offer does to the stored sequence: a record with id 0 is
/// discarded; a new id is inserted at its sorted position; an id already
/// stored is replaced only when the candidate has the same kind and is
/// strictly newer.
pub open spec fn spec_offer(s: Seq<RecordModel>, r: RecordModel) -> Seq<RecordModel>
    decreases s.len(),
{
    if r.satid == 0 {
        s
    } else if s.len() == 0 {
        seq![r]
    } else if r.satid < s[0].satid {
        seq![r] + s
    } else if r.satid == s[0].satid {
        if r.rec_type == s[0].rec_type && spec_newer(r, s[0]) {
            seq![r] + s.skip(1)
        } else {
            s
        }
    } else {
        seq![s[0]] + spec_offer(s.skip(1), r)
    }
}

/// Whether an offer of `r` must be rejected: a record with the same id but
/// the other kind is already stored.
pub open spec fn spec_offer_clash(s: Seq<RecordModel>, r: RecordModel) -> bool {
    r.satid != 0 && exists|i: int|
        0 <= i < s.len() && #[trigger] s[i].satid == r.satid && s[i].rec_type != r.rec_type
}

/// The registry.
pub struct Registry {
    recs: Vec<SatRec>,
}

impl View for Registry {
    type V = Seq<RecordModel>;

    closed spec fn view(&self) -> Seq<RecordModel> {
        models(self.recs@)
    }
}

/// Characterizes `spec_offer` at the sorted position of the candidate's id:
/// ahead of position `i` every stored id is smaller, so the offer either
/// inserts at `i`, replaces at `i`, or leaves the sequence unchanged.
proof fn lemma_spec_offer_at(s: Seq<RecordModel>, r: RecordModel, i: int)
    requires
        r.satid != 0,
        0 <= i <= s.len(),
        forall|j: int| 0 <= j < i ==> #[trigger] s[j].satid < r.satid,
    ensures
        (i == s.len() || s[i].satid > r.satid) ==> spec_offer(s, r) =~= s.take(i) + seq![r]
            + s.skip(i),
        (i < s.len() && s[i].satid == r.satid) ==> spec_offer(s, r) == (if r.rec_type
            == s[i].rec_type && spec_newer(r, s[i]) {
            s.update(i, r)
        } else {
            s
        }),
    decreases i,
{
    if i == 0 {
        if s.len() == 0 {
            assert(spec_offer(s, r) =~= s.take(0) + seq![r] + s.skip(0));
        } else if s[0].satid > r.satid {
            assert(spec_offer(s, r) =~= s.take(0) + seq![r] + s.skip(0));
        } else if s[0].satid == r.satid {
            if r.rec_type == s[0].rec_type && spec_newer(r, s[0]) {
                assert(spec_offer(s, r) =~= s.update(0, r));
            }
        }
    } else {
        assert(s[0].satid < r.satid);
        lemma_spec_offer_at(s.skip(1), r, i - 1);
        assert(spec_offer(s, r) == seq![s[0]] + spec_offer(s.skip(1), r));
        if i == s.len() || s[i].satid > r.satid {
            assert(i - 1 == s.skip(1).len() || s.skip(1)[i - 1].satid > r.satid);
            assert(seq![s[0]] + (s.skip(1).take(i - 1) + seq![r] + s.skip(1).skip(i - 1)) =~= s.take(
                i,
            ) + seq![r] + s.skip(i));
        } else if s[i].satid == r.satid {
            assert(s.skip(1)[i - 1] == s[i]);
            if r.rec_type == s[i].rec_type && spec_newer(r, s[i]) {
                assert(seq![s[0]] + s.skip(1).update(i - 1, r) =~= s.update(i, r));
            } else {
                assert(seq![s[0]] + s.skip(1) =~= s);
            }
        }
    }
}

impl Registry {
    /// Whether the registry is well formed: records sorted strictly
    /// ascending by satellite id (so ids are unique), none with id 0.
    pub open spec fn wf(&self) -> bool {
        &&& forall|i: int, j: int|
            0 <= i < j < self@.len() ==> #[trigger] self@[i].satid < #[trigger] self@[j].satid
        &&& forall|i: int| 0 <= i < self@.len() ==> #[trigger] self@[i].satid != 0
    }

    /// An empty registry.
    pub fn new() -> (r: Registry)
        ensures
            r.wf(),
            r@ == Seq::<RecordModel>::empty(),
    {
        let recs: Vec<SatRec> = Vec::new();
        proof {
            assert(models(recs@) =~= Seq::<RecordModel>::empty());
        }
        Registry { recs }
    }

    /// How many records are stored.
    pub fn len(&self) -> (n: usize)
        ensures
            n == self@.len(),
    {
        self.recs.len()
    }

    /// Offers a candidate record, as [`spec_offer`] states: discarded when
    /// its id is 0, inserted when its id is new, replacing the stored record
    /// only when strictly newer of the same kind. An offer against a stored
    /// record of the other kind is rejected with `IncomparableKinds` and
    /// changes nothing.
    pub fn offer(&mut self, rec: SatRec) -> (r: Result<(), NavError>)
        requires
            old(self).wf(),
        ensures
            final(self).wf(),
            final(self)@ == spec_offer(old(self)@, rec@),
            r == if spec_offer_clash(old(self)@, rec@) {
                Err::<(), NavError>(NavError::IncomparableKinds)
            } else {
                Ok::<(), NavError>(())
            },
    {
        let ghost s = self@;
        if rec.satid == 0 {
            return Ok(());
        }
        let mut i: usize = 0;
        while i < self.recs.len() && self.recs[i].satid < rec.satid
            invariant
                self@ == s,
                self.wf(),
                0 <= i <= self.recs@.len(),
                self.recs@.len() == s.len(),
                forall|j: int| 0 <= j < i ==> #[trigger] s[j].satid < rec.satid,
            decreases self.recs@.len() - i,
        {
            proof {
                assert(s[i as int] == self.recs@[i as int]@);
            }
            i = i + 1;
        }
        proof {
            lemma_spec_offer_at(s, rec@, i as int);
            // Sortedness pins the only index that could clash to `i`.
            if i < s.len() && s[i as int].satid != rec@.satid {
                assert forall|k: int|
                    0 <= k < s.len() implies #[trigger] s[k].satid != rec@.satid by {
                    if k >= i {
                        assert(s[i as int].satid <= s[k].satid);
                    }
                }
            }
            if i == s.len() {
                assert forall|k: int|
                    0 <= k < s.len() implies #[trigger] s[k].satid != rec@.satid by {}
            }
        }
        if i == self.recs.len() || self.recs[i].satid > rec.satid {
            let ghost rm = rec@;
            self.recs.insert(i, rec);
            proof {
                assert(models(self.recs@) =~= s.take(i as int) + seq![rm] + s.skip(i as int));
                assert forall|a: int, b: int|
                    0 <= a < b < self@.len() implies #[trigger] self@[a].satid
                    < #[trigger] self@[b].satid by {}
            }
            Ok(())
        } else {
            proof {
                assert(s[i as int] == self.recs@[i as int]@);
            }
            let cmp: i8;
            match compare_date(&rec, &self.recs[i]) {
                Ok(n) => {
                    cmp = n;
                },
                Err(e) => {
                    proof {
                        assert(spec_offer_clash(s, rec@));
                        assert(spec_offer(s, rec@) == s);
                    }
                    return Err(e);
                },
            }
            if cmp > 0 {
                let ghost rm = rec@;
                self.recs.remove(i);
                self.recs.insert(i, rec);
                proof {
                    assert(models(self.recs@) =~= s.update(i as int, rm));
                    assert forall|a: int, b: int|
                        0 <= a < b < self@.len() implies #[trigger] self@[a].satid
                        < #[trigger] self@[b].satid by {}
                }
                Ok(())
            } else {
                Ok(())
            }
        }
    }

    /// Yields the stored records, sorted strictly ascending by satellite id,
    /// no id twice, and never id 0.
    pub fn into_records(self) -> (out: Vec<SatRec>)
        requires
            self.wf(),
        ensures
            models(out@) == self@,
            forall|i: int, j: int|
                0 <= i < j < out@.len() ==> #[trigger] out@[i].satid < #[trigger] out@[j].satid,
            forall|i: int| 0 <= i < out@.len() ==> #[trigger] out@[i].satid != 0,
    {
        proof {
            assert forall|i: int|
                0 <= i < self.recs@.len() implies #[trigger] self.recs@[i].satid != 0 by {
                assert(self@[i] == self.recs@[i]@);
                assert(self@[i].satid != 0);
            }
            assert forall|i: int, j: int|
                0 <= i < j < self.recs@.len() implies #[trigger] self.recs@[i].satid
                < #[trigger] self.recs@[j].satid by {
                assert(self@[i] == self.recs@[i]@);
                assert(self@[j] == self.recs@[j]@);
                assert(self@[i].satid < self@[j].satid);
            }
        }
        self.recs
    }

    /// Registry merge is idempotent: offering the same record twice leaves
    /// the stored state exactly as after the first offer.
    pub proof fn lemma_offer_idempotent(s: Seq<RecordModel>, r: RecordModel)
        ensures
            spec_offer(spec_offer(s, r), r) == spec_offer(s, r),
        decreases s.len(),
    {
        lemma_cmp_self_equal(r);
        if r.satid == 0 {
        } else if s.len() == 0 {
        } else if r.satid < s[0].satid {
        } else if r.satid == s[0].satid {
            if r.rec_type == s[0].rec_type && spec_newer(r, s[0]) {
                let t = seq![r] + s.skip(1);
                assert(t[0] == r);
                assert(spec_offer(t, r) == t);
            }
        } else {
            let t = seq![s[0]] + spec_offer(s.skip(1), r);
            Self::lemma_offer_idempotent(s.skip(1), r);
            assert(t[0] == s[0]);
            assert(t.skip(1) =~= spec_offer(s.skip(1), r));
            assert(spec_offer(t, r) == seq![t[0]] + spec_offer(t.skip(1), r));
        }
    }
}

/// What offering the record of one line does to the stored sequence: lines
/// that fail to parse, or whose offer is rejected, leave it unchanged.
pub open spec fn spec_offer_line(s: Seq<RecordModel>, line: Seq<u8>) -> Seq<RecordModel> {
    match spec_process_line(line) {
        Ok(r) => spec_offer(s, r),
        Err(_) => s,
    }
}

/// The stored sequence after offering every line in order.
pub open spec fn spec_process_lines(s: Seq<RecordModel>, lines: Seq<Seq<u8>>) -> Seq<RecordModel>
    decreases lines.len(),
{
    if lines.len() == 0 {
        s
    } else {
        spec_offer_line(spec_process_lines(s, lines.drop_last()), lines.last())
    }
}

/// Splits `text` into lines on the newline byte and offers each decoded
/// record to the registry, as [`spec_process_lines`] states. Lines that fail
/// to parse, and offers the registry rejects, are skipped; the rest of the
/// text is still processed.
pub fn process_text(text: &[u8], sats: &mut Registry)
    requires
        old(sats).wf(),
    ensures
        final(sats).wf(),
        final(sats)@ == spec_process_lines(old(sats)@, split_on(text@, 10)),
{
    let ghost s0 = sats@;
    let lines = split_bytes(text, 10);
    let ghost lseq = split_on(text@, 10);
    let mut i: usize = 0;
    proof {
        assert(lseq.take(0) =~= Seq::<Seq<u8>>::empty());
    }
    while i < lines.len()
        invariant
            sats.wf(),
            0 <= i <= lines@.len(),
            lines@.len() == lseq.len(),
            forall|k: int| 0 <= k < lseq.len() ==> #[trigger] lines@[k]@ == lseq[k],
            sats@ == spec_process_lines(s0, lseq.take(i as int)),
        decreases lines@.len() - i,
    {
        proof {
            assert(lseq.take(i + 1).drop_last() =~= lseq.take(i as int));
            assert(lseq.take(i + 1).last() == lseq[i as int]);
        }
        match process_line(lines[i].as_slice()) {
            Ok(rec) => {
                let _ = sats.offer(rec);
            },
            Err(_) => (),
        }
        i = i + 1;
    }
    proof {
        assert(lseq.take(lseq.len() as int) =~= lseq);
    }
}

} // verus!
