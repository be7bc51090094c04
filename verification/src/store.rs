use vstd::prelude::*;

use crate::record::OtpRecord;

verus! {

/// Every `(subject, code)` key identifies at most one record.
pub open spec fn spec_unique_keys(rows: Seq<OtpRecord>) -> bool {
    forall|i: int, j: int|
        0 <= i < rows.len() && 0 <= j < rows.len() && i != j ==> !(#[trigger] rows[i].same_key(
            rows[j],
        ))
}

/// Some record in `rows` has the key `(subject, code)`.
pub open spec fn spec_has_key(rows: Seq<OtpRecord>, subject: Seq<char>, code: Seq<char>) -> bool {
    exists|i: int| 0 <= i < rows.len() && #[trigger] rows[i].has_key(subject, code)
}

/// The index of the record with key `(subject, code)`.
pub open spec fn spec_index_of(rows: Seq<OtpRecord>, subject: Seq<char>, code: Seq<char>) -> int {
    choose|i: int| 0 <= i < rows.len() && #[trigger] rows[i].has_key(subject, code)
}

/// The record with key `(subject, code)`.
pub open spec fn spec_record_for(
    rows: Seq<OtpRecord>,
    subject: Seq<char>,
    code: Seq<char>,
) -> OtpRecord {
    rows[spec_index_of(rows, subject, code)]
}

/// Some record with key `(subject, code)` is valid at `now`: present,
/// unexpired and unconsumed.
pub open spec fn spec_valid_present(
    rows: Seq<OtpRecord>,
    subject: Seq<char>,
    code: Seq<char>,
    now: int,
) -> bool {
    exists|i: int|
        0 <= i < rows.len() && #[trigger] rows[i].has_key(subject, code) && rows[i].valid_at(now)
}

/// `rows` after consuming the record with key `(subject, code)`.
pub open spec fn spec_consume(
    rows: Seq<OtpRecord>,
    subject: Seq<char>,
    code: Seq<char>,
) -> Seq<OtpRecord> {
    let i = spec_index_of(rows, subject, code);
    rows.update(i, rows[i].consumed_form())
}

/// With unique keys, any index holding the key is the chosen one.
pub proof fn lemma_key_index(
    rows: Seq<OtpRecord>,
    subject: Seq<char>,
    code: Seq<char>,
    i: int,
)
    requires
        spec_unique_keys(rows),
        0 <= i < rows.len(),
        rows[i].has_key(subject, code),
    ensures
        spec_has_key(rows, subject, code),
        spec_index_of(rows, subject, code) == i,
{
    assert(spec_has_key(rows, subject, code));
    let j = spec_index_of(rows, subject, code);
    assert(0 <= j < rows.len() && rows[j].has_key(subject, code));
    if i != j {
        assert(rows[i].same_key(rows[j]));
        assert(false);
    }
}

/// Replacing a record by one with the same key keeps keys unique.
proof fn lemma_update_same_key_keeps_unique(rows: Seq<OtpRecord>, i: int, v: OtpRecord)
    requires
        spec_unique_keys(rows),
        0 <= i < rows.len(),
        v.same_key(rows[i]),
    ensures
        spec_unique_keys(rows.update(i, v)),
{
    let r2 = rows.update(i, v);
    assert forall|a: int, b: int|
        0 <= a < r2.len() && 0 <= b < r2.len() && a != b implies !(#[trigger] r2[a].same_key(
        r2[b],
    )) by {
        if a == i {
            if r2[a].same_key(r2[b]) {
                assert(rows[i].same_key(rows[b]));
            }
        } else if b == i {
            if r2[a].same_key(r2[b]) {
                assert(rows[a].same_key(rows[i]));
            }
        } else {
            assert(!rows[a].same_key(rows[b]));
        }
    }
}

/// Appending a record whose key is absent keeps keys unique.
proof fn lemma_push_new_key_keeps_unique(rows: Seq<OtpRecord>, v: OtpRecord)
    requires
        spec_unique_keys(rows),
        !spec_has_key(rows, v.subject@, v.code@),
    ensures
        spec_unique_keys(rows.push(v)),
{
    let r2 = rows.push(v);
    assert forall|a: int, b: int|
        0 <= a < r2.len() && 0 <= b < r2.len() && a != b implies !(#[trigger] r2[a].same_key(
        r2[b],
    )) by {
        if a < rows.len() && b < rows.len() {
            assert(!rows[a].same_key(rows[b]));
        } else if a == rows.len() {
            if r2[a].same_key(r2[b]) {
                assert(rows[b].has_key(v.subject@, v.code@));
            }
        } else {
            if r2[a].same_key(r2[b]) {
                assert(rows[a].has_key(v.subject@, v.code@));
            }
        }
    }
}

/// The keyed table the engine coordinates through: one row per issued
/// code, conditional writes standing in for the store's atomic
/// compare-and-update primitive.
pub struct OtpStore {
    records: Vec<OtpRecord>,
}

impl View for OtpStore {
    type V = Seq<OtpRecord>;

    closed spec fn view(&self) -> Seq<OtpRecord> {
        self.records@
    }
}

impl OtpStore {
    /// Well-formed: keys are unique and every record is well-formed.
    pub open spec fn wf(self) -> bool {
        spec_unique_keys(self@) && forall|i: int|
            0 <= i < self@.len() ==> (#[trigger] self@[i]).wf()
    }

    /// An empty table.
    pub fn new() -> (store: OtpStore)
        ensures
            store@ == Seq::<OtpRecord>::empty(),
            store.wf(),
    {
        OtpStore { records: Vec::new() }
    }

    /// The position of the record keyed `(subject, code)`, if any.
    fn find(&self, subject: &String, code: &String) -> (r: Option<usize>)
        ensures
            match r {
                Some(i) => i < self@.len() && self@[i as int].has_key(subject@, code@),
                None => !spec_has_key(self@, subject@, code@),
            },
    {
        let n = self.records.len();
        let mut i: usize = 0;
        while i < n
            invariant
                n == self@.len(),
                i <= n,
                forall|j: int| 0 <= j < i ==> !(#[trigger] self@[j].has_key(subject@, code@)),
            decreases n - i,
        {
            let rec = &self.records[i];
            if rec.subject == *subject && rec.code == *code {
                return Some(i);
            }
            i = i + 1;
        }
        None
    }

    /// The validator's filtered lookup: whether a record with this key
    /// exists, is unexpired at `now`, and is unconsumed.
    pub fn query_valid(&self, subject: &String, code: &String, now: u64) -> (found: bool)
        requires
            self.wf(),
        ensures
            found == spec_valid_present(self@, subject@, code@, now as int),
    {
        match self.find(subject, code) {
            None => false,
            Some(i) => {
                let rec = &self.records[i];
                let live = rec.expires_at > now && !rec.consumed;
                proof {
                    lemma_key_index(self@, subject@, code@, i as int);
                    if !live && spec_valid_present(self@, subject@, code@, now as int) {
                        let j = choose|j: int|
                            0 <= j < self@.len() && #[trigger] self@[j].has_key(subject@, code@)
                                && self@[j].valid_at(now as int);
                        lemma_key_index(self@, subject@, code@, j);
                    }
                }
                live
            },
        }
    }

    /// The atomic conditional update: marks the record keyed
    /// `(subject, code)` consumed, guarded by `consumed == false`; reports
    /// whether the guard held. This is the primitive that makes
    /// validation at-most-once under concurrent duplicate attempts.
    pub fn compare_and_consume(&mut self, subject: &String, code: &String) -> (ok: bool)
        requires
            old(self).wf(),
        ensures
            final(self).wf(),
            ok == (spec_has_key(old(self)@, subject@, code@) && !spec_record_for(
                old(self)@,
                subject@,
                code@,
            ).consumed),
            ok ==> final(self)@ == spec_consume(old(self)@, subject@, code@),
            !ok ==> final(self)@ == old(self)@,
    {
        match self.find(subject, code) {
            None => false,
            Some(i) => {
                proof {
                    lemma_key_index(self@, subject@, code@, i as int);
                }
                if self.records[i].consumed {
                    false
                } else {
                    let updated = OtpRecord {
                        subject: self.records[i].subject.clone(),
                        code: self.records[i].code.clone(),
                        issued_at: self.records[i].issued_at,
                        expires_at: self.records[i].expires_at,
                        consumed: true,
                    };
                    proof {
                        assert(updated == old(self)@[i as int].consumed_form());
                        lemma_update_same_key_keeps_unique(old(self)@, i as int, updated);
                    }
                    self.records.set(i, updated);
                    true
                }
            },
        }
    }

    /// The issuer's conditional write: refuses to touch a still-valid
    /// record under the same key, atomically overwrites a stale one, and
    /// otherwise appends; reports whether the write happened.
    pub fn insert_fresh(&mut self, rec: OtpRecord, now: u64) -> (ok: bool)
        requires
            old(self).wf(),
            rec.wf(),
        ensures
            final(self).wf(),
            ok == !spec_valid_present(old(self)@, rec.subject@, rec.code@, now as int),
            !ok ==> final(self)@ == old(self)@,
            ok && spec_has_key(old(self)@, rec.subject@, rec.code@) ==> final(self)@ == old(
                self,
            )@.update(spec_index_of(old(self)@, rec.subject@, rec.code@), rec),
            ok && !spec_has_key(old(self)@, rec.subject@, rec.code@) ==> final(self)@ == old(
                self,
            )@.push(rec),
    {
        match self.find(&rec.subject, &rec.code) {
            None => {
                proof {
                    if spec_valid_present(self@, rec.subject@, rec.code@, now as int) {
                        let j = choose|j: int|
                            0 <= j < self@.len() && #[trigger] self@[j].has_key(
                                rec.subject@,
                                rec.code@,
                            ) && self@[j].valid_at(now as int);
                        assert(spec_has_key(self@, rec.subject@, rec.code@));
                    }
                    lemma_push_new_key_keeps_unique(self@, rec);
                }
                self.records.push(rec);
                true
            },
            Some(i) => {
                proof {
                    lemma_key_index(self@, rec.subject@, rec.code@, i as int);
                }
                let live = self.records[i].expires_at > now && !self.records[i].consumed;
                if live {
                    false
                } else {
                    proof {
                        if spec_valid_present(self@, rec.subject@, rec.code@, now as int) {
                            let j = choose|j: int|
                                0 <= j < self@.len() && #[trigger] self@[j].has_key(
                                    rec.subject@,
                                    rec.code@,
                                ) && self@[j].valid_at(now as int);
                            lemma_key_index(self@, rec.subject@, rec.code@, j);
                        }
                        assert(rec.same_key(old(self)@[i as int]));
                        lemma_update_same_key_keeps_unique(old(self)@, i as int, rec);
                    }
                    self.records.set(i, rec);
                    true
                }
            },
        }
    }
}

} // verus!
