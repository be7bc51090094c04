use vstd::prelude::*;

use crate::issuer::spec_issued;
use crate::record::OtpRecord;
use crate::store::{
    lemma_key_index, spec_consume, spec_has_key, spec_index_of, spec_record_for,
    spec_unique_keys, spec_valid_present,
};

verus! {

/// Every record holding the key is consumed: the key can never again
/// validate successfully.
pub open spec fn spec_key_dead(rows: Seq<OtpRecord>, subject: Seq<char>, code: Seq<char>) -> bool {
    forall|i: int|
        0 <= i < rows.len() && #[trigger] rows[i].has_key(subject, code) ==> rows[i].consumed
}

/// The store after one validation attempt of `(subject, code)` at `now`:
/// consumption on success, untouched otherwise.
pub open spec fn spec_validate_post(
    rows: Seq<OtpRecord>,
    subject: Seq<char>,
    code: Seq<char>,
    now: int,
) -> Seq<OtpRecord> {
    if spec_valid_present(rows, subject, code, now) {
        spec_consume(rows, subject, code)
    } else {
        rows
    }
}

/// How many of the validation attempts of `(subject, code)` at the times
/// `nows`, applied in that order, succeed.
pub open spec fn spec_success_count(
    rows: Seq<OtpRecord>,
    subject: Seq<char>,
    code: Seq<char>,
    nows: Seq<int>,
) -> nat
    decreases nows.len(),
{
    if nows.len() == 0 {
        0
    } else {
        let first: nat = if spec_valid_present(rows, subject, code, nows[0]) {
            1
        } else {
            0
        };
        first + spec_success_count(
            spec_validate_post(rows, subject, code, nows[0]),
            subject,
            code,
            nows.drop_first(),
        )
    }
}

/// A fresh issuance is immediately valid: after issuing `(subject, code)`
/// at `now` with expiration `expires`, validation of that key succeeds at
/// every time strictly before `expires` — in particular at `now` itself.
pub proof fn lemma_issued_is_valid(
    old_rows: Seq<OtpRecord>,
    new_rows: Seq<OtpRecord>,
    subject: Seq<char>,
    code: Seq<char>,
    now: int,
    expires: int,
    t: int,
)
    requires
        spec_issued(old_rows, new_rows, subject, code, now, expires),
        t < expires,
    ensures
        spec_valid_present(new_rows, subject, code, t),
{
    let i = spec_index_of(new_rows, subject, code);
    assert(0 <= i < new_rows.len() && new_rows[i].has_key(subject, code));
    assert(new_rows[i].valid_at(t));
}

/// Expiry draws the line: while the key's record is unconsumed,
/// validation succeeds strictly before `expires_at` and fails from
/// `expires_at` on, with no successful validation in between needed.
pub proof fn lemma_expiry(
    rows: Seq<OtpRecord>,
    subject: Seq<char>,
    code: Seq<char>,
    now: int,
)
    requires
        spec_unique_keys(rows),
        spec_has_key(rows, subject, code),
        !spec_record_for(rows, subject, code).consumed,
    ensures
        spec_valid_present(rows, subject, code, now) <==> now < spec_record_for(
            rows,
            subject,
            code,
        ).expires_at,
{
    let i = spec_index_of(rows, subject, code);
    assert(0 <= i < rows.len() && rows[i].has_key(subject, code));
    if spec_valid_present(rows, subject, code, now) {
        let j = choose|j: int|
            0 <= j < rows.len() && #[trigger] rows[j].has_key(subject, code) && rows[j].valid_at(
                now,
            );
        lemma_key_index(rows, subject, code, j);
    }
    if now < rows[i].expires_at {
        assert(rows[i].valid_at(now));
    }
}

/// A key never issued never validates: with no record under
/// `(subject, code)`, every validation attempt reports `false`.
pub proof fn lemma_unknown_key_never_validates(
    rows: Seq<OtpRecord>,
    subject: Seq<char>,
    code: Seq<char>,
    now: int,
)
    requires
        !spec_has_key(rows, subject, code),
    ensures
        !spec_valid_present(rows, subject, code, now),
{
    if spec_valid_present(rows, subject, code, now) {
        let j = choose|j: int|
            0 <= j < rows.len() && #[trigger] rows[j].has_key(subject, code) && rows[j].valid_at(
                now,
            );
        assert(spec_has_key(rows, subject, code));
    }
}

/// Consuming the key's record kills the key: afterwards every record
/// under it is consumed.
pub proof fn lemma_consume_kills_key(
    rows: Seq<OtpRecord>,
    subject: Seq<char>,
    code: Seq<char>,
)
    requires
        spec_unique_keys(rows),
        spec_has_key(rows, subject, code),
    ensures
        spec_key_dead(spec_consume(rows, subject, code), subject, code),
{
    let i = spec_index_of(rows, subject, code);
    assert(0 <= i < rows.len() && rows[i].has_key(subject, code));
    let after = spec_consume(rows, subject, code);
    assert forall|k: int|
        0 <= k < after.len() && #[trigger] after[k].has_key(subject, code) implies after[k].consumed by {
        if k != i {
            assert(rows[k].has_key(subject, code));
            assert(rows[k].same_key(rows[i]));
        }
    }
}

/// A dead key stays dead and never validates: once every record under
/// the key is consumed, any run of further validation attempts yields no
/// success and leaves the store as it is.
pub proof fn lemma_dead_key_no_success(
    rows: Seq<OtpRecord>,
    subject: Seq<char>,
    code: Seq<char>,
    nows: Seq<int>,
)
    requires
        spec_key_dead(rows, subject, code),
    ensures
        spec_success_count(rows, subject, code, nows) == 0,
    decreases nows.len(),
{
    if nows.len() > 0 {
        if spec_valid_present(rows, subject, code, nows[0]) {
            let j = choose|j: int|
                0 <= j < rows.len() && #[trigger] rows[j].has_key(subject, code)
                    && rows[j].valid_at(nows[0]);
            assert(false);
        }
        assert(spec_validate_post(rows, subject, code, nows[0]) == rows);
        lemma_dead_key_no_success(rows, subject, code, nows.drop_first());
    }
}

/// Idempotence of the negative result: after one successful validation
/// has consumed the key's record, every later validation of the same
/// `(subject, code)` reports `false`, whatever time it runs at.
pub proof fn lemma_second_validation_fails(
    rows: Seq<OtpRecord>,
    subject: Seq<char>,
    code: Seq<char>,
    now1: int,
    now2: int,
)
    requires
        spec_unique_keys(rows),
        spec_valid_present(rows, subject, code, now1),
    ensures
        !spec_valid_present(spec_consume(rows, subject, code), subject, code, now2),
{
    let j = choose|j: int|
        0 <= j < rows.len() && #[trigger] rows[j].has_key(subject, code) && rows[j].valid_at(now1);
    lemma_key_index(rows, subject, code, j);
    lemma_consume_kills_key(rows, subject, code);
    let after = spec_consume(rows, subject, code);
    if spec_valid_present(after, subject, code, now2) {
        let k = choose|k: int|
            0 <= k < after.len() && #[trigger] after[k].has_key(subject, code)
                && after[k].valid_at(now2);
        assert(after[k].consumed);
    }
}

/// At-most-one successful validation per issued code: whatever the
/// number of attempts, their times, or the order in which the store
/// serialises them, at most one attempt on a key reports success — the
/// rest lose the race and report `false`.
pub proof fn lemma_at_most_one_success(
    rows: Seq<OtpRecord>,
    subject: Seq<char>,
    code: Seq<char>,
    nows: Seq<int>,
)
    requires
        spec_unique_keys(rows),
    ensures
        spec_success_count(rows, subject, code, nows) <= 1,
    decreases nows.len(),
{
    if nows.len() > 0 {
        if spec_valid_present(rows, subject, code, nows[0]) {
            let j = choose|j: int|
                0 <= j < rows.len() && #[trigger] rows[j].has_key(subject, code)
                    && rows[j].valid_at(nows[0]);
            lemma_key_index(rows, subject, code, j);
            lemma_consume_kills_key(rows, subject, code);
            lemma_dead_key_no_success(
                spec_consume(rows, subject, code),
                subject,
                code,
                nows.drop_first(),
            );
        } else {
            lemma_at_most_one_success(rows, subject, code, nows.drop_first());
        }
    }
}

} // verus!
