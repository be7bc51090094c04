use vstd::prelude::*;

use crate::codes::{generate_password, is_code, is_code_exec};
use crate::errors::OtpError;
use crate::record::OtpRecord;
use crate::store::{
    lemma_key_index, spec_has_key, spec_index_of, spec_record_for, spec_valid_present, OtpStore,
};

verus! {

/// Bound on fresh draws before issuance gives up on collisions.
pub const MAX_GENERATION_ATTEMPTS: usize = 5;

/// `new_rows` is `old_rows` with one fresh, unconsumed record issued
/// under `(subject, code)` at `now`, expiring at `expires`: the record
/// either took the seat of a stale row with the same key or was
/// appended, and every other row is untouched.
pub open spec fn spec_issued(
    old_rows: Seq<OtpRecord>,
    new_rows: Seq<OtpRecord>,
    subject: Seq<char>,
    code: Seq<char>,
    now: int,
    expires: int,
) -> bool {
    let rec = spec_record_for(new_rows, subject, code);
    spec_has_key(new_rows, subject, code) && rec.issued_at == now && rec.expires_at == expires
        && !rec.consumed && if spec_has_key(old_rows, subject, code) {
        new_rows == old_rows.update(spec_index_of(old_rows, subject, code), rec)
    } else {
        new_rows == old_rows.push(rec)
    }
}

/// The issuance decision on its own: `expires_at = now + ttl_seconds`,
/// rejecting a zero time-to-live and an expiration past the timestamp
/// range. Store adapters at the process edge make the same decision
/// before writing a record.
pub fn compute_expiry(ttl_seconds: u64, now: u64) -> (r: Result<u64, OtpError>)
    ensures
        r is Ok <==> (ttl_seconds > 0 && now + ttl_seconds <= u64::MAX),
        (r matches Ok(expires_at) ==> expires_at == now + ttl_seconds && expires_at > now),
        r is Err ==> r == Err::<u64, OtpError>(OtpError::InvalidArgument),
{
    if ttl_seconds == 0 {
        return Err(OtpError::InvalidArgument);
    }
    match now.checked_add(ttl_seconds) {
        Some(expires_at) => Ok(expires_at),
        None => Err(OtpError::InvalidArgument),
    }
}

/// One deterministic issuance attempt with a chosen code.
///
/// Persists the record `(subject, code, issued_at: now, expires_at:
/// now + ttl_seconds, consumed: false)` through the store's conditional
/// write, and succeeds exactly when the request is well-formed and no
/// still-valid record holds the key. A malformed code or a rejected
/// time-to-live is `InvalidArgument`; a collision with a still-valid
/// record is `ResourceExhausted`, the case the issuer retries on with a
/// fresh draw. On an error the store is untouched.
pub fn issue_code(
    store: &mut OtpStore,
    subject: &String,
    code: &String,
    ttl_seconds: u64,
    now: u64,
) -> (r: Result<(), OtpError>)
    requires
        old(store).wf(),
    ensures
        final(store).wf(),
        (r == Err::<(), OtpError>(OtpError::InvalidArgument) <==> (!is_code(code@)
            || ttl_seconds == 0 || now + ttl_seconds > u64::MAX)),
        (r == Err::<(), OtpError>(OtpError::ResourceExhausted) <==> (is_code(code@)
            && ttl_seconds > 0 && now + ttl_seconds <= u64::MAX && spec_valid_present(
            old(store)@,
            subject@,
            code@,
            now as int,
        ))),
        r is Err ==> final(store)@ == old(store)@,
        (r is Ok <==> (is_code(code@) && ttl_seconds > 0 && now + ttl_seconds <= u64::MAX
            && !spec_valid_present(old(store)@, subject@, code@, now as int))),
        r is Ok ==> spec_issued(
            old(store)@,
            final(store)@,
            subject@,
            code@,
            now as int,
            now + ttl_seconds,
        ),
{
    if !is_code_exec(code) {
        return Err(OtpError::InvalidArgument);
    }
    let expires_at = match compute_expiry(ttl_seconds, now) {
        Ok(expires_at) => expires_at,
        Err(e) => {
            return Err(e);
        },
    };
    let rec = OtpRecord {
        subject: subject.clone(),
        code: code.clone(),
        issued_at: now,
        expires_at,
        consumed: false,
    };
    let ghost grec = rec;
    let ghost old_rows = store@;
    let ok = store.insert_fresh(rec, now);
    if ok {
        proof {
            let new_rows = store@;
            if spec_has_key(old_rows, subject@, code@) {
                let i = spec_index_of(old_rows, subject@, code@);
                assert(new_rows == old_rows.update(i, grec));
                lemma_key_index(new_rows, subject@, code@, i);
            } else {
                assert(new_rows == old_rows.push(grec));
                lemma_key_index(new_rows, subject@, code@, old_rows.len() as int);
            }
        }
        Ok(())
    } else {
        Err(OtpError::ResourceExhausted)
    }
}

/// `RequestPassword`: draws a code from the secure generator, persists
/// its record, and only then returns the code, so a caller never holds a
/// code that was not durably written. A collision with a still-active
/// code is retried with a fresh draw up to `MAX_GENERATION_ATTEMPTS`
/// times, then reported as `ResourceExhausted` — and only genuine
/// collisions can exhaust the retries: on a store holding no valid code
/// for the subject, issuance cannot fail. The issued code never
/// displaces a still-valid record. A zero time-to-live, or one pushing
/// the expiration past the timestamp range, is rejected as
/// `InvalidArgument`. On an error the store is untouched.
pub fn request_password(
    store: &mut OtpStore,
    subject: &String,
    ttl_seconds: u64,
    now: u64,
) -> (r: Result<String, OtpError>)
    requires
        old(store).wf(),
    ensures
        final(store).wf(),
        (r == Err::<String, OtpError>(OtpError::InvalidArgument) <==> (ttl_seconds == 0 || now
            + ttl_seconds > u64::MAX)),
        r is Err ==> final(store)@ == old(store)@ && (r == Err::<String, OtpError>(
            OtpError::InvalidArgument,
        ) || r == Err::<String, OtpError>(OtpError::ResourceExhausted)),
        r == Err::<String, OtpError>(OtpError::ResourceExhausted) ==> exists|c: Seq<char>|
            is_code(c) && #[trigger] spec_valid_present(old(store)@, subject@, c, now as int),
        (r matches Ok(code) ==> is_code(code@) && !spec_valid_present(
            old(store)@,
            subject@,
            code@,
            now as int,
        ) && spec_issued(
            old(store)@,
            final(store)@,
            subject@,
            code@,
            now as int,
            now + ttl_seconds,
        )),
{
    if ttl_seconds == 0 || ttl_seconds > u64::MAX - now {
        return Err(OtpError::InvalidArgument);
    }
    let mut attempts: usize = 0;
    while attempts < MAX_GENERATION_ATTEMPTS
        invariant
            store.wf(),
            store@ == old(store)@,
            ttl_seconds > 0,
            now + ttl_seconds <= u64::MAX,
            attempts > 0 ==> exists|c: Seq<char>|
                is_code(c) && #[trigger] spec_valid_present(old(store)@, subject@, c, now as int),
        decreases MAX_GENERATION_ATTEMPTS - attempts,
    {
        let code = generate_password();
        match issue_code(store, subject, &code, ttl_seconds, now) {
            Ok(()) => {
                return Ok(code);
            },
            Err(e) => {
                assert(e == OtpError::ResourceExhausted);
                assert(is_code(code@) && spec_valid_present(
                    old(store)@,
                    subject@,
                    code@,
                    now as int,
                ));
            },
        }
        attempts = attempts + 1;
    }
    Err(OtpError::ResourceExhausted)
}

} // verus!
