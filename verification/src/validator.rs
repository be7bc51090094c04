use vstd::prelude::*;

use crate::store::{lemma_key_index, spec_consume, spec_valid_present, OtpStore};

verus! {

/// `ValidatePassword`: the filtered lookup followed by the guarded
/// consumption.
///
/// Returns `true` exactly when a record keyed `(subject, code)` stands
/// in the store, is unexpired at `now`, and is unconsumed; on success
/// that record — and nothing else — is marked consumed, so an issued
/// code validates at most once. An unknown key, an expired code and an
/// already-consumed code all yield the same plain `false`, never an
/// error, and leave the store untouched.
pub fn validate_password(
    store: &mut OtpStore,
    subject: &String,
    code: &String,
    now: u64,
) -> (is_valid: bool)
    requires
        old(store).wf(),
    ensures
        final(store).wf(),
        is_valid == spec_valid_present(old(store)@, subject@, code@, now as int),
        is_valid ==> final(store)@ == spec_consume(old(store)@, subject@, code@),
        !is_valid ==> final(store)@ == old(store)@,
{
    if store.query_valid(subject, code, now) {
        proof {
            let j = choose|j: int|
                0 <= j < store@.len() && #[trigger] store@[j].has_key(subject@, code@)
                    && store@[j].valid_at(now as int);
            lemma_key_index(store@, subject@, code@, j);
        }
        let ok = store.compare_and_consume(subject, code);
        assert(ok);
        ok
    } else {
        false
    }
}

} // verus!
