use vstd::prelude::*;

verus! {

/// The one persistent entity: a one-time password issued to a subject.
///
/// The pair `(subject, code)` is the lookup key; `subject` may be empty
/// for subject-less flows. Timestamps count seconds since the epoch.
pub struct OtpRecord {
    pub subject: String,
    pub code: String,
    pub issued_at: u64,
    pub expires_at: u64,
    pub consumed: bool,
}

impl OtpRecord {
    /// Well-formed: the expiration lies strictly after issuance.
    pub open spec fn wf(self) -> bool {
        self.expires_at > self.issued_at
    }

    /// Whether this record is keyed by `(subject, code)`.
    pub open spec fn has_key(self, subject: Seq<char>, code: Seq<char>) -> bool {
        self.subject@ == subject && self.code@ == code
    }

    /// Whether two records share their `(subject, code)` key.
    pub open spec fn same_key(self, other: OtpRecord) -> bool {
        self.subject@ == other.subject@ && self.code@ == other.code@
    }

    /// Valid at `now`: not yet expired and not yet consumed.
    pub open spec fn valid_at(self, now: int) -> bool {
        now < self.expires_at && !self.consumed
    }

    /// The same record with the consumed flag set.
    pub open spec fn consumed_form(self) -> OtpRecord {
        OtpRecord { consumed: true, ..self }
    }

    /// The validator's filter on one record: unexpired at `now` and
    /// unconsumed. Store adapters at the process edge apply the same
    /// filter to the rows a range query returns.
    pub fn is_valid_now(&self, now: u64) -> (r: bool)
        ensures
            r == self.valid_at(now as int),
    {
        self.expires_at > now && !self.consumed
    }

    /// The attribute set handed to a store adapter to persist this record.
    pub fn to_item(&self) -> (item: PasswordItem)
        ensures
            item.username@ == self.subject@,
            item.password@ == self.code@,
            item.expiration_timestamp == self.expires_at,
    {
        PasswordItem {
            username: self.subject.clone(),
            password: self.code.clone(),
            expiration_timestamp: self.expires_at,
        }
    }
}

/// The flat attribute set a keyed store persists for one record:
/// the key pair and the expiration used by the store-side filter.
pub struct PasswordItem {
    pub username: String,
    pub password: String,
    pub expiration_timestamp: u64,
}

} // verus!
