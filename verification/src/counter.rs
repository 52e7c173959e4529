//! The manipulation-resistant attempt counter: binds the header's counter to
//! a password-derived integrity key through HMAC-SHA256.

use vstd::prelude::*;
use crate::errors::SecureArcError;
use crate::header::{header_hmac_input, serialize_header_hmac_input, HeaderV, SecurityHeader};
use crate::integrity::{compute_checksum, hmac_sha256_of, IntegrityKey};

verus! {

/// The header after one failed attempt is recorded under `key`: the counter
/// is one higher and the checksum is refreshed over the new header.
pub open spec fn incremented_header(h: HeaderV, key: Seq<u8>) -> HeaderV
    recommends
        h.attempt_counter < u32::MAX,
{
    let bumped = HeaderV { attempt_counter: (h.attempt_counter + 1) as u32, ..h };
    HeaderV { checksum: hmac_sha256_of(key, header_hmac_input(bumped)), ..bumped }
}

/// Attempt counter manager holding the integrity key that checksums are
/// computed under.
pub struct AttemptCounter {
    integrity_key: IntegrityKey,
}

impl View for AttemptCounter {
    type V = Seq<u8>;

    closed spec fn view(&self) -> Seq<u8> {
        self.integrity_key@
    }
}

impl AttemptCounter {
    /// Creates an attempt counter manager over an integrity key.
    pub fn new(integrity_key: IntegrityKey) -> (r: Self)
        ensures
            r@ == integrity_key@,
    {
        AttemptCounter { integrity_key }
    }

    /// Recomputes the header checksum over the current header contents,
    /// binding every other header field to the integrity key.
    pub fn update_checksum(&self, header: &mut SecurityHeader) -> (r: Result<(), SecureArcError>)
        requires
            old(header)@.wf(),
        ensures
            r is Ok,
            final(header)@ == (HeaderV {
                checksum: hmac_sha256_of(self@, header_hmac_input(old(header)@)),
                ..old(header)@
            }),
            final(header)@.wf(),
    {
        let input = serialize_header_hmac_input(header);
        let checksum = compute_checksum(&input, &self.integrity_key);
        header.checksum = checksum;
        Ok(())
    }

    /// Verifies the header checksum: succeeds exactly when the stored
    /// checksum is the HMAC of the header (checksum zeroed) under the
    /// integrity key.
    pub fn verify_checksum(&self, header: &SecurityHeader) -> (r: Result<(), SecureArcError>)
        requires
            header@.wf(),
        ensures
            r is Ok <==> header@.checksum == hmac_sha256_of(self@, header_hmac_input(header@)),
            r is Err ==> r->Err_0 is CounterTamperingDetected,
    {
        let input = serialize_header_hmac_input(header);
        let computed = compute_checksum(&input, &self.integrity_key);
        if !crate::directory::eq_bytes(&computed, &header.checksum) {
            return Err(SecureArcError::CounterTamperingDetected);
        }
        Ok(())
    }

    /// Increments the attempt counter and refreshes the checksum, so the new
    /// count is bound to the integrity key and cannot be rolled back without
    /// it. Fails with `ArchiveDestroyed` if the archive already counts as
    /// destroyed.
    pub fn increment(&self, header: &mut SecurityHeader) -> (r: Result<(), SecureArcError>)
        requires
            old(header)@.wf(),
        ensures
            r is Ok <==> !(old(header).attempt_counter >= old(header).max_attempts || old(
                header,
            ).destroyed),
            r is Ok ==> final(header)@ == incremented_header(old(header)@, self@)
                && final(header)@.wf(),
            r is Err ==> final(header)@ == old(header)@ && r->Err_0 is ArchiveDestroyed,
    {
        if header.should_destroy() {
            return Err(SecureArcError::ArchiveDestroyed);
        }
        header.attempt_counter = header.attempt_counter + 1;
        let res = self.update_checksum(header);
        proof {
            assert(header@ == incremented_header(old(header)@, self@));
        }
        res
    }

    /// The current attempt count.
    pub fn get_attempts(&self, header: &SecurityHeader) -> (r: u32)
        ensures
            r == header.attempt_counter,
    {
        header.attempt_counter
    }

    /// How many attempts remain before destruction.
    pub fn get_remaining_attempts(&self, header: &SecurityHeader) -> (r: u32)
        ensures
            header.attempt_counter >= header.max_attempts ==> r == 0,
            header.attempt_counter < header.max_attempts ==> r == header.max_attempts
                - header.attempt_counter,
    {
        if header.attempt_counter >= header.max_attempts {
            0
        } else {
            header.max_attempts - header.attempt_counter
        }
    }

    /// True when the archive must be treated as destroyed.
    pub fn should_destroy(&self, header: &SecurityHeader) -> (r: bool)
        ensures
            r == (header.attempt_counter >= header.max_attempts || header.destroyed),
    {
        header.should_destroy()
    }
}

} // verus!
