//! The self-destruct procedure: zeroize every key slot and corrupt the
//! header so no derivable key can open the archive again.

use vstd::prelude::*;
use crate::algs::{CHECKSUM_SIZE, SALT_SIZE};
use crate::errors::SecureArcError;
use crate::header::SecurityHeader;
use crate::keyslot::KeySlot;
use crate::rng::{fill_random, random_u32};

verus! {

/// Every slot in the sequence is inactive.
pub open spec fn slots_inactive(slots: Seq<KeySlot>) -> bool {
    forall|i: int| 0 <= i < slots.len() ==> !(#[trigger] slots[i]).active
}

/// Self-destruct executor.
pub struct SelfDestruct;

impl SelfDestruct {
    /// Executes self-destruction: overwrites every slot's key material with
    /// random bytes of equal length and clears its active flag, randomizes
    /// the salt and KDF cost parameters, sets the destruction flag, and
    /// overwrites the checksum. The attempt counter, its bound, and the
    /// algorithm identifiers stay as they were; the flag never clears again.
    pub fn execute_destruction(header: &mut SecurityHeader, key_slots: &mut Vec<KeySlot>) -> (r:
        Result<(), SecureArcError>)
        ensures
            r is Ok,
            final(header).destroyed,
            final(header)@.wf(),
            final(header).attempt_counter == old(header).attempt_counter,
            final(header).max_attempts == old(header).max_attempts,
            final(header).kdf_algorithm == old(header).kdf_algorithm,
            final(header).encryption_algorithm == old(header).encryption_algorithm,
            final(header).compression_algorithm == old(header).compression_algorithm,
            final(key_slots)@.len() == old(key_slots)@.len(),
            forall|i: int|
                0 <= i < old(key_slots)@.len() ==> (#[trigger] final(key_slots)@[i])@.encrypted_key.len()
                    == old(key_slots)@[i]@.encrypted_key.len() && !final(key_slots)@[i].active
                    && final(key_slots)@[i].slot_id == old(key_slots)@[i].slot_id,
    {
        let n = key_slots.len();
        let mut i: usize = 0;
        while i < n
            invariant
                n == key_slots@.len(),
                i <= n,
                key_slots@.len() == old(key_slots)@.len(),
                forall|j: int|
                    i <= j < n ==> #[trigger] key_slots@[j] == old(key_slots)@[j],
                forall|j: int|
                    0 <= j < i ==> (#[trigger] key_slots@[j])@.encrypted_key.len() == old(
                        key_slots,
                    )@[j]@.encrypted_key.len() && !key_slots@[j].active && key_slots@[j].slot_id
                        == old(key_slots)@[j].slot_id,
            decreases n - i,
        {
            let slot = &mut key_slots[i];
            slot.zeroize();
            i = i + 1;
        }
        header.salt = fill_random(SALT_SIZE);
        header.kdf_memory = random_u32();
        header.kdf_iterations = random_u32();
        header.kdf_parallelism = random_u32();
        header.destroyed = true;
        header.checksum = fill_random(CHECKSUM_SIZE);
        Ok(())
    }

    /// True when the header says the archive is destroyed: the flag is set or
    /// the counter has reached its bound.
    pub fn is_destroyed(header: &SecurityHeader) -> (r: bool)
        ensures
            r == (header.destroyed || header.attempt_counter >= header.max_attempts),
    {
        header.destroyed || header.should_destroy()
    }

    /// True when every key slot has been zeroized.
    pub fn are_key_slots_destroyed(key_slots: &Vec<KeySlot>) -> (r: bool)
        ensures
            r == (forall|i: int|
                0 <= i < key_slots@.len() ==> !(#[trigger] key_slots@[i]).active || key_slots@[i]@.encrypted_key.len()
                    == 0),
    {
        let n = key_slots.len();
        let mut i: usize = 0;
        while i < n
            invariant
                n == key_slots@.len(),
                i <= n,
                forall|j: int|
                    0 <= j < i ==> !(#[trigger] key_slots@[j]).active || key_slots@[j]@.encrypted_key.len()
                        == 0,
            decreases n - i,
        {
            if key_slots[i].active && key_slots[i].encrypted_key.len() > 0 {
                return false;
            }
            i = i + 1;
        }
        true
    }
}

} // verus!
