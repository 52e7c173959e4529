//! Laws of the attempt counter and of the archive round trip, stated over
//! the same models the operation contracts use.

use vstd::prelude::*;
use crate::aead::aead_open_spec;
use crate::compress::decompressed_spec;
use crate::counter::incremented_header;
use crate::directory::{
    directory_bytes, entries_wf, find_entry_spec, lemma_directory_roundtrip, parse_directory_spec,
    FileEntryV,
};
use crate::format::{header_hmac_ok, password_accepted, slot_master_key_of, ArchiveV};
use crate::header::HeaderV;

verus! {

/// The (counter, destroyed) pair after one failed unlock attempt against a
/// bound `max`: a destroyed or exhausted archive does not change, otherwise
/// the counter rises by one and destruction fires exactly when it reaches the
/// bound.
pub open spec fn failed_attempt_step(s: (u32, bool), max: u32) -> (u32, bool) {
    if s.1 || s.0 >= max {
        s
    } else {
        (((s.0 + 1) as u32), s.0 + 1 >= max)
    }
}

/// The (counter, destroyed) pair after `k` consecutive failed unlock
/// attempts on a fresh archive.
pub open spec fn failed_attempts(k: nat, max: u32) -> (u32, bool)
    decreases k,
{
    if k == 0 {
        (0u32, false)
    } else {
        failed_attempt_step(failed_attempts((k - 1) as nat, max), max)
    }
}

/// After `k` consecutive failed unlock attempts with `k` below the bound, the
/// counter reads exactly `k` and the archive is not destroyed.
pub proof fn lemma_counter_counts_failures(k: nat, max: u32)
    requires
        k < max,
    ensures
        failed_attempts(k, max) == (k as u32, false),
    decreases k,
{
    if k > 0 {
        lemma_counter_counts_failures((k - 1) as nat, max);
    }
}

/// After exactly `max` failed unlock attempts the archive is destroyed, with
/// the counter at the bound.
pub proof fn lemma_destroyed_at_max(max: u32)
    requires
        max >= 1,
    ensures
        failed_attempts(max as nat, max) == (max, true),
{
    lemma_counter_counts_failures((max - 1) as nat, max);
}

/// Destruction is sticky: every attempt after the bound leaves the archive
/// destroyed with the counter at the bound.
pub proof fn lemma_destroyed_sticky(k: nat, max: u32)
    requires
        max >= 1,
        k >= max,
    ensures
        failed_attempts(k, max) == (max, true),
    decreases k,
{
    if k == max {
        lemma_destroyed_at_max(max);
    } else {
        lemma_destroyed_sticky((k - 1) as nat, max);
    }
}

/// One failed unlock on a live archive is one step of the model: the header
/// after `increment` carries the stepped counter, and destruction fires
/// exactly when the stepped counter reaches the bound.
pub proof fn lemma_failed_unlock_matches_step(h: HeaderV, key: Seq<u8>)
    requires
        !h.destroyed,
        h.attempt_counter < h.max_attempts,
    ensures
        ({
            let h2 = incremented_header(h, key);
            failed_attempt_step((h.attempt_counter, h.destroyed), h.max_attempts) == (
                h2.attempt_counter,
                h2.attempt_counter >= h.max_attempts,
            )
        }),
{
}

/// The archive round trip: a password that the writer bound to an archive is
/// accepted by the reader's checks, the directory ciphertext decrypts and
/// parses back to the written entries, and a found entry's payload slice
/// decrypts and decompresses back to the file that was added. Together with
/// the writer's and reader's own contracts this says that create, open,
/// unlock and extract reproduce the stored data exactly.
pub proof fn lemma_create_open_extract(
    a: ArchiveV,
    pw: Seq<u8>,
    mk: Seq<u8>,
    entries: Seq<FileEntryV>,
    e: FileEntryV,
    comp: Seq<u8>,
    d: Seq<u8>,
)
    requires
        a.slots.len() >= 1,
        header_hmac_ok(a.header, pw),
        slot_master_key_of(a.header, a.slots[0], pw) == Some(mk),
        mk.len() == 32,
        aead_open_spec(a.header.encryption_algorithm, mk, a.directory_ct) == Some(
            directory_bytes(entries),
        ),
        entries_wf(entries),
        find_entry_spec(entries, e.path) == Some(e),
        e.data_offset + e.encrypted_size <= a.payload.len(),
        aead_open_spec(
            a.header.encryption_algorithm,
            mk,
            a.payload.subrange(e.data_offset as int, e.data_offset + e.encrypted_size),
        ) == Some(comp),
        decompressed_spec(a.header.compression_algorithm, comp) == Some(d),
    ensures
        password_accepted(a.header, a.slots[0], pw),
        parse_directory_spec(directory_bytes(entries)) == Some(entries),
        ({
            let ct = a.payload.subrange(e.data_offset as int, e.data_offset + e.encrypted_size);
            decompressed_spec(
                a.header.compression_algorithm,
                aead_open_spec(a.header.encryption_algorithm, mk, ct)->0,
            ) == Some(d)
        }),
{
    lemma_directory_roundtrip(entries);
}

} // verus!
