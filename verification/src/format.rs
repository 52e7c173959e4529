//! The archive container: magic, length-prefixed header and key slots,
//! encrypted directory, and payload region, with the key-derivation relations
//! that tie a password to a header.

use vstd::prelude::*;
use crate::algs::{magic_bytes, magic_vec};
use crate::errors::SecureArcError;
use crate::header::{
    header_bytes, header_hmac_input, parse_header, parse_header_spec, serialize_header, HeaderV,
    SecurityHeader, HEADER_SIZE,
};
use crate::integrity::hmac_sha256_of;
use crate::kdf::{derived_key_of, KdfParams};
use crate::keyslot::{parse_slot, parse_slot_spec, serialize_slot, slot_bytes, KeySlot, KeySlotV};
use crate::le::{
    copy_range, push_u32_le, push_u64_le, read_u32_le, read_u64_le, u32_from_le_bytes,
    u32_le_bytes, u64_from_le_bytes, u64_le_bytes, lemma_u32_le_roundtrip, lemma_u64_le_roundtrip,
};
use crate::aead::aead_open_spec;

verus! {

/// The salt the integrity key is derived from: the header salt with its
/// first byte XORed with 0xFF, for domain separation from the wrapping key.
pub open spec fn integrity_salt_of(salt: Seq<u8>) -> Seq<u8>
    recommends
        salt.len() > 0,
{
    salt.update(0, salt[0] ^ 0xFF)
}

/// The KDF parameters a header carries.
pub open spec fn header_kdf_params(h: HeaderV) -> KdfParams {
    KdfParams {
        algorithm: h.kdf_algorithm,
        memory: h.kdf_memory,
        iterations: h.kdf_iterations,
        parallelism: h.kdf_parallelism,
    }
}

/// The integrity key a password derives for a header: the header's KDF over
/// the domain-separated salt.
pub open spec fn integrity_key_of(h: HeaderV, password: Seq<u8>) -> Seq<u8> {
    derived_key_of(header_kdf_params(h), password, integrity_salt_of(h.salt))
}

/// The key-wrapping key a password derives for a header: the header's KDF
/// over the header salt.
pub open spec fn wrap_key_of(h: HeaderV, password: Seq<u8>) -> Seq<u8> {
    derived_key_of(header_kdf_params(h), password, h.salt)
}

/// The header checksum verifies under the integrity key this password
/// derives.
pub open spec fn header_hmac_ok(h: HeaderV, password: Seq<u8>) -> bool {
    h.checksum == hmac_sha256_of(integrity_key_of(h, password), header_hmac_input(h))
}

/// The master key a password recovers from a key slot, if the slot's
/// ciphertext decrypts under the derived wrapping key.
pub open spec fn slot_master_key_of(h: HeaderV, slot: KeySlotV, password: Seq<u8>) -> Option<
    Seq<u8>,
> {
    aead_open_spec(h.encryption_algorithm, wrap_key_of(h, password), slot.encrypted_key)
}

/// A password is accepted against a header and its primary slot: the header
/// checksum verifies, and the slot decrypts to a 32-byte master key.
pub open spec fn password_accepted(h: HeaderV, slot: KeySlotV, password: Seq<u8>) -> bool {
    &&& header_hmac_ok(h, password)
    &&& slot_master_key_of(h, slot, password) matches Some(k) && k.len() == 32
}

/// Builds the integrity salt: the salt with its first byte XORed with 0xFF.
pub fn integrity_salt_vec(salt: &Vec<u8>) -> (r: Vec<u8>)
    requires
        salt@.len() > 0,
    ensures
        r@ == integrity_salt_of(salt@),
{
    let n = salt.len();
    let mut r: Vec<u8> = Vec::new();
    r.push(salt[0] ^ 0xFF);
    proof {
        assert(r@ =~= integrity_salt_of(salt@).subrange(0, 1));
    }
    let mut i: usize = 1;
    while i < n
        invariant
            n == salt@.len(),
            n >= 1,
            1 <= i <= n,
            r@ == integrity_salt_of(salt@).subrange(0, i as int),
        decreases n - i,
    {
        r.push(salt[i]);
        proof {
            assert(r@ =~= integrity_salt_of(salt@).subrange(0, i as int + 1));
        }
        i = i + 1;
    }
    proof {
        assert(r@ =~= integrity_salt_of(salt@));
    }
    r
}

/// Mathematical model of a parsed archive container.
#[verifier::ext_equal]
pub ghost struct ArchiveV {
    pub header: HeaderV,
    pub slots: Seq<KeySlotV>,
    pub directory_ct: Seq<u8>,
    pub payload: Seq<u8>,
}

impl ArchiveV {
    /// Everything fits behind its length prefixes.
    pub open spec fn wf(self) -> bool {
        &&& self.header.wf()
        &&& self.slots.len() <= u32::MAX
        &&& forall|i: int|
            0 <= i < self.slots.len() ==> (#[trigger] self.slots[i]).encrypted_key.len() + 6
                <= u32::MAX
        &&& self.directory_ct.len() <= u64::MAX
        &&& self.payload.len() <= u64::MAX
    }
}

/// The concatenated length-prefixed encodings of a sequence of key slots.
pub open spec fn slots_bytes(slots: Seq<KeySlotV>) -> Seq<u8>
    decreases slots.len(),
{
    if slots.len() == 0 {
        Seq::empty()
    } else {
        u32_le_bytes(slot_bytes(slots[0]).len() as u32) + slot_bytes(slots[0]) + slots_bytes(
            slots.drop_first(),
        )
    }
}

/// The deterministic encoding of a whole archive container.
pub open spec fn archive_bytes(a: ArchiveV) -> Seq<u8> {
    magic_bytes() + u32_le_bytes(HEADER_SIZE as u32) + header_bytes(a.header) + u32_le_bytes(
        a.slots.len() as u32,
    ) + slots_bytes(a.slots) + u64_le_bytes(a.directory_ct.len() as u64) + a.directory_ct
        + u64_le_bytes(a.payload.len() as u64) + a.payload
}

/// The `n` length-prefixed key slots at the front of `b`, with the bytes they
/// occupy, if well-formed.
pub open spec fn parse_slots_spec(b: Seq<u8>, n: nat) -> Option<(Seq<KeySlotV>, int)>
    decreases n,
{
    if n == 0 {
        Some((Seq::empty(), 0))
    } else if b.len() < 4 {
        None
    } else {
        let slen = u32_from_le_bytes(b.subrange(0, 4)) as int;
        if b.len() < 4 + slen {
            None
        } else {
            match parse_slot_spec(b.subrange(4, 4 + slen)) {
                Option::None => None,
                Option::Some(slot) => match parse_slots_spec(
                    b.subrange(4 + slen, b.len() as int),
                    (n - 1) as nat,
                ) {
                    Option::None => None,
                    Option::Some((rest, used)) => Some((seq![slot] + rest, 4 + slen + used)),
                },
            }
        }
    }
}

/// The archive denoted by `b`, if `b` is exactly an archive encoding.
pub open spec fn parse_archive_spec(b: Seq<u8>) -> Option<ArchiveV> {
    if b.len() < 16 || b.subrange(0, 8) != magic_bytes() {
        None
    } else {
        let hlen = u32_from_le_bytes(b.subrange(8, 12)) as int;
        if b.len() < 16 + hlen {
            None
        } else {
            match parse_header_spec(b.subrange(12, 12 + hlen)) {
                Option::None => None,
                Option::Some(header) => {
                    let scount = u32_from_le_bytes(b.subrange(12 + hlen, 16 + hlen)) as nat;
                    match parse_slots_spec(b.subrange(16 + hlen, b.len() as int), scount) {
                        Option::None => None,
                        Option::Some((slots, used)) => {
                            let pos = 16 + hlen + used;
                            if b.len() < pos + 8 {
                                None
                            } else {
                                let dlen = u64_from_le_bytes(b.subrange(pos, pos + 8)) as int;
                                if b.len() < pos + 8 + dlen + 8 {
                                    None
                                } else {
                                    let plen = u64_from_le_bytes(
                                        b.subrange(pos + 8 + dlen, pos + 16 + dlen),
                                    ) as int;
                                    if b.len() != pos + 16 + dlen + plen {
                                        None
                                    } else {
                                        Some(
                                            ArchiveV {
                                                header: header,
                                                slots: slots,
                                                directory_ct: b.subrange(pos + 8, pos + 8 + dlen),
                                                payload: b.subrange(
                                                    pos + 16 + dlen,
                                                    pos + 16 + dlen + plen,
                                                ),
                                            },
                                        )
                                    }
                                }
                            }
                        },
                    }
                },
            }
        }
    }
}

/// Slot encodings parse back to the slots, with arbitrary bytes appended.
pub proof fn lemma_slots_roundtrip(slots: Seq<KeySlotV>, tail: Seq<u8>)
    requires
        forall|i: int|
            0 <= i < slots.len() ==> (#[trigger] slots[i]).encrypted_key.len() + 6 <= u32::MAX,
    ensures
        parse_slots_spec(slots_bytes(slots) + tail, slots.len()) == Some(
            (slots, slots_bytes(slots).len() as int),
        ),
    decreases slots.len(),
{
    let b = slots_bytes(slots) + tail;
    if slots.len() == 0 {
        assert(slots =~= Seq::<KeySlotV>::empty());
        assert(parse_slots_spec(b, 0) == Some((Seq::<KeySlotV>::empty(), 0int)));
    } else {
        let s0 = slots[0];
        let rest = slots.drop_first();
        let sb = slot_bytes(s0);
        let slen = sb.len() as int;
        assert(slen == 4 + s0.encrypted_key.len() + 2);
        assert(b.subrange(0, 4) =~= u32_le_bytes(sb.len() as u32));
        lemma_u32_le_roundtrip(sb.len() as u32);
        assert(b.subrange(4, 4 + slen) =~= sb);
        crate::keyslot::lemma_slot_roundtrip(s0);
        assert(b.subrange(4 + slen, b.len() as int) =~= slots_bytes(rest) + tail);
        lemma_slots_roundtrip(rest, tail);
        assert(parse_slots_spec(b, slots.len()) == Some(
            (seq![s0] + rest, 4 + slen + slots_bytes(rest).len() as int),
        ));
        assert(seq![s0] + rest =~= slots);
        assert(slots_bytes(slots).len() == 4 + slen + slots_bytes(rest).len());
    }
}

/// An archive encoding parses back to its parts.
#[verifier::rlimit(100)]
#[verifier::spinoff_prover]
pub proof fn lemma_archive_roundtrip(a: ArchiveV)
    requires
        a.wf(),
    ensures
        parse_archive_spec(archive_bytes(a)) == Some(a),
{
    let b = archive_bytes(a);
    let hlen = HEADER_SIZE as int;
    assert(b.subrange(0, 8) =~= magic_bytes());
    assert(b.subrange(8, 12) =~= u32_le_bytes(HEADER_SIZE as u32));
    lemma_u32_le_roundtrip(HEADER_SIZE as u32);
    crate::header::lemma_header_bytes_fields(a.header, a.header.checksum);
    assert(header_bytes(a.header).len() == HEADER_SIZE);
    assert(b.subrange(12, 12 + hlen) =~= header_bytes(a.header));
    crate::header::lemma_header_roundtrip(a.header);
    assert(b.subrange(12 + hlen, 16 + hlen) =~= u32_le_bytes(a.slots.len() as u32));
    lemma_u32_le_roundtrip(a.slots.len() as u32);
    let sb = slots_bytes(a.slots);
    let after_slots = u64_le_bytes(a.directory_ct.len() as u64) + a.directory_ct + u64_le_bytes(
        a.payload.len() as u64,
    ) + a.payload;
    assert(b.subrange(16 + hlen, b.len() as int) =~= sb + after_slots);
    lemma_slots_roundtrip(a.slots, after_slots);
    let used = sb.len() as int;
    let pos = 16 + hlen + used;
    assert(b.subrange(pos, pos + 8) =~= u64_le_bytes(a.directory_ct.len() as u64));
    lemma_u64_le_roundtrip(a.directory_ct.len() as u64);
    let dlen = a.directory_ct.len() as int;
    assert(b.subrange(pos + 8, pos + 8 + dlen) =~= a.directory_ct);
    assert(b.subrange(pos + 8 + dlen, pos + 16 + dlen) =~= u64_le_bytes(a.payload.len() as u64));
    lemma_u64_le_roundtrip(a.payload.len() as u64);
    let plen = a.payload.len() as int;
    assert(b.len() == pos + 16 + dlen + plen);
    assert(b.subrange(pos + 16 + dlen, pos + 16 + dlen + plen) =~= a.payload);
    let parsed = parse_archive_spec(b)->0;
    assert(parsed =~= a);
}

/// Complete archive structure held in memory.
pub struct SecureArcFile {
    /// Security header.
    pub header: SecurityHeader,
    /// Key slots.
    pub key_slots: Vec<KeySlot>,
    /// Encrypted central directory.
    pub directory_ct: Vec<u8>,
    /// Encrypted payload region.
    pub payload: Vec<u8>,
}

impl View for SecureArcFile {
    type V = ArchiveV;

    open spec fn view(&self) -> ArchiveV {
        ArchiveV {
            header: self.header@,
            slots: self.key_slots@.map_values(|s: KeySlot| s@),
            directory_ct: self.directory_ct@,
            payload: self.payload@,
        }
    }
}

/// Serializes an archive into its deterministic encoding.
pub fn serialize_archive(file: &SecureArcFile) -> (r: Vec<u8>)
    requires
        file@.wf(),
    ensures
        r@ == archive_bytes(file@),
{
    let mut out = magic_vec();
    push_u32_le(&mut out, HEADER_SIZE as u32);
    let hb = serialize_header(&file.header);
    out.extend_from_slice(hb.as_slice());
    let nslots = file.key_slots.len();
    push_u32_le(&mut out, nslots as u32);
    let ghost prefix = out@;
    let mut i: usize = 0;
    while i < nslots
        invariant
            nslots == file.key_slots@.len(),
            i <= nslots,
            file@.wf(),
            out@ == prefix + slots_bytes(file@.slots.subrange(0, i as int)),
            prefix == magic_bytes() + u32_le_bytes(HEADER_SIZE as u32) + header_bytes(file.header@)
                + u32_le_bytes(nslots as u32),
        decreases nslots - i,
    {
        proof {
            assert(file@.slots[i as int] == file.key_slots@[i as int]@);
        }
        let sb = serialize_slot(&file.key_slots[i]);
        push_u32_le(&mut out, sb.len() as u32);
        out.extend_from_slice(sb.as_slice());
        proof {
            lemma_slots_bytes_snoc(file@.slots.subrange(0, i as int + 1));
            assert(file@.slots.subrange(0, i as int + 1).drop_last() =~= file@.slots.subrange(
                0,
                i as int,
            ));
            assert(file@.slots.subrange(0, i as int + 1).last() == file@.slots[i as int]);
        }
        i = i + 1;
    }
    proof {
        assert(file@.slots.subrange(0, nslots as int) =~= file@.slots);
    }
    push_u64_le(&mut out, file.directory_ct.len() as u64);
    out.extend_from_slice(file.directory_ct.as_slice());
    push_u64_le(&mut out, file.payload.len() as u64);
    out.extend_from_slice(file.payload.as_slice());
    proof {
        assert(out@ =~= archive_bytes(file@));
    }
    out
}

/// Splitting the last slot off a non-empty sequence splits its encoding.
pub proof fn lemma_slots_bytes_snoc(s: Seq<KeySlotV>)
    requires
        s.len() > 0,
    ensures
        slots_bytes(s) == slots_bytes(s.drop_last()) + u32_le_bytes(
            slot_bytes(s.last()).len() as u32,
        ) + slot_bytes(s.last()),
    decreases s.len(),
{
    if s.len() == 1 {
        assert(s.drop_first() =~= Seq::<KeySlotV>::empty());
        assert(s.drop_last() =~= Seq::<KeySlotV>::empty());
        assert(slots_bytes(s) =~= slots_bytes(s.drop_last()) + u32_le_bytes(
            slot_bytes(s.last()).len() as u32,
        ) + slot_bytes(s.last()));
    } else {
        let rest = s.drop_first();
        lemma_slots_bytes_snoc(rest);
        assert(rest.drop_last() =~= s.drop_last().drop_first());
        assert(rest.last() == s.last());
        assert(slots_bytes(s.drop_last()) == u32_le_bytes(slot_bytes(s.drop_last()[0]).len() as u32)
            + slot_bytes(s.drop_last()[0]) + slots_bytes(s.drop_last().drop_first()));
        assert(slots_bytes(s) =~= slots_bytes(s.drop_last()) + u32_le_bytes(
            slot_bytes(s.last()).len() as u32,
        ) + slot_bytes(s.last()));
    }
}

/// Parses an archive container, reporting which part is malformed.
#[verifier::rlimit(100)]
pub fn parse_archive(data: &Vec<u8>) -> (r: Result<SecureArcFile, SecureArcError>)
    ensures
        r is Ok <==> parse_archive_spec(data@) is Some,
        r is Ok ==> Some(r->Ok_0@) == parse_archive_spec(data@) && r->Ok_0@.wf(),
        r is Err ==> (r->Err_0 is FormatError || r->Err_0 is HeaderCorrupted
            || r->Err_0 is KeySlotError),
{
    let n = data.len();
    if n < 16 {
        return Err(SecureArcError::FormatError(String::from_str("archive too short")));
    }
    let magic = magic_vec();
    let lead = copy_range(data, 0, 8);
    if !crate::directory::eq_bytes(&lead, &magic) {
        return Err(SecureArcError::FormatError(String::from_str("invalid magic number")));
    }
    let hlen32 = read_u32_le(data, 8);
    if (hlen32 as u64) > (n as u64) - 16 {
        return Err(SecureArcError::FormatError(String::from_str("truncated header")));
    }
    let hlen = hlen32 as usize;
    let hb = copy_range(data, 12, hlen);
    let header = match parse_header(&hb) {
        Some(h) => h,
        Option::None => {
            return Err(
                SecureArcError::HeaderCorrupted(String::from_str("malformed security header")),
            );
        },
    };
    let scount = read_u32_le(data, 12 + hlen);
    let ghost slots_region = data@.subrange(16 + hlen as int, n as int);
    let mut key_slots: Vec<KeySlot> = Vec::new();
    let mut pos: usize = 16 + hlen;
    let mut i: u32 = 0;
    while i < scount
        invariant
            n == data@.len(),
            16 + hlen <= pos <= n,
            i <= scount,
            key_slots@.len() == i,
            forall|j: int|
                0 <= j < key_slots@.len() ==> (#[trigger] key_slots@[j])@.encrypted_key.len() + 6
                    <= u32::MAX,
            parse_slots_spec(slots_region, scount as nat) == match parse_slots_spec(
                data@.subrange(pos as int, n as int),
                (scount - i) as nat,
            ) {
                Option::None => None::<(Seq<KeySlotV>, int)>,
                Option::Some((rest, used)) => Some(
                    (
                        key_slots@.map_values(|s: KeySlot| s@) + rest,
                        pos - 16 - hlen + used,
                    ),
                ),
            },
            slots_region == data@.subrange(16 + hlen as int, n as int),
            data@.len() >= 16,
            data@.subrange(0, 8) == magic_bytes(),
            hlen == u32_from_le_bytes(data@.subrange(8, 12)),
            16 + hlen <= n,
            parse_header_spec(data@.subrange(12, 12 + hlen as int)) == Some(header@),
            scount == u32_from_le_bytes(data@.subrange(12 + hlen as int, 16 + hlen as int)),
        decreases scount - i,
    {
        let ghost pre = data@.subrange(pos as int, n as int);
        if n - pos < 4 {
            proof {
                assert(parse_slots_spec(pre, (scount - i) as nat) is None);
            }
            return Err(SecureArcError::KeySlotError(String::from_str("truncated key slot")));
        }
        let slen32 = read_u32_le(data, pos);
        proof {
            assert(pre.subrange(0, 4) =~= data@.subrange(pos as int, pos as int + 4));
        }
        if (slen32 as usize) > n - pos - 4 {
            proof {
                assert(pre.len() < 4 + slen32 as int);
                assert(parse_slots_spec(pre, (scount - i) as nat) is None);
            }
            return Err(SecureArcError::KeySlotError(String::from_str("truncated key slot")));
        }
        let slen = slen32 as usize;
        let sb = copy_range(data, pos + 4, slen);
        proof {
            assert(sb@ =~= pre.subrange(4, 4 + slen as int));
        }
        let slot = match parse_slot(&sb) {
            Some(s) => s,
            Option::None => {
                proof {
                    assert(parse_slots_spec(pre, (scount - i) as nat) is None);
                }
                return Err(
                    SecureArcError::KeySlotError(String::from_str("malformed key slot")),
                );
            },
        };
        proof {
            assert(slot@.encrypted_key.len() + 6 == slen);
            assert(pre.subrange(4 + slen as int, pre.len() as int) =~= data@.subrange(
                pos as int + 4 + slen as int,
                n as int,
            ));
        }
        key_slots.push(slot);
        pos = pos + 4 + slen;
        i = i + 1;
        proof {
            assert(key_slots@.map_values(|s: KeySlot| s@) =~= key_slots@.drop_last().map_values(
                |s: KeySlot| s@,
            ) + seq![key_slots@.last()@]);
        }
    }
    if n - pos < 8 {
        proof {
            assert(parse_slots_spec(data@.subrange(pos as int, n as int), 0) == Some(
                (Seq::<KeySlotV>::empty(), 0int),
            ));
        }
        return Err(SecureArcError::FormatError(String::from_str("truncated directory length")));
    }
    let dlen64 = read_u64_le(data, pos);
    if (n as u64) - (pos as u64) < 16 || dlen64 > (n as u64) - (pos as u64) - 16 {
        return Err(SecureArcError::FormatError(String::from_str("truncated directory")));
    }
    let dlen = dlen64 as usize;
    let directory_ct = copy_range(data, pos + 8, dlen);
    let plen64 = read_u64_le(data, pos + 8 + dlen);
    if plen64 != (n as u64) - (pos as u64) - 16 - (dlen as u64) {
        return Err(SecureArcError::FormatError(String::from_str("truncated payload")));
    }
    let plen = plen64 as usize;
    let payload = copy_range(data, pos + 16 + dlen, plen);
    let file = SecureArcFile { header, key_slots, directory_ct, payload };
    proof {
        assert(parse_slots_spec(data@.subrange(pos as int, n as int), 0) == Some(
            (Seq::<KeySlotV>::empty(), 0int),
        ));
        assert(file@.slots =~= file@.slots + Seq::<KeySlotV>::empty());
        let a = parse_archive_spec(data@)->0;
        assert(parse_archive_spec(data@) is Some);
        assert(a =~= file@);
    }
    Ok(file)
}

} // verus!
