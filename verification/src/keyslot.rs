//! Key slots: AEAD-wrapped copies of the master key, with their binary
//! encoding.

use vstd::prelude::*;
use crate::header::bool_byte;
use crate::le::{copy_range, push_u32_le, read_u32_le, u32_from_le_bytes, u32_le_bytes};
use crate::rng::fill_random;

verus! {

/// Mathematical model of a key slot.
#[verifier::ext_equal]
pub ghost struct KeySlotV {
    pub encrypted_key: Seq<u8>,
    pub slot_id: u8,
    pub active: bool,
}

/// Key slot containing an encrypted copy of the master key.
pub struct KeySlot {
    /// Encrypted master key.
    pub encrypted_key: Vec<u8>,
    /// Key slot identifier (0 = primary, 1+ = recovery slots).
    pub slot_id: u8,
    /// Whether this slot is active.
    pub active: bool,
}

impl View for KeySlot {
    type V = KeySlotV;

    open spec fn view(&self) -> KeySlotV {
        KeySlotV { encrypted_key: self.encrypted_key@, slot_id: self.slot_id, active: self.active }
    }
}

impl KeySlotV {
    /// The encrypted key fits behind its 32-bit length prefix.
    pub open spec fn wf(self) -> bool {
        self.encrypted_key.len() <= u32::MAX
    }
}

/// The deterministic encoding of a key slot: length-prefixed key bytes, the
/// slot id, and the active flag.
pub open spec fn slot_bytes(s: KeySlotV) -> Seq<u8> {
    u32_le_bytes(s.encrypted_key.len() as u32) + s.encrypted_key + seq![
        s.slot_id,
        bool_byte(s.active),
    ]
}

/// The key slot denoted by an encoding, if well-formed; the encoding must be
/// exactly consumed.
pub open spec fn parse_slot_spec(b: Seq<u8>) -> Option<KeySlotV> {
    if b.len() < 6 {
        None
    } else {
        let klen = u32_from_le_bytes(b.subrange(0, 4)) as int;
        if b.len() != 4 + klen + 2 {
            None
        } else {
            let flag = b[4 + klen + 1];
            if flag == 0 || flag == 1 {
                Some(
                    KeySlotV {
                        encrypted_key: b.subrange(4, 4 + klen),
                        slot_id: b[4 + klen],
                        active: flag == 1,
                    },
                )
            } else {
                None
            }
        }
    }
}

/// Parsing the encoding of a well-formed key slot gives the slot back.
pub proof fn lemma_slot_roundtrip(s: KeySlotV)
    requires
        s.wf(),
    ensures
        parse_slot_spec(slot_bytes(s)) == Some(s),
{
    let b = slot_bytes(s);
    let klen = s.encrypted_key.len() as int;
    assert(b.subrange(0, 4) =~= u32_le_bytes(s.encrypted_key.len() as u32));
    crate::le::lemma_u32_le_roundtrip(s.encrypted_key.len() as u32);
    assert(b.subrange(4, 4 + klen) =~= s.encrypted_key);
    assert(b[4 + klen] == s.slot_id);
    assert(b[4 + klen + 1] == bool_byte(s.active));
    assert(parse_slot_spec(b)->0 =~= s);
}

/// Serializes a key slot.
pub fn serialize_slot(s: &KeySlot) -> (r: Vec<u8>)
    requires
        s@.wf(),
    ensures
        r@ == slot_bytes(s@),
{
    let mut out: Vec<u8> = Vec::new();
    push_u32_le(&mut out, s.encrypted_key.len() as u32);
    out.extend_from_slice(s.encrypted_key.as_slice());
    out.push(s.slot_id);
    if s.active {
        out.push(1);
    } else {
        out.push(0);
    }
    proof {
        assert(out@ =~= slot_bytes(s@));
    }
    out
}

/// Parses a key slot encoding.
pub fn parse_slot(data: &Vec<u8>) -> (r: Option<KeySlot>)
    ensures
        r is Some <==> parse_slot_spec(data@) is Some,
        r is Some ==> r->0@ == parse_slot_spec(data@)->0 && r->0@.wf(),
{
    let n = data.len();
    if n < 6 {
        return None;
    }
    let klen32 = read_u32_le(data, 0);
    let klen = klen32 as usize;
    if klen > n - 6 || n != 4 + klen + 2 {
        return None;
    }
    let flag = data[4 + klen + 1];
    if flag != 0 && flag != 1 {
        return None;
    }
    Some(
        KeySlot {
            encrypted_key: copy_range(data, 4, klen),
            slot_id: data[4 + klen],
            active: flag == 1,
        },
    )
}

impl KeySlot {
    /// Creates a new, empty, inactive key slot.
    pub fn new(slot_id: u8) -> (r: Self)
        ensures
            r@ == (KeySlotV { encrypted_key: Seq::<u8>::empty(), slot_id: slot_id, active: false }),
    {
        let r = KeySlot { encrypted_key: Vec::new(), slot_id, active: false };
        proof {
            assert(r@.encrypted_key =~= Seq::<u8>::empty());
        }
        r
    }

    /// Overwrites the encrypted key with fresh random bytes of equal length
    /// and clears the active flag, as the self-destruct procedure requires.
    pub fn zeroize(&mut self)
        ensures
            final(self).encrypted_key@.len() == old(self).encrypted_key@.len(),
            final(self).slot_id == old(self).slot_id,
            !final(self).active,
    {
        if self.encrypted_key.len() > 0 {
            let fresh = fill_random(self.encrypted_key.len());
            self.encrypted_key = fresh;
        }
        self.active = false;
    }

    /// True when the slot holds no usable key material: inactive or empty.
    pub fn is_zeroized(&self) -> (r: bool)
        ensures
            r == (!self.active || self.encrypted_key@.len() == 0),
    {
        !self.active || self.encrypted_key.len() == 0
    }
}

} // verus!
