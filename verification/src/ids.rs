//! Runner, workflow and actor identifiers: opaque 128-bit values with the
//! datacenter label embedded in the top 16 bits, plus the textual form used
//! on the wire (32 lowercase hex digits).

use vstd::prelude::*;

verus! {

/// An opaque 128-bit identifier.
pub type Id = u128;

/// Mask of the 112 low bits of an id, below the datacenter label.
pub const ID_TAIL_MASK: u128 = 0xffff_ffff_ffff_ffff_ffff_ffff_ffff;

/// The datacenter label embedded in an id's top 16 bits.
pub open spec fn spec_dc_label(id: Id) -> u16 {
    (id >> 112) as u16
}

/// Mint a fresh id for this datacenter from caller-supplied entropy:
/// the label in the top 16 bits, the entropy's low 112 bits below it.
pub fn mint_id(dc_label: u16, entropy: u128) -> (id: Id)
    ensures
        spec_dc_label(id) == dc_label,
        id & ID_TAIL_MASK == entropy & ID_TAIL_MASK,
{
    let id: u128 = ((dc_label as u128) << 112) | (entropy & ID_TAIL_MASK);
    proof {
        assert((((dc_label as u128) << 112) | (entropy
            & 0xffff_ffff_ffff_ffff_ffff_ffff_ffff)) >> 112 == dc_label as u128)
            by (bit_vector);
        assert((((dc_label as u128) << 112) | (entropy
            & 0xffff_ffff_ffff_ffff_ffff_ffff_ffff)) & 0xffff_ffff_ffff_ffff_ffff_ffff_ffff
            == entropy & 0xffff_ffff_ffff_ffff_ffff_ffff_ffff) by (bit_vector);
        assert(dc_label as u128 as u16 == dc_label);
    }
    id
}

/// The numeric value of one lowercase hex digit, 16 for any other byte.
pub open spec fn spec_hex_digit(b: u8) -> u8 {
    if 48 <= b <= 57 {
        (b - 48) as u8
    } else if 97 <= b <= 102 {
        (b - 97 + 10) as u8
    } else {
        16
    }
}

/// A valid id text: exactly 32 bytes, each a lowercase hex digit.
pub open spec fn spec_id_text_valid(s: Seq<u8>) -> bool {
    s.len() == 32 && forall|i: int| 0 <= i < s.len() ==> spec_hex_digit(#[trigger] s[i]) < 16
}

/// The id an all-hex text denotes, big-endian, most significant digit first.
pub open spec fn spec_id_of_text(s: Seq<u8>) -> Id
    decreases s.len(),
{
    if s.len() == 0 {
        0
    } else {
        (spec_id_of_text(s.drop_last()) << 4) | spec_hex_digit(s.last()) as u128
    }
}

fn hex_digit(b: u8) -> (v: u8)
    ensures
        v == spec_hex_digit(b),
{
    if 48 <= b && b <= 57 {
        b - 48
    } else if 97 <= b && b <= 102 {
        b - 97 + 10
    } else {
        16
    }
}

/// Parse an actor or runner id from its wire text: exactly 32 lowercase hex
/// digits. Returns `None`, and only then, for any other byte string.
pub fn parse_id(s: &Vec<u8>) -> (r: Option<Id>)
    ensures
        r matches Some(id) ==> spec_id_text_valid(s@) && id == spec_id_of_text(s@),
        r is None ==> !spec_id_text_valid(s@),
{
    if s.len() != 32 {
        return None;
    }
    let mut acc: u128 = 0;
    let mut i: usize = 0;
    while i < 32
        invariant
            i <= 32,
            s@.len() == 32,
            acc == spec_id_of_text(s@.take(i as int)),
            forall|k: int| 0 <= k < i ==> spec_hex_digit(#[trigger] s@[k]) < 16,
        decreases 32 - i,
    {
        let d = hex_digit(s[i]);
        if d >= 16 {
            return None;
        }
        acc = (acc << 4) | (d as u128);
        proof {
            assert(s@.take(i + 1 as int).drop_last() =~= s@.take(i as int));
            assert(s@.take(i + 1 as int).last() == s@[i as int]);
        }
        i += 1;
    }
    proof {
        assert(s@.take(32) =~= s@);
    }
    Some(acc)
}

} // verus!
