//! Word-level meaning of the emitted accessor expressions: extraction of
//! unsigned and signed sub-word fields from a 32-bit word, packing of field
//! values into a word, and the round-trip laws tying the two together.
//!
//! Each executable function below takes the same branches the emitted GLSL
//! expression takes, so its contract states what that expression computes on
//! any raw word.

use vstd::prelude::*;

verus! {

/// The mask keeping the low `nbytes` bytes of a word.
pub open spec fn low_mask(nbytes: nat) -> u32 {
    if nbytes == 1 {
        0xff
    } else if nbytes == 2 {
        0xffff
    } else {
        0xffff_ffff
    }
}

/// The value of the unsigned field of `nbytes` bytes stored at byte `byte`
/// of `raw`: the meaning of the emitted unsigned extraction, whose branches
/// drop the mask when the field reaches the word's top and the shift when it
/// starts the word.
pub fn word_extract_unsigned(raw: u32, byte: u32, nbytes: u32) -> (v: u32)
    requires
        nbytes == 1 || nbytes == 2 || nbytes == 4,
        byte + nbytes <= 4,
    ensures
        v == (raw >> (8 * byte)) & low_mask(nbytes as nat),
{
    if nbytes == 4 {
        proof {
            assert(raw == (raw >> (8 * byte)) & 0xffff_ffffu32) by (bit_vector)
                requires
                    byte == 0,
            ;
        }
        raw
    } else if byte == 0 {
        let m: u32 = if nbytes == 1 {
            0xff
        } else {
            0xffff
        };
        proof {
            assert(raw & m == (raw >> (8 * byte)) & m) by (bit_vector)
                requires
                    byte == 0,
            ;
        }
        raw & m
    } else if byte + nbytes == 4 {
        proof {
            if nbytes == 1 {
                assert(raw >> (8 * byte) == (raw >> (8 * byte)) & 0xffu32) by (bit_vector)
                    requires
                        byte == 3,
                ;
            } else {
                assert(raw >> (8 * byte) == (raw >> (8 * byte)) & 0xffffu32) by (bit_vector)
                    requires
                        byte == 2,
                ;
            }
        }
        raw >> (8 * byte)
    } else {
        let m: u32 = if nbytes == 1 {
            0xff
        } else {
            0xffff
        };
        (raw >> (8 * byte)) & m
    }
}

/// The value of the signed field of `nbytes` bytes stored at byte `byte` of
/// `raw`: the meaning of the emitted signed extraction. The result carries
/// the stored bit pattern in its low bits and lies within the field's
/// two's-complement range, which determines it uniquely.
pub fn word_extract_signed(raw: u32, byte: u32, nbytes: u32) -> (v: i32)
    requires
        nbytes == 1 || nbytes == 2 || nbytes == 4,
        byte + nbytes <= 4,
    ensures
        (v as u32) & low_mask(nbytes as nat) == (raw >> (8 * byte)) & low_mask(nbytes as nat),
        nbytes == 1 ==> -0x80 <= v < 0x80,
        nbytes == 2 ==> -0x8000 <= v < 0x8000,
        nbytes == 4 ==> v as u32 == raw,
{
    if nbytes == 4 {
        let v = raw as i32;
        proof {
            assert(v as u32 == raw && (v as u32) & 0xffff_ffffu32 == (raw >> (8 * byte))
                & 0xffff_ffffu32) by (bit_vector)
                requires
                    byte == 0 && v == raw as i32,
            ;
        }
        v
    } else if byte + nbytes == 4 {
        let v = (raw as i32) >> (8 * byte);
        proof {
            if nbytes == 1 {
                assert((v as u32) & 0xffu32 == (raw >> 24u32) & 0xffu32 && -0x80 <= v < 0x80)
                    by (bit_vector)
                    requires
                        v == (raw as i32) >> 24u32,
                ;
            } else {
                assert((v as u32) & 0xffffu32 == (raw >> 16u32) & 0xffffu32 && -0x8000 <= v
                    < 0x8000) by (bit_vector)
                    requires
                        v == (raw as i32) >> 16u32,
                ;
            }
        }
        v
    } else {
        let up = raw << (8 * ((4 - nbytes) - byte));
        let v = (up as i32) >> (8 * (4 - nbytes));
        proof {
            if nbytes == 1 {
                if byte == 0 {
                    assert((v as u32) & 0xffu32 == (raw >> 0u32) & 0xffu32 && -0x80 <= v < 0x80)
                        by (bit_vector)
                        requires
                            up == raw << 24u32 && v == (up as i32) >> 24u32,
                    ;
                } else if byte == 1 {
                    assert((v as u32) & 0xffu32 == (raw >> 8u32) & 0xffu32 && -0x80 <= v < 0x80)
                        by (bit_vector)
                        requires
                            up == raw << 16u32 && v == (up as i32) >> 24u32,
                    ;
                } else {
                    assert((v as u32) & 0xffu32 == (raw >> 16u32) & 0xffu32 && -0x80 <= v < 0x80)
                        by (bit_vector)
                        requires
                            up == raw << 8u32 && v == (up as i32) >> 24u32,
                    ;
                }
            } else {
                if byte == 0 {
                    assert((v as u32) & 0xffffu32 == (raw >> 0u32) & 0xffffu32 && -0x8000 <= v
                        < 0x8000) by (bit_vector)
                        requires
                            up == raw << 16u32 && v == (up as i32) >> 16u32,
                    ;
                } else {
                    assert((v as u32) & 0xffffu32 == (raw >> 8u32) & 0xffffu32 && -0x8000 <= v
                        < 0x8000) by (bit_vector)
                        requires
                            up == raw << 8u32 && v == (up as i32) >> 16u32,
                    ;
                }
            }
        }
        v
    }
}

/// The bit pattern the emitted packing expression contributes for an
/// unsigned field: the source value shifted to the field's bit offset. The
/// value must fit the field's width; the emitted code does not mask it.
pub fn word_pack_unsigned(value: u32, byte: u32, nbytes: u32) -> (w: u32)
    requires
        nbytes == 1 || nbytes == 2 || nbytes == 4,
        byte + nbytes <= 4,
        value <= low_mask(nbytes as nat),
    ensures
        w == value << (8 * byte),
{
    value << (8 * byte)
}

/// The bit pattern packed for a signed field: the value reinterpreted as
/// unsigned, masked to the field's width unless the field already ends at
/// the word's top, then shifted to its bit offset — the meaning of the
/// emitted packing text, whose top-aligned branch drops the mask.
pub fn word_pack_signed(value: i32, byte: u32, nbytes: u32) -> (w: u32)
    requires
        nbytes == 1 || nbytes == 2 || nbytes == 4,
        byte + nbytes <= 4,
    ensures
        w == ((value as u32) & low_mask(nbytes as nat)) << (8 * byte),
{
    let shift = 8 * byte;
    if nbytes == 1 {
        if shift == 24 {
            proof {
                assert((value as u32) << 24u32 == ((value as u32) & 0xffu32) << 24u32)
                    by (bit_vector);
            }
            (value as u32) << 24
        } else {
            ((value as u32) & 0xff) << shift
        }
    } else if nbytes == 2 {
        if shift == 16 {
            proof {
                assert((value as u32) << 16u32 == ((value as u32) & 0xffffu32) << 16u32)
                    by (bit_vector);
            }
            (value as u32) << 16
        } else {
            ((value as u32) & 0xffff) << shift
        }
    } else {
        proof {
            assert((value as u32) == ((value as u32) & 0xffff_ffffu32) << (8 * byte))
                by (bit_vector)
                requires
                    byte == 0,
            ;
        }
        value as u32
    }
}

/// Round trip for an unsigned field: storing the packed value into a word
/// whose remaining bits belong to other fields, then extracting the field,
/// returns the original value.
pub proof fn lemma_unsigned_roundtrip(rest: u32, value: u32, byte: u32, nbytes: u32)
    requires
        nbytes == 1 || nbytes == 2 || nbytes == 4,
        byte + nbytes <= 4,
        value <= low_mask(nbytes as nat),
        rest & (low_mask(nbytes as nat) << (8 * byte)) == 0,
    ensures
        ((rest | (value << (8 * byte))) >> (8 * byte)) & low_mask(nbytes as nat) == value,
{
    if nbytes == 1 {
        assert(((rest | (value << (8 * byte))) >> (8 * byte)) & 0xffu32 == value) by (bit_vector)
            requires
                byte <= 3 && value <= 0xffu32 && rest & (0xffu32 << (8 * byte)) == 0,
        ;
    } else if nbytes == 2 {
        assert(((rest | (value << (8 * byte))) >> (8 * byte)) & 0xffffu32 == value) by (bit_vector)
            requires
                byte <= 2 && value <= 0xffffu32 && rest & (0xffffu32 << (8 * byte)) == 0,
        ;
    } else {
        assert(((rest | (value << (8 * byte))) >> (8 * byte)) & 0xffff_ffffu32 == value)
            by (bit_vector)
            requires
                byte == 0 && rest & (0xffff_ffffu32 << (8 * byte)) == 0,
        ;
    }
}

/// Round trip for a signed field: the extracted pattern of the packed value
/// is the value's own low bits, so by the range bounds of the signed
/// extraction the decoded value equals the original.
pub proof fn lemma_signed_roundtrip(rest: u32, value: i32, byte: u32, nbytes: u32)
    requires
        nbytes == 1 || nbytes == 2 || nbytes == 4,
        byte + nbytes <= 4,
        rest & (low_mask(nbytes as nat) << (8 * byte)) == 0,
    ensures
        ((rest | (((value as u32) & low_mask(nbytes as nat)) << (8 * byte))) >> (8 * byte))
            & low_mask(nbytes as nat) == (value as u32) & low_mask(nbytes as nat),
{
    assert((value as u32) & low_mask(nbytes as nat) <= low_mask(nbytes as nat)) by {
        let m = low_mask(nbytes as nat);
        assert((value as u32) & m <= m) by (bit_vector);
    }
    lemma_unsigned_roundtrip(rest, (value as u32) & low_mask(nbytes as nat), byte, nbytes);
}

/// Two signed values inside the field's range with the same stored bit
/// pattern are the same value: extraction after packing loses nothing.
pub proof fn lemma_signed_bits_unique(a: i32, b: i32, nbytes: u32)
    requires
        nbytes == 1 || nbytes == 2 || nbytes == 4,
        nbytes == 1 ==> -0x80 <= a < 0x80 && -0x80 <= b < 0x80,
        nbytes == 2 ==> -0x8000 <= a < 0x8000 && -0x8000 <= b < 0x8000,
        (a as u32) & low_mask(nbytes as nat) == (b as u32) & low_mask(nbytes as nat),
    ensures
        a == b,
{
    if nbytes == 1 {
        assert(a == b) by (bit_vector)
            requires
                -0x80 <= a < 0x80 && -0x80 <= b < 0x80 && (a as u32) & 0xffu32 == (b as u32)
                    & 0xffu32,
        ;
    } else if nbytes == 2 {
        assert(a == b) by (bit_vector)
            requires
                -0x8000 <= a < 0x8000 && -0x8000 <= b < 0x8000 && (a as u32) & 0xffffu32 == (b
                    as u32) & 0xffffu32,
        ;
    } else {
        assert(a == b) by (bit_vector)
            requires
                (a as u32) & 0xffff_ffffu32 == (b as u32) & 0xffff_ffffu32,
        ;
    }
}

/// Full signed round trip: pack a value within the field's range into a
/// word whose remaining bits belong to other fields; any result of the
/// signed extraction on that word — a value in the field's range carrying
/// the stored bit pattern — is the packed value itself.
pub proof fn lemma_signed_roundtrip_exact(
    rest: u32,
    value: i32,
    decoded: i32,
    byte: u32,
    nbytes: u32,
)
    requires
        nbytes == 1 || nbytes == 2 || nbytes == 4,
        byte + nbytes <= 4,
        nbytes == 1 ==> -0x80 <= value < 0x80,
        nbytes == 2 ==> -0x8000 <= value < 0x8000,
        rest & (low_mask(nbytes as nat) << (8 * byte)) == 0,
        (decoded as u32) & low_mask(nbytes as nat) == ((rest | (((value as u32) & low_mask(
            nbytes as nat,
        )) << (8 * byte))) >> (8 * byte)) & low_mask(nbytes as nat),
        nbytes == 1 ==> -0x80 <= decoded < 0x80,
        nbytes == 2 ==> -0x8000 <= decoded < 0x8000,
    ensures
        decoded == value,
{
    lemma_signed_roundtrip(rest, value, byte, nbytes);
    lemma_signed_bits_unique(decoded, value, nbytes);
}

/// The value computed by the emitted `_index` helper: element `index` of an
/// array of items of byte size `size` starts `index * size` bytes past the
/// array's own offset.
pub fn element_offset(offset: u32, index: u32, size: u32) -> (r: u32)
    requires
        offset + index * size <= u32::MAX,
    ensures
        r == offset + index * size,
{
    offset + index * size
}

} // verus!
