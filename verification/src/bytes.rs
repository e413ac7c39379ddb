//! Little-endian byte strings and the numbers they spell.

use vstd::prelude::*;

verus! {

/// The `width` low bytes of `x`, least significant first.
pub open spec fn le_bytes(x: int, width: nat) -> Seq<u8>
    decreases width,
{
    if width == 0 {
        Seq::empty()
    } else {
        seq![(x % 256) as u8] + le_bytes(x / 256, (width - 1) as nat)
    }
}

/// The number that a little-endian byte string spells.
pub open spec fn le_value(bytes: Seq<u8>) -> int
    decreases bytes.len(),
{
    if bytes.len() == 0 {
        0
    } else {
        bytes[0] as int + 256 * le_value(bytes.drop_first())
    }
}

/// 256 to the power of `width`: how many numbers `width` bytes can spell.
pub open spec fn byte_modulus(width: nat) -> int
    decreases width,
{
    if width == 0 {
        1
    } else {
        256 * byte_modulus((width - 1) as nat)
    }
}

/// The byte moduli of the widths up to eight.
pub proof fn lemma_byte_modulus_values()
    ensures
        byte_modulus(0) == 1,
        byte_modulus(1) == 0x100,
        byte_modulus(2) == 0x1_0000,
        byte_modulus(3) == 0x100_0000,
        byte_modulus(4) == 0x1_0000_0000,
        byte_modulus(5) == 0x100_0000_0000,
        byte_modulus(6) == 0x1_0000_0000_0000,
        byte_modulus(7) == 0x100_0000_0000_0000,
        byte_modulus(8) == 0x1_0000_0000_0000_0000,
{
    reveal_with_fuel(byte_modulus, 10);
}

/// `le_bytes` gives as many bytes as it is asked for.
pub proof fn lemma_le_bytes_len(x: int, width: nat)
    ensures
        le_bytes(x, width).len() == width,
    decreases width,
{
    if width > 0 {
        lemma_le_bytes_len(x / 256, (width - 1) as nat);
    }
}

/// A byte string spells a number below the byte modulus of its length.
pub proof fn lemma_le_value_bound(bytes: Seq<u8>)
    ensures
        0 <= le_value(bytes) < byte_modulus(bytes.len()),
    decreases bytes.len(),
{
    if bytes.len() > 0 {
        lemma_le_value_bound(bytes.drop_first());
    }
}

/// The bytes of a number that `width` bytes can spell, spell that number.
pub proof fn lemma_le_value_of_bytes(x: int, width: nat)
    requires
        0 <= x < byte_modulus(width),
    ensures
        le_value(le_bytes(x, width)) == x,
    decreases width,
{
    if width > 0 {
        let rest = le_bytes(x / 256, (width - 1) as nat);
        let all = le_bytes(x, width);
        lemma_le_bytes_len(x / 256, (width - 1) as nat);
        assert(all.drop_first() =~= rest);
        lemma_le_value_of_bytes(x / 256, (width - 1) as nat);
    }
}

/// The bytes of the number that a byte string spells are that byte string.
pub proof fn lemma_le_bytes_of_value(bytes: Seq<u8>)
    ensures
        le_bytes(le_value(bytes), bytes.len()) == bytes,
    decreases bytes.len(),
{
    if bytes.len() > 0 {
        let tail = bytes.drop_first();
        lemma_le_bytes_of_value(tail);
        lemma_le_value_bound(tail);
        let x = le_value(bytes);
        assert(x % 256 == bytes[0] as int && x / 256 == le_value(tail)) by {
            vstd::arithmetic::div_mod::lemma_fundamental_div_mod_converse(
                x,
                256,
                le_value(tail),
                bytes[0] as int,
            );
        }
        assert(le_bytes(x, bytes.len()) =~= bytes);
    }
}

} // verus!
