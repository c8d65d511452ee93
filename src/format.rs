//! The records of a microcode dump, its errors, and the byte-level model of
//! its fields.
use vstd::prelude::*;

verus! {

/// Why a dump could not be decoded.
#[derive(Clone, Copy, Debug, PartialEq, Eq, Structural)]
pub enum FormatError {
    /// The input ended inside a field.
    UnexpectedEndOfInput,
    /// The header tag or its magic byte is wrong.
    InvalidHeader,
    /// The version tag is wrong.
    InvalidVersion,
    /// The comment tag is wrong.
    InvalidComment,
    /// The tag of the A- or B-memory section is wrong.
    InvalidMemorySection,
    /// The tag of the control-memory section is wrong.
    InvalidControlMemory,
    /// The type-map tag, or one of its two zero words, is wrong.
    InvalidTypeMap,
    /// The tag after the type map is neither end of file nor pico-store.
    InvalidPicoStore,
    /// The pico-store entries are not followed by the `0xFFFF` sentinel.
    InvalidPicoStoreTerminator,
    /// The pico-store sentinel is not followed by the end-of-file tag.
    InvalidPicoStoreEof,
}

/// One word of the A or B memory.
#[derive(Clone, Copy, Debug, PartialEq, Eq, Structural)]
pub struct AddressedWord {
    pub address: u16,
    /// Forty bits, read little-endian.
    pub payload: u64,
}

/// One 112-bit word of the control memory, split into two halves.
#[derive(Clone, Copy, Debug, PartialEq, Eq, Structural)]
pub struct ControlWord {
    pub address: u16,
    /// The first eight bytes of the word.
    pub low: u64,
    /// The next six bytes of the word.
    pub high: u64,
}

/// One entry of the pico-store.
#[derive(Clone, Copy, Debug, PartialEq, Eq, Structural)]
pub struct PicoStoreEntry {
    pub address: u16,
    pub data: u32,
}

pub const TAG_HEADER: u8 = 1;
pub const TAG_VERSION: u8 = 2;
pub const TAG_COMMENT: u8 = 3;
pub const TAG_A_MEM: u8 = 4;
pub const TAG_B_MEM: u8 = 5;
pub const TAG_C_MEM: u8 = 6;
pub const TAG_TYPE_MAP: u8 = 7;
pub const TAG_EOF: u8 = 8;
pub const TAG_PICO_STORE: u8 = 10;
/// The byte that follows the header tag.
pub const HEADER_MAGIC: u8 = 5;
/// The number of entries of a pico-store section.
pub const PICO_STORE_ENTRIES: u16 = 255;
/// The word that closes a pico-store section.
pub const PICO_STORE_SENTINEL: u16 = 0xFFFF;

/// The unsigned integer whose little-endian bytes are `s`.
pub open spec fn le_value(s: Seq<u8>) -> nat
    decreases s.len(),
{
    if s.len() == 0 {
        0
    } else {
        s[0] as nat + 256 * le_value(s.drop_first())
    }
}

/// `256` to the power `n`.
pub open spec fn pow256(n: nat) -> nat
    decreases n,
{
    if n == 0 {
        1
    } else {
        256 * pow256((n - 1) as nat)
    }
}

/// Reading `n` bytes of `s` at position `p`: their little-endian value and the
/// position after them, or the end of the input.
pub open spec fn read_le(s: Seq<u8>, p: int, n: nat) -> Result<(nat, int), FormatError> {
    if 0 <= p && p + n <= s.len() {
        Ok((le_value(s.subrange(p, p + n)), p + n))
    } else {
        Err(FormatError::UnexpectedEndOfInput)
    }
}

/// A little-endian value of `s.len()` bytes is below `256^len`.
pub proof fn lemma_le_value_bound(s: Seq<u8>)
    ensures
        le_value(s) < pow256(s.len()),
    decreases s.len(),
{
    if s.len() > 0 {
        lemma_le_value_bound(s.drop_first());
        assert(pow256(s.len()) == 256 * pow256((s.len() - 1) as nat));
    }
}

/// `256^n` grows with `n`.
pub proof fn lemma_pow256_mono(a: nat, b: nat)
    requires
        a <= b,
    ensures
        pow256(a) <= pow256(b),
    decreases b,
{
    if a < b {
        lemma_pow256_mono(a, (b - 1) as nat);
    }
}

/// A single byte is its own value.
pub proof fn lemma_le_value_one(s: Seq<u8>)
    requires
        s.len() == 1,
    ensures
        le_value(s) == s[0] as nat,
{
    assert(le_value(s.drop_first()) == 0);
}

/// Two bytes are the low byte plus 256 times the high byte.
pub proof fn lemma_le_value_two(s: Seq<u8>)
    requires
        s.len() == 2,
    ensures
        le_value(s) == s[0] as nat + 256 * s[1] as nat,
{
    let t = s.drop_first();
    assert(t.len() == 1 && t[0] == s[1]);
    lemma_le_value_one(t);
}

/// The powers of 256 that bound the integer reads.
pub proof fn lemma_pow256_values()
    ensures
        pow256(1) == 256,
        pow256(2) == 0x1_0000,
        pow256(4) == 0x1_0000_0000,
        pow256(5) == 0x100_0000_0000,
        pow256(6) == 0x1_0000_0000_0000,
        pow256(8) == 0x1_0000_0000_0000_0000,
        pow256(13) == 0x100_0000_0000_0000_0000_0000_0000,
{
    reveal_with_fuel(pow256, 14);
}

} // verus!
