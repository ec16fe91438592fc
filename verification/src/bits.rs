//! Bit and bitfield helpers over the machine word sizes the kernel uses.
//!
//! A field is addressed as a half-open bit range `[start, end)`, exactly as
//! the hardware manuals give register layouts.

use vstd::prelude::*;

verus! {

/// Bit `index` of `v`, as a boolean.
pub open spec fn spec_get_bit_u64(v: u64, index: u64) -> bool {
    v & (1u64 << index) != 0
}

/// The field `[start, end)` of `v`, shifted down to bit 0.
pub open spec fn spec_get_bits_u64(v: u64, start: u64, end: u64) -> u64 {
    ((v << ((64 - end) as u64)) >> ((64 - end) as u64)) >> start
}

/// `v` with bit `index` forced to `value`.
pub open spec fn spec_set_bit_u64(v: u64, index: u64, value: bool) -> u64 {
    if value {
        v | (1u64 << index)
    } else {
        v & !(1u64 << index)
    }
}

/// `v` with the field `[start, end)` replaced by `value`.
pub open spec fn spec_set_bits_u64(v: u64, start: u64, end: u64, value: u64) -> u64 {
    (v & !((!0u64 << ((64 - end) as u64) >> ((64 - end) as u64)) >> start << start)) | (value << start)
}

pub fn get_bit_u64(v: u64, index: u64) -> (r: bool)
    requires
        index < 64,
    ensures
        r == spec_get_bit_u64(v, index),
{
    v & (1u64 << index) != 0
}

pub fn get_bits_u64(v: u64, start: u64, end: u64) -> (r: u64)
    requires
        start < end <= 64,
    ensures
        r == spec_get_bits_u64(v, start, end),
{
    let sh: u64 = 64 - end;
    ((v << sh) >> sh) >> start
}

pub fn set_bit_u64(v: u64, index: u64, value: bool) -> (r: u64)
    requires
        index < 64,
    ensures
        r == spec_set_bit_u64(v, index, value),
{
    if value {
        v | (1u64 << index)
    } else {
        v & !(1u64 << index)
    }
}

pub fn set_bits_u64(v: u64, start: u64, end: u64, value: u64) -> (r: u64)
    requires
        start < end <= 64,
        value << ((64 - (end - start)) as u64) >> ((64 - (end - start)) as u64) == value,
    ensures
        r == spec_set_bits_u64(v, start, end, value),
{
    let keep: u64 = !((!0u64 << (64 - end) >> (64 - end)) >> start << start);
    (v & keep) | (value << start)
}

/// Writing back the bits one just read leaves the word unchanged.
#[verifier::rlimit(100)]
pub proof fn lemma_set_bits_u64_roundtrip(v: u64, start: u64, end: u64)
    by (bit_vector)
    requires
        start < end <= 64,
    ensures
        spec_set_bits_u64(v, start, end, spec_get_bits_u64(v, start, end)) == v,
{
}

/// A field write changes no bit outside the field.
#[verifier::rlimit(100)]
pub proof fn lemma_set_bits_u64_frame(v: u64, start: u64, end: u64, value: u64, i: u64)
    by (bit_vector)
    requires
        start < end <= 64,
        value << ((64 - (end - start)) as u64) >> ((64 - (end - start)) as u64) == value,
        i < 64,
        i < start || end <= i,
    ensures
        spec_get_bit_u64(spec_set_bits_u64(v, start, end, value), i) == spec_get_bit_u64(v, i),
{
}

/// A field read after a field write of an in-range value returns that value.
#[verifier::rlimit(100)]
pub proof fn lemma_get_bits_u64_of_set_bits(v: u64, start: u64, end: u64, value: u64)
    by (bit_vector)
    requires
        start < end <= 64,
        value << ((64 - (end - start)) as u64) >> ((64 - (end - start)) as u64) == value,
    ensures
        spec_get_bits_u64(spec_set_bits_u64(v, start, end, value), start, end) == value,
{
}

/// Bit `index` of `v`, as a boolean.
pub open spec fn spec_get_bit_u32(v: u32, index: u32) -> bool {
    v & (1u32 << index) != 0
}

/// The field `[start, end)` of `v`, shifted down to bit 0.
pub open spec fn spec_get_bits_u32(v: u32, start: u32, end: u32) -> u32 {
    ((v << ((32 - end) as u32)) >> ((32 - end) as u32)) >> start
}

/// `v` with bit `index` forced to `value`.
pub open spec fn spec_set_bit_u32(v: u32, index: u32, value: bool) -> u32 {
    if value {
        v | (1u32 << index)
    } else {
        v & !(1u32 << index)
    }
}

/// `v` with the field `[start, end)` replaced by `value`.
pub open spec fn spec_set_bits_u32(v: u32, start: u32, end: u32, value: u32) -> u32 {
    (v & !((!0u32 << ((32 - end) as u32) >> ((32 - end) as u32)) >> start << start)) | (value << start)
}

pub fn get_bit_u32(v: u32, index: u32) -> (r: bool)
    requires
        index < 32,
    ensures
        r == spec_get_bit_u32(v, index),
{
    v & (1u32 << index) != 0
}

pub fn get_bits_u32(v: u32, start: u32, end: u32) -> (r: u32)
    requires
        start < end <= 32,
    ensures
        r == spec_get_bits_u32(v, start, end),
{
    let sh: u32 = 32 - end;
    ((v << sh) >> sh) >> start
}

pub fn set_bit_u32(v: u32, index: u32, value: bool) -> (r: u32)
    requires
        index < 32,
    ensures
        r == spec_set_bit_u32(v, index, value),
{
    if value {
        v | (1u32 << index)
    } else {
        v & !(1u32 << index)
    }
}

pub fn set_bits_u32(v: u32, start: u32, end: u32, value: u32) -> (r: u32)
    requires
        start < end <= 32,
        value << ((32 - (end - start)) as u32) >> ((32 - (end - start)) as u32) == value,
    ensures
        r == spec_set_bits_u32(v, start, end, value),
{
    let keep: u32 = !((!0u32 << (32 - end) >> (32 - end)) >> start << start);
    (v & keep) | (value << start)
}

/// Bit `index` of `v`, as a boolean.
pub open spec fn spec_get_bit_u16(v: u16, index: u16) -> bool {
    v & (1u16 << index) != 0
}

/// The field `[start, end)` of `v`, shifted down to bit 0.
pub open spec fn spec_get_bits_u16(v: u16, start: u16, end: u16) -> u16 {
    ((v << ((16 - end) as u16)) >> ((16 - end) as u16)) >> start
}

pub fn get_bit_u16(v: u16, index: u16) -> (r: bool)
    requires
        index < 16,
    ensures
        r == spec_get_bit_u16(v, index),
{
    v & (1u16 << index) != 0
}

pub fn get_bits_u16(v: u16, start: u16, end: u16) -> (r: u16)
    requires
        start < end <= 16,
    ensures
        r == spec_get_bits_u16(v, start, end),
{
    let sh: u16 = 16 - end;
    ((v << sh) >> sh) >> start
}

/// Bit `index` of `v`, as a boolean.
pub open spec fn spec_get_bit_u8(v: u8, index: u8) -> bool {
    v & (1u8 << index) != 0
}

pub fn get_bit_u8(v: u8, index: u8) -> (r: bool)
    requires
        index < 8,
    ensures
        r == spec_get_bit_u8(v, index),
{
    v & (1u8 << index) != 0
}


/// The 16-bit little-endian integer at byte offset `off` of `b`.
pub open spec fn le16_at(b: Seq<u8>, off: int) -> int {
    b[off] + b[off + 1] * 0x100
}

/// The 32-bit little-endian integer at byte offset `off` of `b`.
pub open spec fn le32_at(b: Seq<u8>, off: int) -> int {
    b[off] + b[off + 1] * 0x100 + b[off + 2] * 0x1_0000 + b[off + 3] * 0x100_0000
}

/// The 64-bit little-endian integer at byte offset `off` of `b`.
pub open spec fn le64_at(b: Seq<u8>, off: int) -> int {
    le32_at(b, off) + le32_at(b, off + 4) * 0x1_0000_0000
}

/// Reads the 16-bit little-endian integer at `off`.
pub fn read_le16(b: &Vec<u8>, off: usize) -> (r: u16)
    requires
        off + 2 <= b@.len(),
    ensures
        r == le16_at(b@, off as int),
{
    let _blen = b.len();
    (b[off] as u16) + (b[off + 1] as u16) * 0x100
}

/// Reads the 32-bit little-endian integer at `off`.
pub fn read_le32(b: &Vec<u8>, off: usize) -> (r: u32)
    requires
        off + 4 <= b@.len(),
    ensures
        r == le32_at(b@, off as int),
{
    let _blen = b.len();
    (b[off] as u32) + (b[off + 1] as u32) * 0x100 + (b[off + 2] as u32) * 0x1_0000 + (b[off
        + 3] as u32) * 0x100_0000
}

/// Reads the 64-bit little-endian integer at `off`.
pub fn read_le64(b: &Vec<u8>, off: usize) -> (r: u64)
    requires
        off + 8 <= b@.len(),
    ensures
        r == le64_at(b@, off as int),
{
    let _blen = b.len();
    (read_le32(b, off) as u64) + (read_le32(b, off + 4) as u64) * 0x1_0000_0000
}


/// A narrow field fits the small integer types.
pub proof fn lemma_get_bits_u64_fits(v: u64, start: u64, end: u64)
    by (bit_vector)
    requires
        start < end <= 64,
    ensures
        end - start <= 4 ==> spec_get_bits_u64(v, start, end) < 0x10,
        end - start <= 8 ==> spec_get_bits_u64(v, start, end) < 0x100,
        end - start <= 16 ==> spec_get_bits_u64(v, start, end) < 0x10000,
{
}

/// A narrow field fits the small integer types.
pub proof fn lemma_get_bits_u32_fits(v: u32, start: u32, end: u32)
    by (bit_vector)
    requires
        start < end <= 32,
    ensures
        end - start <= 8 ==> spec_get_bits_u32(v, start, end) < 0x100,
        end - start <= 16 ==> spec_get_bits_u32(v, start, end) < 0x10000,
{
}

} // verus!
