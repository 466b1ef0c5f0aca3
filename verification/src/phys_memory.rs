//! A bounds-checked, read-only window onto physical memory.
//!
//! Firmware tables are chains of physical addresses. The walkers in this
//! crate never follow such an address blindly: every read goes through a
//! [`PhysMemory`], which answers `None` for anything outside the window.
//! Multi-byte fields are little-endian, as on the machines this targets.

use vstd::prelude::*;
use vstd::slice::*;

verus! {

/// The 16-bit little-endian value of the two bytes at `at`.
pub open spec fn le_u16(bytes: Seq<u8>, at: int) -> int {
    bytes[at] as int + 0x100 * (bytes[at + 1] as int)
}

/// The 32-bit little-endian value of the four bytes at `at`.
#[verifier::opaque]
pub open spec fn le_u32(bytes: Seq<u8>, at: int) -> int {
    le_u16(bytes, at) + 0x1_0000 * le_u16(bytes, at + 2)
}

/// The 64-bit little-endian value of the eight bytes at `at`.
#[verifier::opaque]
pub open spec fn le_u64(bytes: Seq<u8>, at: int) -> int {
    le_u32(bytes, at) + 0x1_0000_0000 * le_u32(bytes, at + 4)
}

/// Little-endian values of two, four and eight bytes fit their widths.
pub proof fn lemma_le_bounds(bytes: Seq<u8>, at: int)
    ensures
        0 <= le_u16(bytes, at) <= u16::MAX,
        0 <= le_u32(bytes, at) <= u32::MAX,
        0 <= le_u64(bytes, at) <= u64::MAX,
{
    reveal(le_u32);
    reveal(le_u64);
}

/// A 32-bit value read from a part of `bytes` is the value read from
/// `bytes` at the same place.
pub proof fn lemma_le_u32_subrange(bytes: Seq<u8>, from: int, to: int, at: int)
    requires
        0 <= from <= to <= bytes.len(),
        0 <= at,
        at + 4 <= to - from,
    ensures
        le_u32(bytes.subrange(from, to), at) == le_u32(bytes, from + at),
{
    reveal(le_u32);
}

/// A 64-bit value read from a part of `bytes` is the value read from
/// `bytes` at the same place.
pub proof fn lemma_le_u64_subrange(bytes: Seq<u8>, from: int, to: int, at: int)
    requires
        0 <= from <= to <= bytes.len(),
        0 <= at,
        at + 8 <= to - from,
    ensures
        le_u64(bytes.subrange(from, to), at) == le_u64(bytes, from + at),
{
    reveal(le_u64);
    lemma_le_u32_subrange(bytes, from, to, at);
    lemma_le_u32_subrange(bytes, from, to, at + 4);
}

/// The byte at `at`, if `bytes` is that long.
pub fn get_u8(bytes: &[u8], at: usize) -> (r: Option<u8>)
    ensures
        at < bytes@.len() ==> r == Some(bytes@[at as int]),
        at >= bytes@.len() ==> r.is_none(),
{
    if at < bytes.len() {
        Some(bytes[at])
    } else {
        None
    }
}

/// The 16-bit value at `at`, if `bytes` holds all of it.
pub fn get_u16(bytes: &[u8], at: usize) -> (r: Option<u16>)
    ensures
        at + 2 <= bytes@.len() ==> r == Some(le_u16(bytes@, at as int) as u16),
        at + 2 > bytes@.len() ==> r.is_none(),
        0 <= le_u16(bytes@, at as int) <= u16::MAX,
{
    let len: usize = bytes.len();
    if at <= len && 2 <= len - at {
        let b0: u16 = bytes[at] as u16;
        let b1: u16 = bytes[at + 1] as u16;
        Some(b0 + 0x100 * b1)
    } else {
        None
    }
}

/// The 32-bit value at `at`, if `bytes` holds all of it.
pub fn get_u32(bytes: &[u8], at: usize) -> (r: Option<u32>)
    ensures
        at + 4 <= bytes@.len() ==> r == Some(le_u32(bytes@, at as int) as u32),
        at + 4 > bytes@.len() ==> r.is_none(),
        0 <= le_u32(bytes@, at as int) <= u32::MAX,
{
    proof {
        reveal(le_u32);
    }
    let len: usize = bytes.len();
    if at <= len && 4 <= len - at {
        let b0: u32 = bytes[at] as u32;
        let b1: u32 = bytes[at + 1] as u32;
        let b2: u32 = bytes[at + 2] as u32;
        let b3: u32 = bytes[at + 3] as u32;
        Some(b0 + 0x100 * b1 + 0x1_0000 * (b2 + 0x100 * b3))
    } else {
        None
    }
}

/// The 64-bit value at `at`, if `bytes` holds all of it.
pub fn get_u64(bytes: &[u8], at: usize) -> (r: Option<u64>)
    ensures
        at + 8 <= bytes@.len() ==> r == Some(le_u64(bytes@, at as int) as u64),
        at + 8 > bytes@.len() ==> r.is_none(),
        0 <= le_u64(bytes@, at as int) <= u64::MAX,
{
    proof {
        reveal(le_u32);
        reveal(le_u64);
    }
    let len: usize = bytes.len();
    if at <= len && 8 <= len - at {
        let b0: u64 = bytes[at] as u64;
        let b1: u64 = bytes[at + 1] as u64;
        let b2: u64 = bytes[at + 2] as u64;
        let b3: u64 = bytes[at + 3] as u64;
        let b4: u64 = bytes[at + 4] as u64;
        let b5: u64 = bytes[at + 5] as u64;
        let b6: u64 = bytes[at + 6] as u64;
        let b7: u64 = bytes[at + 7] as u64;
        let low: u64 = b0 + 0x100 * b1 + 0x1_0000 * (b2 + 0x100 * b3);
        let high: u64 = b4 + 0x100 * b5 + 0x1_0000 * (b6 + 0x100 * b7);
        Some(low + 0x1_0000_0000 * high)
    } else {
        None
    }
}

/// A window of bytes that starts at the physical address `base`.
#[derive(Clone, Copy)]
pub struct PhysMemory<'a> {
    base: usize,
    bytes: &'a [u8],
}

impl<'a> PhysMemory<'a> {
    /// First address of the window.
    pub closed spec fn base(&self) -> int {
        self.base as int
    }

    /// Content of the window; `bytes()[i]` lives at address `base() + i`.
    pub closed spec fn bytes(&self) -> Seq<u8> {
        self.bytes@
    }

    /// Whether the `n` bytes starting at `addr` all lie inside the window.
    pub open spec fn covers(&self, addr: int, n: int) -> bool {
        self.base() <= addr && addr + n <= self.base() + self.bytes().len()
    }

    /// The byte stored at `addr`.
    pub open spec fn byte_at(&self, addr: int) -> int {
        self.bytes()[addr - self.base()] as int
    }

    /// The 16-bit little-endian value stored at `addr`.
    pub open spec fn u16_at(&self, addr: int) -> int {
        le_u16(self.bytes(), addr - self.base())
    }

    /// The 32-bit little-endian value stored at `addr`.
    pub open spec fn u32_at(&self, addr: int) -> int {
        le_u32(self.bytes(), addr - self.base())
    }

    /// The 64-bit little-endian value stored at `addr`.
    pub open spec fn u64_at(&self, addr: int) -> int {
        le_u64(self.bytes(), addr - self.base())
    }

    /// The `n` bytes starting at `addr`.
    pub open spec fn range_at(&self, addr: int, n: int) -> Seq<u8> {
        self.bytes().subrange(addr - self.base(), addr - self.base() + n)
    }

    /// The window ends inside the address space.
    #[verifier::type_invariant]
    spec fn ends_in_address_space(self) -> bool {
        self.base + self.bytes@.len() <= usize::MAX
    }

    /// A window of `bytes` whose first byte stands for the address `base`.
    /// Bytes that would lie behind the end of the address space are left
    /// out.
    pub fn new(base: usize, bytes: &'a [u8]) -> (mem: Self)
        ensures
            mem.base() == base,
            base + bytes@.len() <= usize::MAX ==> mem.bytes() == bytes@,
            base + bytes@.len() > usize::MAX ==> mem.bytes() == bytes@.subrange(
                0,
                usize::MAX - base,
            ),
    {
        if bytes.len() <= usize::MAX - base {
            PhysMemory { base, bytes }
        } else {
            PhysMemory { base, bytes: slice_subrange(bytes, 0, usize::MAX - base) }
        }
    }

    /// Values read from the window fit their widths.
    pub proof fn lemma_value_bounds(&self, addr: int)
        ensures
            0 <= self.byte_at(addr) <= u8::MAX,
            0 <= self.u16_at(addr) <= u16::MAX,
            0 <= self.u32_at(addr) <= u32::MAX,
            0 <= self.u64_at(addr) <= u64::MAX,
    {
        lemma_le_bounds(self.bytes(), addr - self.base());
    }

    /// Number of bytes in the window.
    pub fn len(&self) -> (n: usize)
        ensures
            n == self.bytes().len(),
            self.base() + n <= usize::MAX,
    {
        proof {
            use_type_invariant(self);
        }
        self.bytes.len()
    }

    /// First address of the window.
    pub fn base_address(&self) -> (base: usize)
        ensures
            base == self.base(),
    {
        self.base
    }

    /// The position in the window of address `addr + offset`, where `n` bytes
    /// from there are covered.
    fn position(&self, addr: usize, offset: usize, n: usize) -> (r: Option<usize>)
        ensures
            r.is_some() <==> self.covers(addr + offset, n as int),
            r matches Some(pos) ==> pos == addr + offset - self.base() && pos + n
                <= self.bytes().len() <= usize::MAX && addr + offset + n <= usize::MAX,
    {
        proof {
            use_type_invariant(self);
        }
        if addr < self.base {
            // The window may still be reached through the offset.
            let gap: usize = self.base - addr;
            if offset < gap {
                return None;
            }
            let pos: usize = offset - gap;
            let len: usize = self.bytes.len();
            if pos <= len && n <= len - pos {
                Some(pos)
            } else {
                None
            }
        } else {
            let first: usize = addr - self.base;
            let len: usize = self.bytes.len();
            if first <= len && offset <= len - first && n <= len - first - offset {
                Some(first + offset)
            } else {
                None
            }
        }
    }

    /// Reads the byte at `addr + offset`, if the window holds it.
    pub fn read_u8(&self, addr: usize, offset: usize) -> (r: Option<u8>)
        ensures
            self.covers(addr + offset, 1) ==> r == Some(self.byte_at(addr + offset) as u8),
            !self.covers(addr + offset, 1) ==> r.is_none(),
            r.is_some() ==> addr + offset + 1 <= usize::MAX,
    {
        match self.position(addr, offset, 1) {
            Some(pos) => Some(self.bytes[pos]),
            None => None,
        }
    }

    /// Reads the 16-bit value at `addr + offset`, if the window holds all of it.
    pub fn read_u16(&self, addr: usize, offset: usize) -> (r: Option<u16>)
        ensures
            self.covers(addr + offset, 2) ==> r == Some(self.u16_at(addr + offset) as u16),
            !self.covers(addr + offset, 2) ==> r.is_none(),
            r.is_some() ==> addr + offset + 2 <= usize::MAX,
            0 <= self.u16_at(addr + offset) <= u16::MAX,
    {
        match self.position(addr, offset, 2) {
            Some(pos) => get_u16(self.bytes, pos),
            None => None,
        }
    }

    /// Reads the 32-bit value at `addr + offset`, if the window holds all of it.
    pub fn read_u32(&self, addr: usize, offset: usize) -> (r: Option<u32>)
        ensures
            self.covers(addr + offset, 4) ==> r == Some(self.u32_at(addr + offset) as u32),
            !self.covers(addr + offset, 4) ==> r.is_none(),
            r.is_some() ==> addr + offset + 4 <= usize::MAX,
            0 <= self.u32_at(addr + offset) <= u32::MAX,
    {
        proof {
            self.lemma_value_bounds(addr + offset);
        }
        match self.position(addr, offset, 4) {
            Some(pos) => get_u32(self.bytes, pos),
            None => None,
        }
    }

    /// Reads the 64-bit value at `addr + offset`, if the window holds all of it.
    pub fn read_u64(&self, addr: usize, offset: usize) -> (r: Option<u64>)
        ensures
            self.covers(addr + offset, 8) ==> r == Some(self.u64_at(addr + offset) as u64),
            !self.covers(addr + offset, 8) ==> r.is_none(),
            r.is_some() ==> addr + offset + 8 <= usize::MAX,
            0 <= self.u64_at(addr + offset) <= u64::MAX,
    {
        proof {
            self.lemma_value_bounds(addr + offset);
        }
        match self.position(addr, offset, 8) {
            Some(pos) => get_u64(self.bytes, pos),
            None => None,
        }
    }

    /// Borrows the `n` bytes at `addr + offset`, if the window holds all of them.
    pub fn slice(&self, addr: usize, offset: usize, n: usize) -> (r: Option<&'a [u8]>)
        ensures
            self.covers(addr + offset, n as int) ==> r.is_some() && r.unwrap()@
                == self.range_at(addr + offset, n as int),
            !self.covers(addr + offset, n as int) ==> r.is_none(),
            r.is_some() ==> addr + offset + n <= usize::MAX,
    {
        match self.position(addr, offset, n) {
            Some(pos) => Some(slice_subrange(self.bytes, pos, pos + n)),
            None => None,
        }
    }
}

} // verus!
