//! Physical memory manager: a bump allocator over the firmware memory map.
//!
//! The manager keeps the map's records and hands memory out by advancing the
//! base of the first usable record that is large enough. Nothing is ever
//! given back. Ranges occupied by the loaded kernel image are cut out of the
//! records once, when the manager is built.

use crate::phys_memory::{
    get_u32,
    get_u64,
    le_u32,
    le_u64,
    lemma_le_u32_subrange,
    lemma_le_u64_subrange,
    PhysMemory,
};
use vstd::arithmetic::div_mod::{lemma_fundamental_div_mod, lemma_mod_multiples_basic};
use vstd::prelude::*;

verus! {

/// Type tag of a record that describes usable RAM.
pub const MEMORY_TYPE_USABLE: u32 = 1;

/// Bytes one record of the memory map occupies in memory.
pub const MEMORY_MAP_ENTRY_SIZE: usize = 24;

/// Bytes the header of the memory map tag occupies; its records follow.
pub const MEMORY_MAP_HEADER_SIZE: usize = 16;

/// Bytes one section descriptor occupies in memory.
pub const ELF_SECTION_SIZE: usize = 64;

/// Bytes the header of the section list tag occupies; the descriptors follow.
pub const ELF_SECTIONS_HEADER_SIZE: usize = 20;

/// Section flag that marks a section as occupying memory at run time.
pub const SECTION_FLAG_ALLOC: u64 = 2;

/// One record of the firmware memory map.
#[derive(Clone, Copy, Debug, PartialEq, Eq, Structural)]
pub struct MemoryMapEntry {
    pub addr: u64,
    pub length: u64,
    pub m_type: u32,
    pub reserved: u32,
}

impl MemoryMapEntry {
    /// First address past the record's range.
    pub open spec fn end(self) -> int {
        self.addr + self.length
    }

    /// A record can be allocated from when it is tagged usable and its range
    /// lies inside the machine's address space.
    pub open spec fn is_usable(self) -> bool {
        self.m_type == MEMORY_TYPE_USABLE && self.end() <= usize::MAX
    }

    /// The address `x` is available in this record.
    pub open spec fn holds(self, x: int) -> bool {
        self.is_usable() && self.addr <= x < self.end()
    }

    /// The `n` bytes from `start` lie inside this record, which is usable.
    pub open spec fn holds_range(self, start: int, n: int) -> bool {
        self.is_usable() && self.addr <= start && start + n <= self.end()
    }

    /// The reserved range `[address, address + size)` lies inside this usable
    /// record with room to spare on both sides.
    pub open spec fn strictly_holds(self, address: int, size: int) -> bool {
        self.is_usable() && self.addr < address && self.end() > address + size
    }

    /// The same record, cut down to `[addr, end)`.
    pub open spec fn resized(self, addr: int, end: int) -> MemoryMapEntry {
        MemoryMapEntry { addr: addr as u64, length: (end - addr) as u64, ..self }
    }

    /// The record stored in the 24 bytes at `at`: base address and length
    /// of 8 bytes each, then type and a reserved field of 4 bytes each.
    pub open spec fn decoded(bytes: Seq<u8>, at: int) -> MemoryMapEntry {
        MemoryMapEntry {
            addr: le_u64(bytes, at) as u64,
            length: le_u64(bytes, at + 8) as u64,
            m_type: le_u32(bytes, at + 16) as u32,
            reserved: le_u32(bytes, at + 20) as u32,
        }
    }

    /// A record decoded from a part of `bytes` is the record decoded from
    /// `bytes` at the same place.
    pub proof fn lemma_decoded_subrange(bytes: Seq<u8>, from: int, to: int, at: int)
        requires
            0 <= from <= to <= bytes.len(),
            0 <= at,
            at + MEMORY_MAP_ENTRY_SIZE <= to - from,
        ensures
            Self::decoded(bytes.subrange(from, to), at) == Self::decoded(bytes, from + at),
    {
        lemma_le_u64_subrange(bytes, from, to, at);
        lemma_le_u64_subrange(bytes, from, to, at + 8);
        lemma_le_u32_subrange(bytes, from, to, at + 16);
        lemma_le_u32_subrange(bytes, from, to, at + 20);
    }

    /// Decodes the record at `at`, if `bytes` holds all of it.
    pub fn decode(bytes: &[u8], at: usize) -> (r: Option<Self>)
        ensures
            at + MEMORY_MAP_ENTRY_SIZE <= bytes@.len() ==> r == Some(Self::decoded(bytes@, at as int)),
            at + MEMORY_MAP_ENTRY_SIZE > bytes@.len() ==> r.is_none(),
    {
        let len: usize = bytes.len();
        if at > len || len - at < MEMORY_MAP_ENTRY_SIZE {
            return None;
        }
        let addr = get_u64(bytes, at)?;
        let length = get_u64(bytes, at + 8)?;
        let m_type = get_u32(bytes, at + 16)?;
        let reserved = get_u32(bytes, at + 20)?;
        Some(MemoryMapEntry { addr, length, m_type, reserved })
    }

    /// Exec form of [`Self::is_usable`].
    pub fn usable(&self) -> (r: bool)
        ensures
            r == self.is_usable(),
    {
        self.m_type == MEMORY_TYPE_USABLE && self.addr <= usize::MAX as u64 && self.length
            <= usize::MAX as u64 - self.addr
    }
}

/// What carving `size` bytes out of the record `e` yields: the address handed
/// out and the record that remains, or `None` where `e` cannot serve.
///
/// `map_start..map_end` is where the map's own records are stored. A record
/// whose next `size` bytes would cover `map_start` is carved from `map_end`
/// on, so that the records themselves are never handed out.
pub open spec fn carve(e: MemoryMapEntry, map_start: int, map_end: int, size: int) -> Option<
    (int, MemoryMapEntry),
> {
    if !e.is_usable() || e.length < size {
        None
    } else if e.addr <= map_start < e.addr + size {
        if e.end() - map_end < size {
            None
        } else {
            Some((map_end, e.resized(map_end + size, e.end())))
        }
    } else {
        Some((e.addr as int, e.resized(e.addr + size, e.end())))
    }
}

/// Index of the first record at or after `from` that `size` bytes can be
/// carved from.
pub open spec fn first_fit(
    entries: Seq<MemoryMapEntry>,
    map_start: int,
    map_end: int,
    size: int,
    from: int,
) -> Option<int>
    decreases entries.len() - from,
{
    if from < 0 || from >= entries.len() {
        None
    } else if carve(entries[from], map_start, map_end, size).is_some() {
        Some(from)
    } else {
        first_fit(entries, map_start, map_end, size, from + 1)
    }
}

/// Index of the first record at or after `from` that strictly holds the
/// range `[address, address + size)`.
pub open spec fn first_holder(
    entries: Seq<MemoryMapEntry>,
    address: int,
    size: int,
    from: int,
) -> Option<int>
    decreases entries.len() - from,
{
    if from < 0 || from >= entries.len() {
        None
    } else if entries[from].strictly_holds(address, size) {
        Some(from)
    } else {
        first_holder(entries, address, size, from + 1)
    }
}

/// The smallest multiple of `align` above `address`; address zero stays zero.
pub open spec fn next_multiple(address: int, align: int) -> int {
    if address == 0 {
        0
    } else {
        address + (align - address % align)
    }
}

/// The mathematical state of a memory manager: where the map's records are
/// stored, and the records.
pub struct MapState {
    pub address: int,
    pub entries: Seq<MemoryMapEntry>,
}

impl MapState {
    /// First address past the storage of the map's records.
    pub open spec fn storage_end(self) -> int {
        self.address + MEMORY_MAP_ENTRY_SIZE * self.entries.len()
    }

    /// The addresses that can still be handed out.
    pub open spec fn free_set(self) -> Set<int> {
        Set::new(
            |x: int|
                exists|i: int| 0 <= i < self.entries.len() && #[trigger] self.entries[i].holds(x),
        )
    }

    /// No address is available in two records.
    pub open spec fn disjoint(self) -> bool {
        forall|i: int, j: int, x: int|
            #![trigger self.entries[i].holds(x), self.entries[j].holds(x)]
            0 <= i < self.entries.len() && 0 <= j < self.entries.len() && i != j
                && self.entries[i].holds(x) ==> !self.entries[j].holds(x)
    }

    /// Every record of `self` is the record of `earlier` at the same place,
    /// shrunk or untouched.
    pub open spec fn shrunk_from(self, earlier: MapState) -> bool {
        &&& self.address == earlier.address
        &&& self.entries.len() == earlier.entries.len()
        &&& forall|i: int|
            #![trigger self.entries[i]]
            0 <= i < self.entries.len() ==> {
                &&& self.entries[i].m_type == earlier.entries[i].m_type
                &&& self.entries[i].is_usable() ==> earlier.entries[i].is_usable()
                    && earlier.entries[i].addr <= self.entries[i].addr && self.entries[i].end()
                    <= earlier.entries[i].end()
            }
    }

    /// The record an allocation of `size` bytes is served from.
    pub open spec fn alloc_index(self, size: int) -> Option<int> {
        first_fit(self.entries, self.address, self.storage_end(), size, 0)
    }

    /// The address an allocation of `size` bytes returns.
    pub open spec fn alloc_result(self, size: int) -> Option<int> {
        match self.alloc_index(size) {
            Some(i) => Some(carve(self.entries[i], self.address, self.storage_end(), size).unwrap().0),
            None => None,
        }
    }

    /// The state an allocation of `size` bytes leaves behind.
    pub open spec fn after_alloc(self, size: int) -> MapState {
        match self.alloc_index(size) {
            Some(i) => MapState {
                entries: self.entries.update(
                    i,
                    carve(self.entries[i], self.address, self.storage_end(), size).unwrap().1,
                ),
                ..self
            },
            None => self,
        }
    }

    /// The address an aligned allocation returns: `size + align` bytes are
    /// taken, and the address is moved up to the next multiple of `align`.
    pub open spec fn aligned_result(self, size: int, align: int) -> Option<int> {
        match self.alloc_result(size + align) {
            Some(a) => Some(next_multiple(a, align)),
            None => None,
        }
    }

    /// The state after the range `[address, address + size)` was reserved:
    /// the first record that strictly holds it now starts at its end.
    pub open spec fn after_reserve(self, address: int, size: int) -> MapState {
        match first_holder(self.entries, address, size, 0) {
            Some(i) => MapState {
                entries: self.entries.update(
                    i,
                    self.entries[i].resized(address + size, self.entries[i].end()),
                ),
                ..self
            },
            None => self,
        }
    }

    /// The state after the first `k` of `sections` were reserved, where they
    /// occupy memory.
    pub open spec fn after_sections(self, sections: Seq<ElfSection>, k: int) -> MapState
        decreases k,
    {
        if k <= 0 {
            self
        } else {
            let before = self.after_sections(sections, k - 1);
            let section = sections[k - 1];
            if section.occupies_memory() {
                before.after_reserve(section.section_addr as int, section.section_size as int)
            } else {
                before
            }
        }
    }
}

/// The memory map as the firmware handed it over: the tag's header fields,
/// the address at which its records are stored, and the records.
pub struct MultibootTagMemoryMap {
    pub s_type: u32,
    pub size: u32,
    pub entry_size: u32,
    pub entry_version: u32,
    /// Physical address of the first record.
    pub entries_address: usize,
    pub entries: Vec<MemoryMapEntry>,
}

/// The section list of the loaded kernel image: the tag's header fields and
/// the section descriptors.
pub struct MultibootTagElfSections {
    pub s_type: u32,
    pub size: u32,
    pub num: u32,
    pub entsize: u32,
    pub shndx: u32,
    pub sections: Vec<ElfSection>,
}

/// One section descriptor of the loaded kernel image.
#[derive(Clone, Copy, Debug, PartialEq, Eq, Structural)]
pub struct ElfSection {
    pub section_name: u32,
    pub section_type: u32,
    pub section_flags: u64,
    pub section_addr: u64,
    pub section_offset: u64,
    pub section_size: u64,
    pub section_link: u32,
    pub section_info: u32,
    pub section_addralign: u64,
    pub section_entry_size: u64,
}

impl ElfSection {
    /// The descriptor stored in the 64 bytes at `at`.
    #[verifier::opaque]
    pub open spec fn decoded(bytes: Seq<u8>, at: int) -> ElfSection {
        ElfSection {
            section_name: le_u32(bytes, at) as u32,
            section_type: le_u32(bytes, at + 4) as u32,
            section_flags: le_u64(bytes, at + 8) as u64,
            section_addr: le_u64(bytes, at + 16) as u64,
            section_offset: le_u64(bytes, at + 24) as u64,
            section_size: le_u64(bytes, at + 32) as u64,
            section_link: le_u32(bytes, at + 40) as u32,
            section_info: le_u32(bytes, at + 44) as u32,
            section_addralign: le_u64(bytes, at + 48) as u64,
            section_entry_size: le_u64(bytes, at + 56) as u64,
        }
    }

    /// A descriptor decoded from a part of `bytes` is the descriptor decoded
    /// from `bytes` at the same place.
    pub proof fn lemma_decoded_subrange(bytes: Seq<u8>, from: int, to: int, at: int)
        requires
            0 <= from <= to <= bytes.len(),
            0 <= at,
            at + ELF_SECTION_SIZE <= to - from,
        ensures
            Self::decoded(bytes.subrange(from, to), at) == Self::decoded(bytes, from + at),
    {
        reveal(ElfSection::decoded);
        lemma_le_u32_subrange(bytes, from, to, at);
        lemma_le_u32_subrange(bytes, from, to, at + 4);
        lemma_le_u64_subrange(bytes, from, to, at + 8);
        lemma_le_u64_subrange(bytes, from, to, at + 16);
        lemma_le_u64_subrange(bytes, from, to, at + 24);
        lemma_le_u64_subrange(bytes, from, to, at + 32);
        lemma_le_u32_subrange(bytes, from, to, at + 40);
        lemma_le_u32_subrange(bytes, from, to, at + 44);
        lemma_le_u64_subrange(bytes, from, to, at + 48);
        lemma_le_u64_subrange(bytes, from, to, at + 56);
    }

    /// Decodes the descriptor at `at`, if `bytes` holds all of it.
    pub fn decode(bytes: &[u8], at: usize) -> (r: Option<Self>)
        ensures
            at + ELF_SECTION_SIZE <= bytes@.len() ==> r == Some(Self::decoded(bytes@, at as int)),
            at + ELF_SECTION_SIZE > bytes@.len() ==> r.is_none(),
    {
        proof {
            reveal(ElfSection::decoded);
        }
        let len: usize = bytes.len();
        if at > len || len - at < ELF_SECTION_SIZE {
            return None;
        }
        let section_name = get_u32(bytes, at)?;
        let section_type = get_u32(bytes, at + 4)?;
        let section_flags = get_u64(bytes, at + 8)?;
        let section_addr = get_u64(bytes, at + 16)?;
        let section_offset = get_u64(bytes, at + 24)?;
        let section_size = get_u64(bytes, at + 32)?;
        let section_link = get_u32(bytes, at + 40)?;
        let section_info = get_u32(bytes, at + 44)?;
        let section_addralign = get_u64(bytes, at + 48)?;
        let section_entry_size = get_u64(bytes, at + 56)?;
        Some(
            ElfSection {
                section_name,
                section_type,
                section_flags,
                section_addr,
                section_offset,
                section_size,
                section_link,
                section_info,
                section_addralign,
                section_entry_size,
            },
        )
    }

    /// Whether the section's flags mark it as loaded into memory.
    pub fn is_allocated(&self) -> (r: bool)
        ensures
            r == self.occupies_memory(),
    {
        self.section_flags & SECTION_FLAG_ALLOC != 0
    }

    /// The section's flags mark it as loaded into memory.
    pub open spec fn occupies_memory(self) -> bool {
        self.section_flags & SECTION_FLAG_ALLOC != 0
    }
}

impl MultibootTagMemoryMap {
    /// Number of records that a tag of `size` bytes holds, by the record
    /// size `entry_size` that it states.
    pub open spec fn entry_count(size: int, entry_size: int) -> int {
        (size - MEMORY_MAP_HEADER_SIZE) / entry_size
    }

    /// The tag at `address` can be read: its header lies in the window and
    /// states a size and a record size that make sense, and the records it
    /// counts lie in the window too.
    pub open spec fn readable_at(mem: &PhysMemory, address: int) -> bool {
        &&& mem.covers(address, MEMORY_MAP_HEADER_SIZE as int)
        &&& mem.u32_at(address + 4) >= MEMORY_MAP_HEADER_SIZE
        &&& mem.u32_at(address + 8) != 0
        &&& mem.covers(
            address + MEMORY_MAP_HEADER_SIZE,
            MEMORY_MAP_ENTRY_SIZE * Self::entry_count(mem.u32_at(address + 4), mem.u32_at(address + 8)),
        )
    }

    /// The records of the tag at `address`, 24 bytes apart.
    pub open spec fn entries_at(mem: &PhysMemory, address: int) -> Seq<MemoryMapEntry> {
        let count = Self::entry_count(mem.u32_at(address + 4), mem.u32_at(address + 8));
        Seq::new(
            count as nat,
            |i: int|
                MemoryMapEntry::decoded(
                    mem.bytes(),
                    address + MEMORY_MAP_HEADER_SIZE + MEMORY_MAP_ENTRY_SIZE * i - mem.base(),
                ),
        )
    }

    /// Reads the memory map tag at `address` with its records.
    pub fn read(mem: &PhysMemory, address: usize) -> (r: Option<Self>)
        ensures
            r.is_some() == Self::readable_at(mem, address as int),
            r matches Some(map) ==> {
                &&& map.s_type == mem.u32_at(address as int)
                &&& map.size == mem.u32_at(address + 4)
                &&& map.entry_size == mem.u32_at(address + 8)
                &&& map.entry_version == mem.u32_at(address + 12)
                &&& map.entries_address == address + MEMORY_MAP_HEADER_SIZE
                &&& map.entries@ == Self::entries_at(mem, address as int)
            },
    {
        let s_type = mem.read_u32(address, 0)?;
        let size = mem.read_u32(address, 4)?;
        let entry_size = mem.read_u32(address, 8)?;
        let entry_version = mem.read_u32(address, 12)?;
        if size < MEMORY_MAP_HEADER_SIZE as u32 || entry_size == 0 {
            return None;
        }
        let count: u32 = (size - MEMORY_MAP_HEADER_SIZE as u32) / entry_size;
        let span: u64 = MEMORY_MAP_ENTRY_SIZE as u64 * count as u64;
        if span > mem.len() as u64 {
            return None;
        }
        let records = mem.slice(address, MEMORY_MAP_HEADER_SIZE, span as usize)?;
        let mut entries: Vec<MemoryMapEntry> = Vec::new();
        let mut i: usize = 0;
        while i < count as usize
            invariant
                i <= count,
                records@.len() == MEMORY_MAP_ENTRY_SIZE * count,
                records@ == mem.range_at(address + MEMORY_MAP_HEADER_SIZE, span as int),
                mem.covers(address + MEMORY_MAP_HEADER_SIZE, span as int),
                span == MEMORY_MAP_ENTRY_SIZE * count,
                span <= usize::MAX,
                entries@ == Self::entries_at(mem, address as int).subrange(0, i as int),
                count == Self::entry_count(
                    mem.u32_at(address + 4),
                    mem.u32_at(address + 8),
                ),
            decreases count - i,
        {
            let entry = MemoryMapEntry::decode(records, 24 * i);
            proof {
                let first = address + MEMORY_MAP_HEADER_SIZE - mem.base();
                MemoryMapEntry::lemma_decoded_subrange(mem.bytes(), first, first + span, 24 * i);
            }
            entries.push(entry.unwrap());
            i += 1;
        }
        assert(entries@ == Self::entries_at(mem, address as int));
        Some(
            Self {
                s_type,
                size,
                entry_size,
                entry_version,
                entries_address: address + MEMORY_MAP_HEADER_SIZE,
                entries,
            },
        )
    }
}

impl MultibootTagElfSections {
    /// The tag at `address` can be read: its header and the descriptors it
    /// counts lie in the window.
    pub open spec fn readable_at(mem: &PhysMemory, address: int) -> bool {
        &&& mem.covers(address, ELF_SECTIONS_HEADER_SIZE as int)
        &&& mem.covers(
            address + ELF_SECTIONS_HEADER_SIZE,
            ELF_SECTION_SIZE * mem.u32_at(address + 8),
        )
    }

    /// The descriptors of the tag at `address`, 64 bytes apart.
    pub open spec fn sections_at(mem: &PhysMemory, address: int) -> Seq<ElfSection> {
        Seq::new(
            mem.u32_at(address + 8) as nat,
            |i: int|
                ElfSection::decoded(
                    mem.bytes(),
                    address + ELF_SECTIONS_HEADER_SIZE + ELF_SECTION_SIZE * i - mem.base(),
                ),
        )
    }

    /// Reads the section list tag at `address` with its descriptors.
    pub fn read(mem: &PhysMemory, address: usize) -> (r: Option<Self>)
        ensures
            r.is_some() == Self::readable_at(mem, address as int),
            r matches Some(list) ==> {
                &&& list.s_type == mem.u32_at(address as int)
                &&& list.size == mem.u32_at(address + 4)
                &&& list.num == mem.u32_at(address + 8)
                &&& list.entsize == mem.u32_at(address + 12)
                &&& list.shndx == mem.u32_at(address + 16)
                &&& list.sections@ == Self::sections_at(mem, address as int)
            },
    {
        let s_type = mem.read_u32(address, 0)?;
        let size = mem.read_u32(address, 4)?;
        let num = mem.read_u32(address, 8)?;
        let entsize = mem.read_u32(address, 12)?;
        let shndx = mem.read_u32(address, 16)?;
        let span: u64 = ELF_SECTION_SIZE as u64 * num as u64;
        if span > mem.len() as u64 {
            return None;
        }
        let records = mem.slice(address, ELF_SECTIONS_HEADER_SIZE, span as usize)?;
        let mut sections: Vec<ElfSection> = Vec::new();
        let mut i: usize = 0;
        while i < num as usize
            invariant
                i <= num,
                records@.len() == ELF_SECTION_SIZE * num,
                records@ == mem.range_at(address + ELF_SECTIONS_HEADER_SIZE, span as int),
                mem.covers(address + ELF_SECTIONS_HEADER_SIZE, span as int),
                span == ELF_SECTION_SIZE * num,
                span <= usize::MAX,
                num == mem.u32_at(address + 8),
                sections@ == Self::sections_at(mem, address as int).subrange(0, i as int),
            decreases num - i,
        {
            let section = ElfSection::decode(records, 64 * i);
            proof {
                let first = address + ELF_SECTIONS_HEADER_SIZE - mem.base();
                ElfSection::lemma_decoded_subrange(mem.bytes(), first, first + span, 64 * i);
            }
            sections.push(section.unwrap());
            i += 1;
        }
        assert(sections@ == Self::sections_at(mem, address as int));
        Some(Self { s_type, size, num, entsize, shndx, sections })
    }
}

/// Bump allocator over the records of the firmware memory map.
pub struct MemoryManager {
    address: usize,
    entries: Vec<MemoryMapEntry>,
}

impl View for MemoryManager {
    type V = MapState;

    closed spec fn view(&self) -> MapState {
        MapState { address: self.address as int, entries: self.entries@ }
    }
}

impl MemoryManager {
    /// The records of a manager are stored at a machine address.
    pub proof fn lemma_address_in_range(&self)
        ensures
            0 <= self@.address <= usize::MAX,
    {
    }

    /// A manager with no records: every allocation fails.
    pub fn const_new() -> (m: Self)
        ensures
            m@.address == 0,
            m@.entries.len() == 0,
    {
        Self { address: 0, entries: Vec::new() }
    }

    /// Takes over the records of `map` and reserves, in order, every section
    /// of `elf_info` that occupies memory.
    pub fn new(map: &MultibootTagMemoryMap, elf_info: &MultibootTagElfSections) -> (m: Self)
        ensures
            m@ == (MapState {
                address: map.entries_address as int,
                entries: map.entries@,
            }).after_sections(elf_info.sections@, elf_info.sections.len() as int),
            m@.shrunk_from(
                MapState { address: map.entries_address as int, entries: map.entries@ },
            ),
    {
        proof {
            lemma_sections_shrink(
                MapState { address: map.entries_address as int, entries: map.entries@ },
                elf_info.sections@,
                elf_info.sections.len() as int,
            );
        }
        let mut entries: Vec<MemoryMapEntry> = Vec::new();
        let mut i: usize = 0;
        while i < map.entries.len()
            invariant
                i <= map.entries.len(),
                entries@ == map.entries@.subrange(0, i as int),
            decreases map.entries.len() - i,
        {
            entries.push(map.entries[i]);
            i += 1;
        }
        assert(entries@ == map.entries@);
        let mut m = Self { address: map.entries_address, entries };
        let ghost start = m@;
        let mut k: usize = 0;
        while k < elf_info.sections.len()
            invariant
                k <= elf_info.sections.len(),
                m@ == start.after_sections(elf_info.sections@, k as int),
            decreases elf_info.sections.len() - k,
        {
            let section = elf_info.sections[k];
            if section.is_allocated() {
                m.reserve(section.section_addr, section.section_size);
            }
            k += 1;
        }
        m
    }

    /// Removes the range `[address, address + size)` from the first usable
    /// record that holds it with room to spare on both sides: that record
    /// then starts at the end of the range. Where no record does, nothing
    /// changes.
    pub fn reserve(&mut self, address: u64, size: u64)
        ensures
            final(self)@ == old(self)@.after_reserve(address as int, size as int),
            final(self)@.shrunk_from(old(self)@),
    {
        proof {
            lemma_reserve_shrinks(self@, address as int, size as int);
        }
        let n: usize = self.entries.len();
        let range_end: u128 = address as u128 + size as u128;
        let mut i: usize = 0;
        while i < n
            invariant
                i <= n,
                n == self.entries.len(),
                range_end == address + size,
                self@ == old(self)@,
                first_holder(self@.entries, address as int, size as int, 0) == first_holder(
                    self@.entries,
                    address as int,
                    size as int,
                    i as int,
                ),
            decreases n - i,
        {
            let entry = self.entries[i];
            if entry.usable() && entry.addr < address && (entry.addr + entry.length) as u128
                > range_end {
                let end: u64 = entry.addr + entry.length;
                let cut = MemoryMapEntry {
                    addr: address + size,
                    length: end - (address + size),
                    m_type: entry.m_type,
                    reserved: entry.reserved,
                };
                self.entries.set(i, cut);
                return ;
            }
            i += 1;
        }
    }

    /// Carves `size` bytes out of `entry`, if it can serve.
    fn carve_entry(entry: MemoryMapEntry, map_start: u128, map_end: u128, size: usize) -> (r:
        Option<(usize, MemoryMapEntry)>)
        requires
            map_start <= map_end,
            map_end <= usize::MAX + MEMORY_MAP_ENTRY_SIZE * usize::MAX,
        ensures
            r.is_some() == carve(entry, map_start as int, map_end as int, size as int).is_some(),
            r matches Some((a, rest)) ==> carve(
                entry,
                map_start as int,
                map_end as int,
                size as int,
            ) == Some((a as int, rest)),
    {
        if !entry.usable() || entry.length < size as u64 {
            return None;
        }
        let end: u64 = entry.addr + entry.length;
        if entry.addr as u128 <= map_start && map_start < entry.addr as u128 + size as u128 {
            if map_end + size as u128 > end as u128 {
                return None;
            }
            let allocated: usize = map_end as usize;
            let rest = MemoryMapEntry {
                addr: allocated as u64 + size as u64,
                length: end - (allocated as u64 + size as u64),
                m_type: entry.m_type,
                reserved: entry.reserved,
            };
            Some((allocated, rest))
        } else {
            let rest = MemoryMapEntry {
                addr: entry.addr + size as u64,
                length: entry.length - size as u64,
                m_type: entry.m_type,
                reserved: entry.reserved,
            };
            Some((entry.addr as usize, rest))
        }
    }

    /// Hands out `size` bytes from the first usable record that can serve,
    /// or `None` where the map is exhausted.
    pub fn allocate(&mut self, size: usize) -> (r: Option<usize>)
        ensures
            final(self)@ == old(self)@.after_alloc(size as int),
            r.is_some() == old(self)@.alloc_result(size as int).is_some(),
            r matches Some(a) ==> old(self)@.alloc_result(size as int) == Some(a as int),
            r matches Some(a) ==> exists|i: int|
                0 <= i < old(self)@.entries.len() && (#[trigger] old(self)@.entries[i]).holds_range(
                    a as int,
                    size as int,
                ),
            final(self)@.shrunk_from(old(self)@),
    {
        proof {
            lemma_alloc_shrinks(self@, size as int);
            if self@.alloc_index(size as int).is_some() {
                lemma_alloc_in_record(self@, size as int);
            }
        }
        let n: usize = self.entries.len();
        let map_start: u128 = self.address as u128;
        let map_end: u128 = map_start + (MEMORY_MAP_ENTRY_SIZE as u128) * (n as u128);
        let mut i: usize = 0;
        while i < n
            invariant
                i <= n,
                n == self.entries.len(),
                self@ == old(self)@,
                map_start == self@.address,
                map_end == self@.storage_end(),
                self@.alloc_index(size as int) == first_fit(
                    self@.entries,
                    self@.address,
                    self@.storage_end(),
                    size as int,
                    i as int,
                ),
            decreases n - i,
        {
            match Self::carve_entry(self.entries[i], map_start, map_end, size) {
                Some((allocated, rest)) => {
                    self.entries.set(i, rest);
                    return Some(allocated);
                },
                None => {},
            }
            i += 1;
        }
        None
    }

    /// Hands out `size` bytes at a multiple of `align`. The manager takes
    /// `size + align` bytes and moves the address up to the next multiple of
    /// `align`; the slack is never reclaimed.
    pub fn alloc_with_align(&mut self, size: usize, align: usize) -> (r: Option<usize>)
        requires
            align > 0,
        ensures
            final(self)@ == old(self)@.after_alloc(size + align),
            r.is_some() == old(self)@.aligned_result(size as int, align as int).is_some(),
            r matches Some(a) ==> old(self)@.aligned_result(size as int, align as int) == Some(
                a as int,
            ) && a % align == 0,
            r matches Some(a) ==> exists|i: int|
                0 <= i < old(self)@.entries.len() && (#[trigger] old(self)@.entries[i]).holds_range(
                    a as int,
                    size as int,
                ),
            final(self)@.shrunk_from(old(self)@),
    {
        proof {
            lemma_alloc_shrinks(self@, size + align);
            if self@.aligned_result(size as int, align as int).is_some() {
                lemma_aligned_allocation_in_reported_record(self@, self@, size as int, align as int);
            }
        }
        if size > usize::MAX - align {
            proof {
                lemma_first_fit_bounded(
                    self@.entries,
                    self@.address,
                    self@.storage_end(),
                    size + align,
                    0,
                );
            }
            return None;
        }
        let ghost before = self@;
        match self.allocate(size + align) {
            Some(address) => {
                proof {
                    lemma_alloc_in_record(before, size + align);
                    lemma_next_multiple(address as int, align as int);
                }
                if address != 0 {
                    Some(address + (align - address % align))
                } else {
                    Some(address)
                }
            },
            None => None,
        }
    }
}

/// No record serves a request that is larger than the address space.
pub proof fn lemma_first_fit_bounded(
    entries: Seq<MemoryMapEntry>,
    map_start: int,
    map_end: int,
    size: int,
    from: int,
)
    requires
        size > usize::MAX,
    ensures
        first_fit(entries, map_start, map_end, size, from).is_none(),
    decreases entries.len() - from,
{
    if 0 <= from < entries.len() {
        lemma_first_fit_bounded(entries, map_start, map_end, size, from + 1);
    }
}

/// What `first_fit` finds is a record that serves, and none before it does.
pub proof fn lemma_first_fit_found(
    entries: Seq<MemoryMapEntry>,
    map_start: int,
    map_end: int,
    size: int,
    from: int,
)
    requires
        0 <= from,
    ensures
        match first_fit(entries, map_start, map_end, size, from) {
            Some(i) => from <= i < entries.len() && carve(
                entries[i],
                map_start,
                map_end,
                size,
            ).is_some() && forall|j: int|
                from <= j < i ==> carve(#[trigger] entries[j], map_start, map_end, size).is_none(),
            None => forall|j: int|
                from <= j < entries.len() ==> carve(
                    #[trigger] entries[j],
                    map_start,
                    map_end,
                    size,
                ).is_none(),
        },
    decreases entries.len() - from,
{
    if from < entries.len() {
        lemma_first_fit_found(entries, map_start, map_end, size, from + 1);
    }
}

/// An allocated range lies inside the record that served it, and that record
/// keeps what lies behind the range.
pub proof fn lemma_alloc_in_record(s: MapState, size: int)
    requires
        0 <= size,
        0 <= s.address,
        s.alloc_index(size).is_some(),
    ensures
        ({
            let i = s.alloc_index(size).unwrap();
            let a = s.alloc_result(size).unwrap();
            let rest = s.after_alloc(size).entries[i];
            &&& 0 <= i < s.entries.len()
            &&& s.entries[i].holds_range(a, size)
            &&& rest.is_usable()
            &&& rest.addr == a + size
            &&& rest.end() == s.entries[i].end()
            &&& rest.m_type == s.entries[i].m_type
            &&& s.after_alloc(size).entries == s.entries.update(i, rest)
        }),
{
    lemma_first_fit_found(s.entries, s.address, s.storage_end(), size, 0);
}

/// Two address ranges share an address.
pub open spec fn ranges_overlap(a: int, n: int, b: int, m: int) -> bool {
    n > 0 && m > 0 && a < b + m && b < a + n
}

/// Shrinking is transitive: what was shrunk from a shrunk map was shrunk from
/// the map before that.
pub proof fn lemma_shrunk_transitive(first: MapState, second: MapState, third: MapState)
    requires
        second.shrunk_from(first),
        third.shrunk_from(second),
    ensures
        third.shrunk_from(first),
{
    assert forall|i: int| 0 <= i < third.entries.len() implies {
        &&& (#[trigger] third.entries[i]).m_type == first.entries[i].m_type
        &&& third.entries[i].is_usable() ==> first.entries[i].is_usable() && first.entries[i].addr
            <= third.entries[i].addr && third.entries[i].end() <= first.entries[i].end()
    } by {
        let mid = second.entries[i];
    }
}

/// A shrunk map offers no address that the earlier map did not offer, and
/// its records stay apart where the earlier ones were.
pub proof fn lemma_shrunk_offers_less(later: MapState, earlier: MapState)
    requires
        later.shrunk_from(earlier),
    ensures
        later.free_set().subset_of(earlier.free_set()),
        earlier.disjoint() ==> later.disjoint(),
{
    assert forall|x: int| later.free_set().contains(x) implies earlier.free_set().contains(x) by {
        let i = choose|i: int| 0 <= i < later.entries.len() && #[trigger] later.entries[i].holds(x);
        assert(earlier.entries[i].holds(x));
    }
    if earlier.disjoint() {
        assert forall|i: int, j: int, x: int|
            0 <= i < later.entries.len() && 0 <= j < later.entries.len() && i != j
                && #[trigger] later.entries[i].holds(x) implies !#[trigger] later.entries[j].holds(
            x,
        ) by {
            assert(earlier.entries[i].holds(x));
            if later.entries[j].holds(x) {
                assert(earlier.entries[j].holds(x));
            }
        }
    }
}

/// An allocation only shrinks the map.
pub proof fn lemma_alloc_shrinks(s: MapState, size: int)
    requires
        0 <= size,
        0 <= s.address,
    ensures
        s.after_alloc(size).shrunk_from(s),
{
    if s.alloc_index(size).is_some() {
        lemma_alloc_in_record(s, size);
    }
}

/// What `first_holder` finds is a record that strictly holds the range.
pub proof fn lemma_first_holder_found(
    entries: Seq<MemoryMapEntry>,
    address: int,
    size: int,
    from: int,
)
    requires
        0 <= from,
    ensures
        match first_holder(entries, address, size, from) {
            Some(i) => from <= i < entries.len() && entries[i].strictly_holds(address, size),
            None => forall|j: int|
                from <= j < entries.len() ==> !(#[trigger] entries[j]).strictly_holds(
                    address,
                    size,
                ),
        },
    decreases entries.len() - from,
{
    if from < entries.len() {
        lemma_first_holder_found(entries, address, size, from + 1);
    }
}

/// A reservation only shrinks the map.
pub proof fn lemma_reserve_shrinks(s: MapState, address: int, size: int)
    requires
        0 <= size,
    ensures
        s.after_reserve(address, size).shrunk_from(s),
{
    lemma_first_holder_found(s.entries, address, size, 0);
}

/// Reserving the sections of the kernel image only shrinks the map.
pub proof fn lemma_sections_shrink(s: MapState, sections: Seq<ElfSection>, k: int)
    requires
        k <= sections.len(),
    ensures
        s.after_sections(sections, k).shrunk_from(s),
    decreases k,
{
    if k > 0 {
        lemma_sections_shrink(s, sections, k - 1);
        let before = s.after_sections(sections, k - 1);
        let section = sections[k - 1];
        lemma_reserve_shrinks(before, section.section_addr as int, section.section_size as int);
        lemma_shrunk_transitive(s, before, s.after_sections(sections, k));
    }
}

/// Every address of an allocated range was available before the allocation
/// and is not available after it, where the map's records do not overlap.
pub proof fn lemma_allocated_range_is_taken(s: MapState, size: int)
    requires
        0 <= size,
        0 <= s.address,
        s.disjoint(),
        s.alloc_result(size).is_some(),
    ensures
        forall|x: int|
            s.alloc_result(size).unwrap() <= x < s.alloc_result(size).unwrap() + size
                ==> #[trigger] s.free_set().contains(x),
        forall|x: int|
            s.alloc_result(size).unwrap() <= x < s.alloc_result(size).unwrap() + size
                ==> !#[trigger] s.after_alloc(size).free_set().contains(x),
{
    lemma_alloc_in_record(s, size);
    let i = s.alloc_index(size).unwrap();
    let a = s.alloc_result(size).unwrap();
    let after = s.after_alloc(size);
    assert forall|x: int| a <= x < a + size implies #[trigger] s.free_set().contains(x) by {
        assert(s.entries[i].holds(x));
    }
    assert forall|x: int| a <= x < a + size implies !#[trigger] after.free_set().contains(x) by {
        assert(s.entries[i].holds(x));
        if after.free_set().contains(x) {
            let j = choose|j: int| 0 <= j < after.entries.len() && #[trigger] after.entries[j].holds(x);
            if j != i {
                assert(after.entries[j] == s.entries[j]);
                assert(s.entries[j].holds(x));
            }
        }
    }
}

/// No address of a reserved range is available afterwards, where the range
/// lay strictly inside a usable record and the map's records do not overlap.
pub proof fn lemma_reserved_range_is_taken(s: MapState, address: int, size: int)
    requires
        0 <= size,
        s.disjoint(),
        first_holder(s.entries, address, size, 0).is_some(),
    ensures
        forall|x: int|
            address <= x < address + size ==> !#[trigger] s.after_reserve(
                address,
                size,
            ).free_set().contains(x),
{
    lemma_first_holder_found(s.entries, address, size, 0);
    let i = first_holder(s.entries, address, size, 0).unwrap();
    let after = s.after_reserve(address, size);
    assert forall|x: int| address <= x < address + size implies !#[trigger] after.free_set().contains(
        x,
    ) by {
        assert(s.entries[i].holds(x));
        if after.free_set().contains(x) {
            let j = choose|j: int| 0 <= j < after.entries.len() && #[trigger] after.entries[j].holds(x);
            if j != i {
                assert(after.entries[j] == s.entries[j]);
                assert(s.entries[j].holds(x));
            }
        }
    }
}

/// Two allocations never overlap, whatever was allocated or reserved between
/// them: `later` is any state that the map reached after the first one.
pub proof fn lemma_allocations_never_overlap(
    s: MapState,
    size: int,
    later: MapState,
    later_size: int,
)
    requires
        0 <= size,
        0 <= later_size,
        0 <= s.address,
        s.disjoint(),
        s.alloc_result(size).is_some(),
        later.shrunk_from(s.after_alloc(size)),
        later.alloc_result(later_size).is_some(),
    ensures
        !ranges_overlap(
            s.alloc_result(size).unwrap(),
            size,
            later.alloc_result(later_size).unwrap(),
            later_size,
        ),
{
    let a = s.alloc_result(size).unwrap();
    let b = later.alloc_result(later_size).unwrap();
    if ranges_overlap(a, size, b, later_size) {
        let x = if a < b {
            b
        } else {
            a
        };
        lemma_allocated_range_is_taken(s, size);
        lemma_alloc_in_record(later, later_size);
        let i = later.alloc_index(later_size).unwrap();
        assert(later.entries[i].holds(x));
        assert(later.free_set().contains(x));
        lemma_shrunk_offers_less(later, s.after_alloc(size));
        assert(s.after_alloc(size).free_set().contains(x));
    }
}

/// An allocation never overlaps a range that was reserved before it, where
/// the reserved range lay strictly inside a usable record.
pub proof fn lemma_allocation_avoids_reserved(
    s: MapState,
    address: int,
    size: int,
    later: MapState,
    later_size: int,
)
    requires
        0 <= size,
        0 <= later_size,
        0 <= later.address,
        s.disjoint(),
        first_holder(s.entries, address, size, 0).is_some(),
        later.shrunk_from(s.after_reserve(address, size)),
        later.alloc_result(later_size).is_some(),
    ensures
        !ranges_overlap(address, size, later.alloc_result(later_size).unwrap(), later_size),
{
    let b = later.alloc_result(later_size).unwrap();
    if ranges_overlap(address, size, b, later_size) {
        let x = if address < b {
            b
        } else {
            address
        };
        lemma_reserved_range_is_taken(s, address, size);
        lemma_alloc_in_record(later, later_size);
        let i = later.alloc_index(later_size).unwrap();
        assert(later.entries[i].holds(x));
        assert(later.free_set().contains(x));
        lemma_shrunk_offers_less(later, s.after_reserve(address, size));
        assert(s.after_reserve(address, size).free_set().contains(x));
    }
}

/// The next multiple of `align` is a multiple of `align`, and lies at most
/// `align` above the address.
pub proof fn lemma_next_multiple(address: int, align: int)
    requires
        0 <= address,
        0 < align,
    ensures
        next_multiple(address, align) % align == 0,
        address <= next_multiple(address, align) <= address + align,
{
    if address != 0 {
        lemma_fundamental_div_mod(address, align);
        let q = address / align;
        assert(align * q + align == (q + 1) * align) by (nonlinear_arith);
        lemma_mod_multiples_basic(q + 1, align);
    }
}

/// An aligned allocation returns a multiple of the alignment, and its `size`
/// bytes lie inside one usable record of every map that the current one was
/// shrunk from: the map the firmware reported among them.
pub proof fn lemma_aligned_allocation_in_reported_record(
    reported: MapState,
    s: MapState,
    size: int,
    align: int,
)
    requires
        0 <= size,
        0 < align,
        0 <= s.address,
        s.shrunk_from(reported),
        s.aligned_result(size, align).is_some(),
    ensures
        s.aligned_result(size, align).unwrap() % align == 0,
        exists|i: int|
            0 <= i < reported.entries.len() && (#[trigger] reported.entries[i]).holds_range(
                s.aligned_result(size, align).unwrap(),
                size,
            ),
{
    lemma_alloc_in_record(s, size + align);
    let i = s.alloc_index(size + align).unwrap();
    let a = s.alloc_result(size + align).unwrap();
    lemma_next_multiple(a, align);
    assert(s.entries[i].holds_range(next_multiple(a, align), size));
    assert(reported.entries[i].holds_range(next_multiple(a, align), size));
}

/// A plain allocation's bytes lie inside one usable record of every map that
/// the current one was shrunk from.
pub proof fn lemma_allocation_in_reported_record(reported: MapState, s: MapState, size: int)
    requires
        0 <= size,
        0 <= s.address,
        s.shrunk_from(reported),
        s.alloc_result(size).is_some(),
    ensures
        exists|i: int|
            0 <= i < reported.entries.len() && (#[trigger] reported.entries[i]).holds_range(
                s.alloc_result(size).unwrap(),
                size,
            ),
{
    lemma_alloc_in_record(s, size);
    let i = s.alloc_index(size).unwrap();
    assert(reported.entries[i].holds_range(s.alloc_result(size).unwrap(), size));
}

} // verus!
