//! ACPI table walker.
//!
//! Starting from the root system description pointer, this module finds the
//! root table, scans its entries for a table with a given signature, and
//! reads from the MADT the records of the local APICs and from the FADT the
//! PM timer's port and counter width. Checksums are not verified: firmware
//! data is trusted as far as its content goes, but no read leaves the
//! memory window or a table's stated length.

use crate::acpi_pm_timer::AcpiPmTimer;
use crate::phys_memory::{get_u32, le_u32, PhysMemory};
use vstd::prelude::*;

verus! {

/// Offset of the revision byte in the root pointer structure.
pub const RSDP_REVISION_OFFSET: usize = 15;

/// Offset of the 32-bit address of the legacy root table.
pub const RSDP_RSDT_ADDRESS_OFFSET: usize = 16;

/// Offset of the 64-bit address of the extended root table.
pub const RSDP_XSDT_ADDRESS_OFFSET: usize = 24;

/// Offset of the 32-bit length field in every table's header.
pub const TABLE_LENGTH_OFFSET: usize = 4;

/// Size of the header that every table starts with; a root table's entries
/// follow it.
pub const TABLE_HEADER_SIZE: usize = 0x24;

/// Size of the MADT's fixed part; its records follow it.
pub const MADT_HEADER_SIZE: usize = 44;

/// Offset of the PM timer's port in the FADT.
pub const FADT_PM_TIMER_BLOCK_OFFSET: usize = 76;

/// Offset of the flags in the FADT; bit 8 tells a 32-bit counter.
pub const FADT_FLAGS_OFFSET: usize = 112;

/// The signature "APIC" of the MADT, read as a little-endian value.
pub const MADT_SIGNATURE: u32 = 0x4349_5041;

/// The signature "FACP" of the FADT, read as a little-endian value.
pub const FADT_SIGNATURE: u32 = 0x5043_4146;

/// Record type of a local APIC.
pub const RECORD_LOCAL_APIC: u8 = 0;

/// Record type of a local x2APIC.
pub const RECORD_LOCAL_X2APIC: u8 = 9;

/// The address of the extended root table, where the root pointer at `rsdp`
/// has revision 2 or later and the address can be read.
pub open spec fn xsdt_of(mem: &PhysMemory, rsdp: int) -> Option<int> {
    if mem.covers(rsdp + RSDP_REVISION_OFFSET, 1) && mem.byte_at(rsdp + RSDP_REVISION_OFFSET) >= 2
        && mem.covers(rsdp + RSDP_XSDT_ADDRESS_OFFSET, 8) && mem.u64_at(
        rsdp + RSDP_XSDT_ADDRESS_OFFSET,
    ) <= usize::MAX {
        Some(mem.u64_at(rsdp + RSDP_XSDT_ADDRESS_OFFSET))
    } else {
        None
    }
}

/// The address of the legacy root table, where it can be read.
pub open spec fn rsdt_of(mem: &PhysMemory, rsdp: int) -> Option<int> {
    if mem.covers(rsdp + RSDP_RSDT_ADDRESS_OFFSET, 4) {
        Some(mem.u32_at(rsdp + RSDP_RSDT_ADDRESS_OFFSET))
    } else {
        None
    }
}

/// The root table that the root pointer at `rsdp` names, and whether it is
/// the extended one: the extended table from revision 2 on, the legacy table
/// before. `None` where the revision or the address cannot be read.
pub open spec fn root_table_of(mem: &PhysMemory, rsdp: int) -> Option<(int, bool)> {
    if !mem.covers(rsdp + RSDP_REVISION_OFFSET, 1) {
        None
    } else if mem.byte_at(rsdp + RSDP_REVISION_OFFSET) >= 2 {
        match xsdt_of(mem, rsdp) {
            Some(address) => Some((address, true)),
            None => None,
        }
    } else {
        match rsdt_of(mem, rsdp) {
            Some(address) => Some((address, false)),
            None => None,
        }
    }
}

/// Distance of entry `index` from the first entry of a root table: entries
/// are 8 bytes apart in the extended table and 4 in the legacy one.
pub open spec fn entry_offset(index: int, is_xsdt: bool) -> int {
    if is_xsdt {
        8 * index
    } else {
        4 * index
    }
}

/// Entry `index` lies inside the root table at `table`, by the length that
/// the table's header states.
pub open spec fn entry_in_table(mem: &PhysMemory, table: int, index: int, is_xsdt: bool) -> bool {
    0 <= index && mem.covers(table + TABLE_LENGTH_OFFSET, 4) && entry_offset(index, is_xsdt)
        < mem.u32_at(table + TABLE_LENGTH_OFFSET) - TABLE_HEADER_SIZE
}

/// The table address that entry `index` of the root table holds: all eight
/// bytes of an entry of the extended table, the four bytes of an entry of
/// the legacy one. `None` where the entry lies outside the table or the
/// window, or names an address that the machine cannot form.
pub open spec fn entry_of(mem: &PhysMemory, table: int, index: int, is_xsdt: bool) -> Option<
    int,
> {
    let at = table + TABLE_HEADER_SIZE + entry_offset(index, is_xsdt);
    if !entry_in_table(mem, table, index, is_xsdt) {
        None
    } else if is_xsdt {
        if mem.covers(at, 8) && mem.u64_at(at) <= usize::MAX {
            Some(mem.u64_at(at))
        } else {
            None
        }
    } else {
        if mem.covers(at, 4) {
            Some(mem.u32_at(at))
        } else {
            None
        }
    }
}

/// The table at `address` starts with `signature`.
pub open spec fn has_signature(mem: &PhysMemory, address: int, signature: u32) -> bool {
    mem.covers(address, 4) && mem.u32_at(address) == signature
}

/// The first table with `signature` among the entries of the root table
/// from `index` on. The scan ends without a result at the first entry that
/// lies outside the table or cannot be read.
pub open spec fn scan_from(
    mem: &PhysMemory,
    root: int,
    is_xsdt: bool,
    signature: u32,
    index: int,
) -> Option<int>
    decreases 0x1_0000_0000 - index,
{
    match entry_of(mem, root, index, is_xsdt) {
        None => None,
        Some(table) => if has_signature(mem, table, signature) {
            Some(table)
        } else {
            proof {
                mem.lemma_value_bounds(root + TABLE_LENGTH_OFFSET);
            }
            scan_from(mem, root, is_xsdt, signature, index + 1)
        },
    }
}

/// The first table with `signature` that the root pointer at `rsdp` leads to.
pub open spec fn table_of(mem: &PhysMemory, rsdp: int, signature: u32) -> Option<int> {
    match root_table_of(mem, rsdp) {
        Some((root, is_xsdt)) => scan_from(mem, root, is_xsdt, signature, 0),
        None => None,
    }
}

/// Where the MADT's records start and what they hold: the bytes between the
/// MADT's fixed part and its stated length.
pub open spec fn madt_records_of(mem: &PhysMemory, rsdp: int) -> Option<(int, Seq<u8>)> {
    match table_of(mem, rsdp, MADT_SIGNATURE) {
        Some(madt) => {
            let length = mem.u32_at(madt + TABLE_LENGTH_OFFSET);
            if mem.covers(madt + TABLE_LENGTH_OFFSET, 4) && length >= MADT_HEADER_SIZE && mem.covers(
                madt + MADT_HEADER_SIZE,
                length - MADT_HEADER_SIZE,
            ) {
                Some(
                    (
                        madt + MADT_HEADER_SIZE,
                        mem.range_at(madt + MADT_HEADER_SIZE, length - MADT_HEADER_SIZE),
                    ),
                )
            } else {
                None
            }
        },
        None => None,
    }
}

/// The PM timer that the FADT describes: its port, and a 32-bit counter
/// where bit 8 of the flags is set.
pub open spec fn pm_timer_of(mem: &PhysMemory, rsdp: int) -> Option<AcpiPmTimer> {
    match table_of(mem, rsdp, FADT_SIGNATURE) {
        Some(fadt) => if mem.covers(fadt + FADT_PM_TIMER_BLOCK_OFFSET, 4) && mem.covers(
            fadt + FADT_FLAGS_OFFSET,
            4,
        ) {
            Some(
                AcpiPmTimer {
                    port: mem.u32_at(fadt + FADT_PM_TIMER_BLOCK_OFFSET) as usize,
                    is_32_bit_counter: (mem.u32_at(fadt + FADT_FLAGS_OFFSET) / 0x100) % 2 == 1,
                },
            )
        } else {
            None
        },
        None => None,
    }
}

/// Reads the address of the extended root table.
pub fn get_xsdt(mem: &PhysMemory, rsdp_address: usize) -> (r: Option<usize>)
    ensures
        r.is_some() == xsdt_of(mem, rsdp_address as int).is_some(),
        r matches Some(address) ==> xsdt_of(mem, rsdp_address as int) == Some(address as int),
{
    let revision = mem.read_u8(rsdp_address, RSDP_REVISION_OFFSET)?;
    if revision < 2 {
        return None;
    }
    let address = mem.read_u64(rsdp_address, RSDP_XSDT_ADDRESS_OFFSET)?;
    if address > usize::MAX as u64 {
        return None;
    }
    Some(address as usize)
}

/// Reads the address of the legacy root table.
pub fn get_rsdt(mem: &PhysMemory, rsdp_address: usize) -> (r: Option<usize>)
    ensures
        r.is_some() == rsdt_of(mem, rsdp_address as int).is_some(),
        r matches Some(address) ==> rsdt_of(mem, rsdp_address as int) == Some(address as int),
{
    let address = mem.read_u32(rsdp_address, RSDP_RSDT_ADDRESS_OFFSET)?;
    Some(address as usize)
}

/// Finds the root table: the extended one where the root pointer's revision
/// is 2 or later, else the legacy one. The flag tells which, and with it the
/// width of the table's entries.
pub fn locate_root_table(mem: &PhysMemory, rsdp_address: usize) -> (r: Option<(usize, bool)>)
    ensures
        r.is_some() == root_table_of(mem, rsdp_address as int).is_some(),
        r matches Some((address, is_xsdt)) ==> root_table_of(mem, rsdp_address as int) == Some(
            (address as int, is_xsdt),
        ),
        r matches Some((address, is_xsdt)) ==> is_xsdt == (mem.byte_at(
            rsdp_address + RSDP_REVISION_OFFSET,
        ) >= 2) && address == (if is_xsdt {
            mem.u64_at(rsdp_address + RSDP_XSDT_ADDRESS_OFFSET)
        } else {
            mem.u32_at(rsdp_address + RSDP_RSDT_ADDRESS_OFFSET)
        }),
{
    let revision = mem.read_u8(rsdp_address, RSDP_REVISION_OFFSET)?;
    if revision >= 2 {
        match get_xsdt(mem, rsdp_address) {
            Some(address) => Some((address, true)),
            None => None,
        }
    } else {
        match get_rsdt(mem, rsdp_address) {
            Some(address) => Some((address, false)),
            None => None,
        }
    }
}

/// Reads entry `index` of the root table at `address`. No entry is read at
/// or behind the length that the table states for itself.
pub fn get_entry(mem: &PhysMemory, address: usize, index: usize, is_xsdt: bool) -> (r: Option<
    usize,
>)
    ensures
        r.is_some() == entry_of(mem, address as int, index as int, is_xsdt).is_some(),
        r matches Some(table) ==> entry_of(mem, address as int, index as int, is_xsdt) == Some(
            table as int,
        ),
        r.is_some() ==> entry_in_table(mem, address as int, index as int, is_xsdt),
{
    let pointer_size: u64 = if is_xsdt {
        8
    } else {
        4
    };
    let length = mem.read_u32(address, TABLE_LENGTH_OFFSET)?;
    if length < TABLE_HEADER_SIZE as u32 || index as u64 >= length as u64 {
        return None;
    }
    let offset: u64 = index as u64 * pointer_size;
    if offset >= (length - TABLE_HEADER_SIZE as u32) as u64 {
        return None;
    }
    if is_xsdt {
        let table = mem.read_u64(address, TABLE_HEADER_SIZE + offset as usize)?;
        if table > usize::MAX as u64 {
            return None;
        }
        Some(table as usize)
    } else {
        let table = mem.read_u32(address, TABLE_HEADER_SIZE + offset as usize)?;
        Some(table as usize)
    }
}

/// Scans the root table that the root pointer names for the first entry
/// whose table starts with `signature`.
pub fn find_table(mem: &PhysMemory, rsdp_address: usize, signature: u32) -> (r: Option<usize>)
    ensures
        r.is_some() == table_of(mem, rsdp_address as int, signature).is_some(),
        r matches Some(table) ==> table_of(mem, rsdp_address as int, signature) == Some(
            table as int,
        ),
{
    let (root, is_xsdt) = locate_root_table(mem, rsdp_address)?;
    let mut index: usize = 0;
    loop
        invariant
            root_table_of(mem, rsdp_address as int) == Some((root as int, is_xsdt)),
            table_of(mem, rsdp_address as int, signature) == scan_from(
                mem,
                root as int,
                is_xsdt,
                signature,
                index as int,
            ),
        decreases 0x1_0000_0000 - index,
    {
        proof {
            mem.lemma_value_bounds(root + TABLE_LENGTH_OFFSET);
        }
        match get_entry(mem, root, index, is_xsdt) {
            None => {
                return None;
            },
            Some(table) => {
                if mem.read_u32(table, 0) == Some(signature) {
                    return Some(table);
                }
                index += 1;
            },
        }
    }
}

/// Finds the MADT, the table with the signature "APIC".
pub fn get_madt(mem: &PhysMemory, rsdp_address: usize) -> (r: Option<usize>)
    ensures
        r.is_some() == table_of(mem, rsdp_address as int, MADT_SIGNATURE).is_some(),
        r matches Some(table) ==> table_of(mem, rsdp_address as int, MADT_SIGNATURE) == Some(
            table as int,
        ),
{
    find_table(mem, rsdp_address, MADT_SIGNATURE)
}

/// Finds the MADT and returns the source of APIC ids over its records,
/// positioned at the first record. `None` where there is no MADT, or its
/// stated length is shorter than its fixed part or leaves the window.
pub fn get_apic_id_list<'a>(mem: &PhysMemory<'a>, rsdp_address: usize) -> (r: Option<
    ApicIdList<'a>,
>)
    ensures
        r.is_some() == madt_records_of(mem, rsdp_address as int).is_some(),
        r matches Some(list) ==> madt_records_of(mem, rsdp_address as int) == Some(
            (list@.base_address, list@.records),
        ) && list@.pointer == 0,
{
    let madt = get_madt(mem, rsdp_address)?;
    let length = mem.read_u32(madt, TABLE_LENGTH_OFFSET)?;
    if length < MADT_HEADER_SIZE as u32 {
        return None;
    }
    let records = mem.slice(madt, MADT_HEADER_SIZE, (length - MADT_HEADER_SIZE as u32) as usize)?;
    Some(ApicIdList { base_address: madt + MADT_HEADER_SIZE, records, pointer: 0 })
}

/// Finds the FADT, the table with the signature "FACP", and reads the PM
/// timer's port and counter width from it.
pub fn get_acpi_pm_timer(mem: &PhysMemory, rsdp_address: usize) -> (r: Option<AcpiPmTimer>)
    ensures
        r == pm_timer_of(mem, rsdp_address as int),
{
    let fadt = find_table(mem, rsdp_address, FADT_SIGNATURE)?;
    let port = mem.read_u32(fadt, FADT_PM_TIMER_BLOCK_OFFSET)?;
    let flags = mem.read_u32(fadt, FADT_FLAGS_OFFSET)?;
    Some(AcpiPmTimer::new(port as usize, (flags / 0x100) % 2 == 1))
}

/// The APIC id that the record at `at` yields: the id of a local APIC
/// (type 0) or local x2APIC (type 9) whose enabled bit, bit 0 of its flags,
/// is set. Fields behind the end of `records` are never read: a record
/// without them yields nothing.
pub open spec fn record_id(records: Seq<u8>, at: int) -> Option<u32> {
    if records[at] == RECORD_LOCAL_APIC {
        if at + 8 <= records.len() && le_u32(records, at + 4) % 2 == 1 {
            Some(records[at + 3] as u32)
        } else {
            None
        }
    } else if records[at] == RECORD_LOCAL_X2APIC {
        if at + 12 <= records.len() && le_u32(records, at + 8) % 2 == 1 {
            Some(le_u32(records, at + 4) as u32)
        } else {
            None
        }
    } else {
        None
    }
}

/// There is a record at `at`: its type and length bytes lie inside
/// `records`, and its length is not zero.
pub open spec fn record_present(records: Seq<u8>, at: int) -> bool {
    0 <= at && at + 2 <= records.len() && records[at + 1] != 0
}

/// Where the record at `at` ends: its length further on, but never behind
/// the end of `records`.
pub open spec fn record_end(records: Seq<u8>, at: int) -> int {
    if at + records[at + 1] <= records.len() {
        at + records[at + 1]
    } else {
        records.len() as int
    }
}

/// One step of the source at offset `at`: the offset it moves to and the id
/// it yields. Records that yield nothing are skipped. Where no record is
/// left, the source moves to the end and yields `None`.
pub open spec fn next_from(records: Seq<u8>, at: int) -> (int, Option<u32>)
    decreases records.len() - at,
{
    if !record_present(records, at) {
        (records.len() as int, None)
    } else {
        match record_id(records, at) {
            Some(id) => (record_end(records, at), Some(id)),
            None => next_from(records, record_end(records, at)),
        }
    }
}

/// The ids of the enabled local APIC records from offset `at` on, in the
/// order of their offsets.
pub open spec fn ids_from(records: Seq<u8>, at: int) -> Seq<u32>
    decreases records.len() - at,
{
    if !record_present(records, at) {
        Seq::empty()
    } else {
        let rest = ids_from(records, record_end(records, at));
        match record_id(records, at) {
            Some(id) => seq![id] + rest,
            None => rest,
        }
    }
}

/// The state of a source of APIC ids: where its records start in memory,
/// the records, and the offset of the next record to look at.
pub struct ApicIdListState {
    pub base_address: int,
    pub records: Seq<u8>,
    pub pointer: int,
}

/// A source of the APIC ids of the enabled processors, read lazily from the
/// records of the MADT. It is consumed as it is stepped; a copy taken before
/// restarts from where the copy was taken.
#[derive(Clone, Copy)]
pub struct ApicIdList<'a> {
    base_address: usize,
    records: &'a [u8],
    pointer: usize,
}

impl<'a> View for ApicIdList<'a> {
    type V = ApicIdListState;

    closed spec fn view(&self) -> ApicIdListState {
        ApicIdListState {
            base_address: self.base_address as int,
            records: self.records@,
            pointer: self.pointer as int,
        }
    }
}

impl<'a> ApicIdList<'a> {
    /// The offset never lies behind the end of the records.
    #[verifier::type_invariant]
    spec fn offset_in_records(self) -> bool {
        self.pointer <= self.records@.len()
    }

    /// A source without records.
    pub fn const_new() -> (list: Self)
        ensures
            list@.base_address == 0,
            list@.records.len() == 0,
            list@.pointer == 0,
    {
        let empty: &'static [u8] = &[];
        Self { base_address: 0, records: empty, pointer: 0 }
    }

    /// A source over `records`, which are stored at `base_address`.
    pub fn new(base_address: usize, records: &'a [u8]) -> (list: Self)
        ensures
            list@ == (ApicIdListState {
                base_address: base_address as int,
                records: records@,
                pointer: 0,
            }),
    {
        Self { base_address, records, pointer: 0 }
    }

    /// Address at which the records start.
    pub fn base_address(&self) -> (r: usize)
        ensures
            r == self@.base_address,
    {
        self.base_address
    }

    /// Number of bytes the records span.
    pub fn length(&self) -> (r: usize)
        ensures
            r == self@.records.len(),
    {
        self.records.len()
    }

    /// Offset of the next record to look at.
    pub fn pointer(&self) -> (r: usize)
        ensures
            r == self@.pointer,
            r <= self@.records.len() <= usize::MAX,
    {
        proof {
            use_type_invariant(self);
            vstd::slice::axiom_spec_len(self.records);
        }
        self.pointer
    }

    /// A copy of the source as it stands. Stepping the copy leaves the
    /// source where it is, and both yield the same from here on.
    pub fn snapshot(&self) -> (copy: Self)
        ensures
            copy@ == self@,
    {
        *self
    }

    /// Yields the id of the next enabled local APIC, or `None` when no
    /// record is left. The offset moves past every record looked at and
    /// never past the end of the records.
    pub fn next(&mut self) -> (r: Option<u32>)
        ensures
            final(self)@.base_address == old(self)@.base_address,
            final(self)@.records == old(self)@.records,
            (final(self)@.pointer, r) == next_from(old(self)@.records, old(self)@.pointer),
            final(self)@.pointer <= final(self)@.records.len() <= usize::MAX,
    {
        let len: usize = self.records.len();
        loop
            invariant
                len == self.records@.len(),
                self@.base_address == old(self)@.base_address,
                self@.records == old(self)@.records,
                next_from(old(self)@.records, old(self)@.pointer) == next_from(
                    self@.records,
                    self@.pointer,
                ),
            decreases len - self.pointer,
        {
            let at: usize = self.pointer;
            if at >= len || len - at < 2 {
                self.pointer = len;
                return None;
            }
            let kind: u8 = self.records[at];
            let size: u8 = self.records[at + 1];
            if size == 0 {
                self.pointer = len;
                return None;
            }
            if size as usize <= len - at {
                self.pointer = at + size as usize;
            } else {
                self.pointer = len;
            }
            if kind == RECORD_LOCAL_APIC {
                if len - at >= 8 {
                    let flags = get_u32(self.records, at + 4);
                    if flags.unwrap() % 2 == 1 {
                        return Some(self.records[at + 3] as u32);
                    }
                }
            } else if kind == RECORD_LOCAL_X2APIC {
                if len - at >= 12 {
                    let flags = get_u32(self.records, at + 8);
                    if flags.unwrap() % 2 == 1 {
                        return get_u32(self.records, at + 4);
                    }
                }
            }
        }
    }

    /// Steps the source to its end and returns every id it yields.
    pub fn collect(&mut self) -> (ids: Vec<u32>)
        ensures
            final(self)@.base_address == old(self)@.base_address,
            final(self)@.records == old(self)@.records,
            final(self)@.pointer == final(self)@.records.len(),
            ids@ == ids_from(old(self)@.records, old(self)@.pointer),
    {
        let mut ids: Vec<u32> = Vec::new();
        loop
            invariant
                self@.base_address == old(self)@.base_address,
                self@.records == old(self)@.records,
                ids@ + ids_from(self@.records, self@.pointer) == ids_from(
                    old(self)@.records,
                    old(self)@.pointer,
                ),
            decreases self@.records.len() - self@.pointer + 1,
        {
            let ghost before = self@;
            proof {
                lemma_next_yields_first(before.records, before.pointer);
            }
            match self.next() {
                Some(id) => {
                    ids.push(id);
                    assert(ids@ + ids_from(self@.records, self@.pointer) =~= ids@.drop_last() + (
                    seq![id] + ids_from(self@.records, self@.pointer)));
                },
                None => {
                    assert(ids@ + Seq::<u32>::empty() =~= ids@);
                    return ids;
                },
            }
        }
    }
}

/// A table that the scan finds is named by an entry that lies inside the
/// root table, by the length the table states, and all entries that the
/// scan looked at before lie inside it too: no entry at or behind the
/// stated length is ever read.
pub proof fn lemma_scan_stays_in_table(
    mem: &PhysMemory,
    root: int,
    is_xsdt: bool,
    signature: u32,
    index: int,
)
    requires
        0 <= index,
    ensures
        scan_from(mem, root, is_xsdt, signature, index) matches Some(table) ==> exists|i: int|
            index <= i && entry_in_table(mem, root, i, is_xsdt) && #[trigger] entry_of(
                mem,
                root,
                i,
                is_xsdt,
            ) == Some(table) && has_signature(mem, table, signature) && forall|j: int|
                index <= j < i ==> #[trigger] entry_in_table(mem, root, j, is_xsdt),
    decreases 0x1_0000_0000 - index,
{
    mem.lemma_value_bounds(root + TABLE_LENGTH_OFFSET);
    match entry_of(mem, root, index, is_xsdt) {
        None => {},
        Some(table) => {
            if !has_signature(mem, table, signature) {
                lemma_scan_stays_in_table(mem, root, is_xsdt, signature, index + 1);
            }
        },
    }
}

/// A step yields the first of the remaining ids and leaves the rest: the
/// ids that repeated steps yield are those of the enabled records in the
/// order of their offsets, each once. A step that yields an id moves the
/// offset forward; one that yields nothing moves it to the end.
pub proof fn lemma_next_yields_first(records: Seq<u8>, at: int)
    ensures
        ({
            let (pointer, id) = next_from(records, at);
            &&& pointer <= records.len()
            &&& match id {
                Some(id) => at < pointer && at + 8 <= records.len() && ids_from(records, at)
                    == seq![id] + ids_from(
                    records,
                    pointer,
                ),
                None => pointer == records.len() && ids_from(records, at) == Seq::<u32>::empty()
                    && ids_from(records, pointer) == Seq::<u32>::empty(),
            }
        }),
    decreases records.len() - at,
{
    if record_present(records, at) {
        if record_id(records, at).is_none() {
            lemma_next_yields_first(records, record_end(records, at));
        }
    }
}

/// Number of records from offset `at` on that yield an id: the records of
/// type 0 or 9 whose enabled bit is set.
pub open spec fn enabled_records(records: Seq<u8>, at: int) -> nat
    decreases records.len() - at,
{
    if !record_present(records, at) {
        0
    } else if record_id(records, at).is_some() {
        1 + enabled_records(records, record_end(records, at))
    } else {
        enabled_records(records, record_end(records, at))
    }
}

/// A source yields exactly as many ids as it has enabled records left.
pub proof fn lemma_ids_count(records: Seq<u8>, at: int)
    ensures
        ids_from(records, at).len() == enabled_records(records, at),
    decreases records.len() - at,
{
    if record_present(records, at) {
        lemma_ids_count(records, record_end(records, at));
    }
}

/// A copy of a source yields what the source yields: the result of a step
/// and the state after it depend on the state alone, so two sources in the
/// same state stay in step however each of them is consumed.
pub proof fn lemma_copy_restarts(list: ApicIdListState, copy: ApicIdListState)
    requires
        copy == list,
    ensures
        next_from(copy.records, copy.pointer) == next_from(list.records, list.pointer),
        ids_from(copy.records, copy.pointer) == ids_from(list.records, list.pointer),
{
}

} // verus!
