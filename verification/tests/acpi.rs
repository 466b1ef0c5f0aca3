use smp_boot::acpi::{
    find_table, get_acpi_pm_timer, get_apic_id_list, get_entry, get_madt, get_rsdt, get_xsdt,
    locate_root_table, ApicIdList, FADT_SIGNATURE, MADT_SIGNATURE,
};
use smp_boot::acpi_pm_timer::AcpiPmTimer;
use smp_boot::phys_memory::PhysMemory;

const BASE: usize = 0x1000;
const RSDP: usize = 0x1000;
const XSDT: usize = 0x1100;
const RSDT: usize = 0x1200;
const MADT: usize = 0x1300;
const HPET: usize = 0x1400;
const FADT: usize = 0x1500;

fn put(image: &mut Vec<u8>, address: usize, bytes: &[u8]) {
    let at = address - BASE;
    image[at..at + bytes.len()].copy_from_slice(bytes);
}

fn put_table(image: &mut Vec<u8>, address: usize, signature: &[u8; 4], length: u32) {
    put(image, address, signature);
    put(image, address + 4, &length.to_le_bytes());
}

fn local_apic(id: u8, flags: u32) -> Vec<u8> {
    let mut record = vec![0u8, 8, id, id];
    record.extend_from_slice(&flags.to_le_bytes());
    record
}

fn local_x2apic(id: u32, flags: u32) -> Vec<u8> {
    let mut record = vec![9u8, 16, 0, 0];
    record.extend_from_slice(&id.to_le_bytes());
    record.extend_from_slice(&flags.to_le_bytes());
    record.extend_from_slice(&0u32.to_le_bytes());
    record
}

/// A window with a root pointer of the given revision, both root tables,
/// a MADT with `records`, a table that is neither, and a FADT.
fn firmware(revision: u8, records: &[u8]) -> Vec<u8> {
    let mut image = vec![0u8; 0x1000];
    put(&mut image, RSDP, b"RSD PTR ");
    put(&mut image, RSDP + 15, &[revision]);
    put(&mut image, RSDP + 16, &(RSDT as u32).to_le_bytes());
    put(&mut image, RSDP + 24, &(XSDT as u64).to_le_bytes());
    put_table(&mut image, XSDT, b"XSDT", 0x24 + 3 * 8);
    put(&mut image, XSDT + 0x24, &(HPET as u64).to_le_bytes());
    put(&mut image, XSDT + 0x2c, &(MADT as u64).to_le_bytes());
    put(&mut image, XSDT + 0x34, &(FADT as u64).to_le_bytes());
    put_table(&mut image, RSDT, b"RSDT", 0x24 + 3 * 4);
    put(&mut image, RSDT + 0x24, &(FADT as u32).to_le_bytes());
    put(&mut image, RSDT + 0x28, &(HPET as u32).to_le_bytes());
    put(&mut image, RSDT + 0x2c, &(MADT as u32).to_le_bytes());
    put_table(&mut image, MADT, b"APIC", 44 + records.len() as u32);
    put(&mut image, MADT + 44, records);
    put_table(&mut image, HPET, b"HPET", 56);
    put_table(&mut image, FADT, b"FACP", 276);
    put(&mut image, FADT + 76, &0x608u32.to_le_bytes());
    put(&mut image, FADT + 112, &0x0000_0100u32.to_le_bytes());
    image
}

fn two_records() -> Vec<u8> {
    let mut records = local_apic(0, 1);
    records.extend_from_slice(&local_apic(1, 0));
    records
}

#[test]
fn root_table_is_the_extended_one_from_revision_2_on() {
    for revision in [2u8, 3, 4, 255] {
        let image = firmware(revision, &[]);
        let mem = PhysMemory::new(BASE, &image);
        assert_eq!(locate_root_table(&mem, RSDP), Some((XSDT, true)));
        assert_eq!(get_xsdt(&mem, RSDP), Some(XSDT));
    }
}

#[test]
fn root_table_is_the_legacy_one_before_revision_2() {
    for revision in [0u8, 1] {
        let image = firmware(revision, &[]);
        let mem = PhysMemory::new(BASE, &image);
        assert_eq!(locate_root_table(&mem, RSDP), Some((RSDT, false)));
        assert_eq!(get_xsdt(&mem, RSDP), None);
        assert_eq!(get_rsdt(&mem, RSDP), Some(RSDT));
    }
}

#[test]
fn root_table_needs_a_readable_root_pointer() {
    let image = firmware(2, &[]);
    // The window ends inside the extended address.
    let cut = PhysMemory::new(BASE, &image[..28]);
    assert_eq!(locate_root_table(&cut, RSDP), None);
    assert_eq!(get_rsdt(&cut, RSDP), Some(RSDT));
    let mem = PhysMemory::new(BASE, &image);
    assert_eq!(locate_root_table(&mem, 0x800), None);
    assert_eq!(locate_root_table(&mem, 0x1ff8), None);
    assert_eq!(get_rsdt(&mem, 0x1ffd), None);
}

#[test]
fn entries_are_read_at_the_width_of_the_root_table() {
    let image = firmware(2, &[]);
    let mem = PhysMemory::new(BASE, &image);
    assert_eq!(get_entry(&mem, XSDT, 0, true), Some(HPET));
    assert_eq!(get_entry(&mem, XSDT, 1, true), Some(MADT));
    assert_eq!(get_entry(&mem, XSDT, 2, true), Some(FADT));
    assert_eq!(get_entry(&mem, RSDT, 0, false), Some(FADT));
    assert_eq!(get_entry(&mem, RSDT, 1, false), Some(HPET));
    assert_eq!(get_entry(&mem, RSDT, 2, false), Some(MADT));
}

#[test]
fn entries_behind_the_stated_length_are_not_read() {
    let mut image = firmware(2, &[]);
    // A tempting address right behind the last entry of each table.
    put(&mut image, XSDT + 0x24 + 24, &(MADT as u64).to_le_bytes());
    put(&mut image, RSDT + 0x24 + 12, &(MADT as u32).to_le_bytes());
    let mem = PhysMemory::new(BASE, &image);
    assert_eq!(get_entry(&mem, XSDT, 3, true), None);
    assert_eq!(get_entry(&mem, XSDT, 4, true), None);
    assert_eq!(get_entry(&mem, RSDT, 3, false), None);
    assert_eq!(get_entry(&mem, RSDT, usize::MAX, false), None);
    assert_eq!(get_entry(&mem, XSDT, usize::MAX / 8 + 1, true), None);
}

#[test]
fn entry_is_in_the_table_by_the_first_of_its_bytes() {
    let mut image = firmware(2, &[]);
    // One byte more than two entries: a third entry begins inside the table.
    put(&mut image, XSDT + 4, &(0x24u32 + 17).to_le_bytes());
    let mem = PhysMemory::new(BASE, &image);
    assert_eq!(get_entry(&mem, XSDT, 2, true), Some(FADT));
    assert_eq!(get_entry(&mem, XSDT, 3, true), None);
}

#[test]
fn table_shorter_than_its_header_has_no_entries() {
    let mut image = firmware(2, &[]);
    put(&mut image, XSDT + 4, &0x23u32.to_le_bytes());
    let mem = PhysMemory::new(BASE, &image);
    assert_eq!(get_entry(&mem, XSDT, 0, true), None);
    assert_eq!(find_table(&mem, RSDP, MADT_SIGNATURE), None);
    put(&mut image, XSDT + 4, &0x24u32.to_le_bytes());
    let mem = PhysMemory::new(BASE, &image);
    assert_eq!(get_entry(&mem, XSDT, 0, true), None);
}

#[test]
fn tables_are_found_by_signature() {
    for (revision, _) in [(0u8, RSDT), (2, XSDT)] {
        let image = firmware(revision, &[]);
        let mem = PhysMemory::new(BASE, &image);
        assert_eq!(find_table(&mem, RSDP, MADT_SIGNATURE), Some(MADT));
        assert_eq!(find_table(&mem, RSDP, FADT_SIGNATURE), Some(FADT));
        assert_eq!(find_table(&mem, RSDP, u32::from_le_bytes(*b"HPET")), Some(HPET));
        assert_eq!(find_table(&mem, RSDP, u32::from_le_bytes(*b"MCFG")), None);
        assert_eq!(get_madt(&mem, RSDP), Some(MADT));
    }
}

#[test]
fn signatures_are_the_letters_of_the_tables() {
    assert_eq!(MADT_SIGNATURE, u32::from_le_bytes(*b"APIC"));
    assert_eq!(FADT_SIGNATURE, u32::from_le_bytes(*b"FACP"));
}

#[test]
fn first_table_with_the_signature_wins() {
    let mut image = firmware(2, &[]);
    put(&mut image, HPET, b"APIC");
    let mem = PhysMemory::new(BASE, &image);
    assert_eq!(find_table(&mem, RSDP, MADT_SIGNATURE), Some(HPET));
}

#[test]
fn table_behind_the_stated_length_is_not_found() {
    let mut image = firmware(2, &[]);
    // The table now states two entries: the FADT's is behind its end.
    put(&mut image, XSDT + 4, &(0x24u32 + 16).to_le_bytes());
    let mem = PhysMemory::new(BASE, &image);
    assert_eq!(find_table(&mem, RSDP, MADT_SIGNATURE), Some(MADT));
    assert_eq!(find_table(&mem, RSDP, FADT_SIGNATURE), None);
    assert_eq!(get_acpi_pm_timer(&mem, RSDP), None);
}

#[test]
fn scan_passes_an_entry_whose_table_is_outside_the_window() {
    let mut image = firmware(2, &[]);
    put(&mut image, XSDT + 0x24, &0x9000_0000u64.to_le_bytes());
    let mem = PhysMemory::new(BASE, &image);
    assert_eq!(find_table(&mem, RSDP, MADT_SIGNATURE), Some(MADT));
}

#[test]
fn scan_ends_where_an_entry_is_outside_the_window() {
    let image = firmware(2, &[]);
    // The window ends behind the first entry of the extended table.
    let cut = PhysMemory::new(BASE, &image[..XSDT - BASE + 0x24 + 8]);
    assert_eq!(get_entry(&cut, XSDT, 0, true), Some(HPET));
    assert_eq!(get_entry(&cut, XSDT, 1, true), None);
    assert_eq!(find_table(&cut, RSDP, MADT_SIGNATURE), None);
}

#[test]
fn pm_timer_is_read_from_the_fadt() {
    let mut image = firmware(2, &[]);
    let mem = PhysMemory::new(BASE, &image);
    assert_eq!(get_acpi_pm_timer(&mem, RSDP), Some(AcpiPmTimer::new(0x608, true)));
    put(&mut image, FADT + 112, &0xffff_feffu32.to_le_bytes());
    let mem = PhysMemory::new(BASE, &image);
    assert_eq!(get_acpi_pm_timer(&mem, RSDP), Some(AcpiPmTimer::new(0x608, false)));
}

#[test]
fn pm_timer_needs_a_fadt() {
    let mut image = firmware(2, &[]);
    put(&mut image, FADT, b"FACS");
    let mem = PhysMemory::new(BASE, &image);
    assert_eq!(get_acpi_pm_timer(&mem, RSDP), None);
    let image = firmware(2, &[]);
    let cut = PhysMemory::new(BASE, &image[..FADT - BASE + 115]);
    assert_eq!(find_table(&cut, RSDP, FADT_SIGNATURE), Some(FADT));
    assert_eq!(get_acpi_pm_timer(&cut, RSDP), None);
}

#[test]
fn apic_id_list_spans_the_records_of_the_madt() {
    let records = two_records();
    let image = firmware(2, &records);
    let mem = PhysMemory::new(BASE, &image);
    let list = get_apic_id_list(&mem, RSDP).unwrap();
    assert_eq!(list.base_address(), MADT + 44);
    assert_eq!(list.length(), 16);
    assert_eq!(list.pointer(), 0);
}

#[test]
fn apic_id_list_needs_a_madt_of_sound_length() {
    let mut image = firmware(2, &two_records());
    put(&mut image, MADT + 4, &43u32.to_le_bytes());
    assert!(get_apic_id_list(&PhysMemory::new(BASE, &image), RSDP).is_none());
    put(&mut image, MADT + 4, &0x10000u32.to_le_bytes());
    assert!(get_apic_id_list(&PhysMemory::new(BASE, &image), RSDP).is_none());
    put(&mut image, MADT + 4, &44u32.to_le_bytes());
    let mem = PhysMemory::new(BASE, &image);
    let mut list = get_apic_id_list(&mem, RSDP).unwrap();
    assert_eq!(list.length(), 0);
    assert_eq!(list.next(), None);
    put(&mut image, MADT, b"APIX");
    assert!(get_apic_id_list(&PhysMemory::new(BASE, &image), RSDP).is_none());
}

#[test]
fn only_the_enabled_record_of_two_is_yielded() {
    let image = firmware(2, &two_records());
    let mem = PhysMemory::new(BASE, &image);
    let mut list = get_apic_id_list(&mem, RSDP).unwrap();
    assert_eq!(list.collect(), vec![0]);
    let mut list = get_apic_id_list(&mem, RSDP).unwrap();
    assert_eq!(list.next(), Some(0));
    assert_eq!(list.pointer(), 8);
    assert_eq!(list.next(), None);
    assert_eq!(list.pointer(), 16);
    assert_eq!(list.next(), None);
    assert_eq!(list.pointer(), 16);
}

fn mixed_records() -> Vec<u8> {
    let mut records = Vec::new();
    records.extend_from_slice(&local_apic(3, 1));
    records.extend_from_slice(&[1, 12, 0, 0, 0, 0, 0xc0, 0xfe, 0, 0, 0, 0]);
    records.extend_from_slice(&local_apic(4, 0));
    records.extend_from_slice(&local_x2apic(0x12345, 1));
    records.extend_from_slice(&local_x2apic(0x999, 2));
    records.extend_from_slice(&[4, 6, 0xff, 5, 1, 0]);
    records.extend_from_slice(&local_apic(7, 0xffff_ffff));
    records
}

#[test]
fn enabled_records_are_yielded_in_the_order_of_their_offsets() {
    let records = mixed_records();
    let mut list = ApicIdList::new(0x5000, &records);
    assert_eq!(list.base_address(), 0x5000);
    assert_eq!(list.next(), Some(3));
    assert_eq!(list.pointer(), 8);
    assert_eq!(list.next(), Some(0x12345));
    assert_eq!(list.pointer(), 44);
    assert_eq!(list.next(), Some(7));
    assert_eq!(list.pointer(), records.len());
    assert_eq!(list.next(), None);
    assert_eq!(list.pointer(), records.len());
    let mut list = ApicIdList::new(0x5000, &records);
    assert_eq!(list.collect(), vec![3, 0x12345, 7]);
    assert_eq!(list.pointer(), list.length());
}

#[test]
fn copy_of_a_source_restarts_where_it_was_taken() {
    let records = mixed_records();
    let mut list = ApicIdList::new(0x5000, &records);
    assert_eq!(list.next(), Some(3));
    let mut copy = list.clone();
    let mut other = list.snapshot();
    assert_eq!(copy.pointer(), 8);
    assert_eq!(copy.collect(), vec![0x12345, 7]);
    assert_eq!(other.pointer(), 8);
    assert_eq!(other.next(), Some(0x12345));
    assert_eq!(list.next(), Some(0x12345));
    assert_eq!(list.pointer(), other.pointer());
    assert_eq!(list.next(), other.next());
    assert_eq!(list.next(), other.next());
    assert_eq!(list.pointer(), other.pointer());
}

#[test]
fn source_without_records_yields_nothing() {
    let mut list = ApicIdList::const_new();
    assert_eq!(list.base_address(), 0);
    assert_eq!(list.length(), 0);
    assert_eq!(list.pointer(), 0);
    assert_eq!(list.next(), None);
    assert_eq!(list.collect(), Vec::<u32>::new());
}

#[test]
fn record_of_length_zero_ends_the_source() {
    let mut records = local_apic(1, 1);
    records.extend_from_slice(&[5, 0, 0, 0]);
    records.extend_from_slice(&local_apic(2, 1));
    let mut list = ApicIdList::new(0, &records);
    assert_eq!(list.next(), Some(1));
    assert_eq!(list.next(), None);
    assert_eq!(list.pointer(), records.len());
}

#[test]
fn record_without_a_length_byte_ends_the_source() {
    let mut records = local_apic(1, 1);
    records.push(0);
    let mut list = ApicIdList::new(0, &records);
    assert_eq!(list.collect(), vec![1]);
    assert_eq!(list.pointer(), 9);
}

#[test]
fn fields_behind_the_end_of_the_records_are_not_read() {
    // A local APIC record cut off inside its flags, and an x2APIC record
    // cut off inside its flags.
    let full = local_apic(1, 1);
    let mut list = ApicIdList::new(0, &full[..7]);
    assert_eq!(list.next(), None);
    assert_eq!(list.pointer(), 7);
    let full = local_x2apic(0x77, 1);
    let mut list = ApicIdList::new(0, &full[..11]);
    assert_eq!(list.next(), None);
    assert_eq!(list.pointer(), 11);
    let mut list = ApicIdList::new(0, &full[..12]);
    assert_eq!(list.next(), Some(0x77));
    assert_eq!(list.pointer(), 12);
}

#[test]
fn offset_moves_by_the_length_that_the_record_states() {
    // A local APIC record that states 10 bytes, then another.
    let mut records = vec![0u8, 10, 0, 6, 1, 0, 0, 0, 0xee, 0xee];
    records.extend_from_slice(&local_apic(8, 1));
    let mut list = ApicIdList::new(0, &records);
    assert_eq!(list.next(), Some(6));
    assert_eq!(list.pointer(), 10);
    assert_eq!(list.next(), Some(8));
    // A record of one byte's length: the next record starts at its length
    // byte.
    let records = [3u8, 1, 8, 0, 9, 1, 0, 0, 0];
    let mut list = ApicIdList::new(0, &records);
    assert_eq!(list.next(), None);
    assert_eq!(list.pointer(), records.len());
}

#[test]
fn extended_entries_are_read_at_their_full_width() {
    let high: usize = 0x1_0000_0000;
    let mut image = vec![0u8; 0x3000];
    image[15] = 2;
    image[24..32].copy_from_slice(&((high + 0x100) as u64).to_le_bytes());
    image[0x100..0x104].copy_from_slice(b"XSDT");
    image[0x104..0x108].copy_from_slice(&(0x24u32 + 16).to_le_bytes());
    // The first entry shares its low half with the second and leads
    // nowhere; the second names a table above 4 GiB.
    image[0x124..0x12c].copy_from_slice(&0x7_0000_2000u64.to_le_bytes());
    image[0x12c..0x134].copy_from_slice(&0x1_0000_2000u64.to_le_bytes());
    image[0x2000..0x2004].copy_from_slice(b"APIC");
    image[0x2004..0x2008].copy_from_slice(&44u32.to_le_bytes());
    let mem = PhysMemory::new(high, &image);
    assert_eq!(get_entry(&mem, high + 0x100, 0, true), Some(0x7_0000_2000));
    assert_eq!(get_entry(&mem, high + 0x100, 1, true), Some(0x1_0000_2000));
    assert_eq!(find_table(&mem, high, MADT_SIGNATURE), Some(0x1_0000_2000));
    let list = get_apic_id_list(&mem, high).unwrap();
    assert_eq!(list.base_address(), 0x1_0000_2000 + 44);
    // Read as a legacy table, the same bytes give four-byte entries.
    assert_eq!(get_entry(&mem, high + 0x100, 0, false), Some(0x2000));
    assert_eq!(get_entry(&mem, high + 0x100, 1, false), Some(7));
}

#[test]
fn extended_entry_must_lie_in_the_window_as_a_whole() {
    let image = firmware(2, &[]);
    // The window ends inside the second entry of the extended table.
    let cut = PhysMemory::new(BASE, &image[..XSDT - BASE + 0x24 + 12]);
    assert_eq!(get_entry(&cut, XSDT, 0, true), Some(HPET));
    assert_eq!(get_entry(&cut, XSDT, 1, true), None);
    assert_eq!(get_entry(&cut, XSDT, 2, false), Some(MADT));
}
