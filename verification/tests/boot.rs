use smp_boot::acpi_pm_timer::AcpiPmTimer;
use smp_boot::phys_memory::PhysMemory;
use smp_boot::{init, scan_tags, BootTags, InitError, MultibootTagFrameBuffer};

const BASE: usize = 0x10000;
const XSDT: usize = 0x11000;
const MADT: usize = 0x11100;
const FADT: usize = 0x11200;

fn tag(kind: u32, body: &[u8]) -> Vec<u8> {
    let mut bytes = Vec::new();
    bytes.extend_from_slice(&kind.to_le_bytes());
    bytes.extend_from_slice(&(8 + body.len() as u32).to_le_bytes());
    bytes.extend_from_slice(body);
    while bytes.len() % 8 != 0 {
        bytes.push(0);
    }
    bytes
}

fn memory_map_body() -> Vec<u8> {
    let mut body = Vec::new();
    body.extend_from_slice(&24u32.to_le_bytes());
    body.extend_from_slice(&0u32.to_le_bytes());
    for (addr, length, kind) in [(0u64, 0x9f000u64, 1u32), (0x100000, 0x700000, 1), (0xfec00000, 0x1000, 2)] {
        body.extend_from_slice(&addr.to_le_bytes());
        body.extend_from_slice(&length.to_le_bytes());
        body.extend_from_slice(&kind.to_le_bytes());
        body.extend_from_slice(&0u32.to_le_bytes());
    }
    body
}

fn sections_body() -> Vec<u8> {
    let mut body = Vec::new();
    for value in [2u32, 64, 1] {
        body.extend_from_slice(&value.to_le_bytes());
    }
    for (flags, addr, size) in [(0u64, 0u64, 0u64), (2, 0x101000, 0x5000)] {
        let mut descriptor = vec![0u8; 64];
        descriptor[8..16].copy_from_slice(&flags.to_le_bytes());
        descriptor[16..24].copy_from_slice(&addr.to_le_bytes());
        descriptor[32..40].copy_from_slice(&size.to_le_bytes());
        body.extend_from_slice(&descriptor);
    }
    body
}

fn root_pointer(revision: u8) -> Vec<u8> {
    let mut rsdp = vec![0u8; 36];
    rsdp[..8].copy_from_slice(b"RSD PTR ");
    rsdp[15] = revision;
    rsdp[16..20].copy_from_slice(&(XSDT as u32).to_le_bytes());
    rsdp[24..32].copy_from_slice(&(XSDT as u64).to_le_bytes());
    rsdp
}

fn module_body(start: u32, end: u32, name: &[u8]) -> Vec<u8> {
    let mut body = Vec::new();
    body.extend_from_slice(&start.to_le_bytes());
    body.extend_from_slice(&end.to_le_bytes());
    body.extend_from_slice(name);
    body.push(0);
    body
}

fn frame_buffer_body() -> Vec<u8> {
    let mut body = Vec::new();
    body.extend_from_slice(&0xfd00_0000u64.to_le_bytes());
    body.extend_from_slice(&4096u32.to_le_bytes());
    body.extend_from_slice(&1024u32.to_le_bytes());
    body.extend_from_slice(&768u32.to_le_bytes());
    body.extend_from_slice(&[32, 1, 0]);
    body
}

/// A window with the boot information at its base and the ACPI tables
/// behind it.
fn machine(tags: &[Vec<u8>]) -> Vec<u8> {
    let mut image = vec![0u8; 8];
    for t in tags {
        image.extend_from_slice(t);
    }
    let total = image.len() as u32;
    image[..4].copy_from_slice(&total.to_le_bytes());
    image.resize(0x2000, 0);
    let put = |image: &mut Vec<u8>, address: usize, bytes: &[u8]| {
        image[address - BASE..address - BASE + bytes.len()].copy_from_slice(bytes);
    };
    put(&mut image, XSDT, b"XSDT");
    put(&mut image, XSDT + 4, &(0x24u32 + 16).to_le_bytes());
    put(&mut image, XSDT + 0x24, &(MADT as u64).to_le_bytes());
    put(&mut image, XSDT + 0x2c, &(FADT as u64).to_le_bytes());
    put(&mut image, MADT, b"APIC");
    put(&mut image, MADT + 4, &(44u32 + 16).to_le_bytes());
    put(&mut image, MADT + 44, &[0, 8, 0, 0, 1, 0, 0, 0, 0, 8, 1, 1, 1, 0, 0, 0]);
    put(&mut image, FADT, b"FACP");
    put(&mut image, FADT + 4, &276u32.to_le_bytes());
    put(&mut image, FADT + 76, &0xb008u32.to_le_bytes());
    put(&mut image, FADT + 112, &0u32.to_le_bytes());
    image
}

fn all_tags() -> Vec<Vec<u8>> {
    vec![
        tag(1, b"quiet\0"),
        tag(3, &module_body(0x200000, 0x203000, b"font.pf2")),
        tag(6, &memory_map_body()),
        tag(8, &frame_buffer_body()),
        tag(9, &sections_body()),
        tag(14, &root_pointer(0)[..20]),
        tag(15, &root_pointer(2)),
        tag(0, &[]),
    ]
}

fn address_of(tags: &[Vec<u8>], index: usize) -> usize {
    BASE + 8 + tags[..index].iter().map(|t| t.len()).sum::<usize>()
}

#[test]
fn scan_notes_the_tags_it_knows() {
    let tags = all_tags();
    let image = machine(&tags);
    let mem = PhysMemory::new(BASE, &image);
    assert_eq!(
        scan_tags(&mem, BASE),
        Some(BootTags {
            elf_info_address: address_of(&tags, 4),
            memory_map_info_address: address_of(&tags, 2),
            frame_buffer_info_address: address_of(&tags, 3),
            font_data_address: 0x200000,
            font_data_size: 0x3000,
            new_rsdp_address: address_of(&tags, 6) + 8,
            old_rsdp_address: address_of(&tags, 5) + 8,
        })
    );
}

#[test]
fn scan_of_nothing_but_the_end_tag_finds_nothing() {
    let image = machine(&[tag(0, &[])]);
    let mem = PhysMemory::new(BASE, &image);
    let found = scan_tags(&mem, BASE).unwrap();
    assert_eq!(
        found,
        BootTags {
            elf_info_address: 0,
            memory_map_info_address: 0,
            frame_buffer_info_address: 0,
            font_data_address: 0,
            font_data_size: 0,
            new_rsdp_address: 0,
            old_rsdp_address: 0,
        }
    );
    assert_eq!(found.rsdp_address(), None);
}

#[test]
fn scan_takes_only_the_module_named_as_the_font() {
    for body in [
        module_body(0x200000, 0x203000, b"font.pf3"),
        module_body(0x200000, 0x203000, b"font.pf"),
        module_body(0x200000, 0x203000, b"font.pf2 "),
        module_body(0x203000, 0x200000, b"font.pf2"),
    ] {
        let image = machine(&[tag(3, &body), tag(0, &[])]);
        let found = scan_tags(&PhysMemory::new(BASE, &image), BASE).unwrap();
        assert_eq!((found.font_data_address, found.font_data_size), (0, 0));
    }
    let image = machine(&[tag(3, &module_body(0x200000, 0x200000, b"font.pf2")), tag(0, &[])]);
    let found = scan_tags(&PhysMemory::new(BASE, &image), BASE).unwrap();
    assert_eq!((found.font_data_address, found.font_data_size), (0x200000, 0));
}

#[test]
fn scan_keeps_the_last_tag_of_a_type() {
    let tags = vec![tag(6, &memory_map_body()), tag(6, &memory_map_body()), tag(0, &[])];
    let image = machine(&tags);
    let found = scan_tags(&PhysMemory::new(BASE, &image), BASE).unwrap();
    assert_eq!(found.memory_map_info_address, address_of(&tags, 1));
}

#[test]
fn scan_fails_without_an_end_tag() {
    let tags = vec![tag(6, &memory_map_body())];
    let image = machine(&tags);
    let end = 8 + tags[0].len();
    // The window ends right behind the only tag, and inside the next header.
    assert_eq!(scan_tags(&PhysMemory::new(BASE, &image[..end]), BASE), None);
    assert_eq!(scan_tags(&PhysMemory::new(BASE, &image[..end + 7]), BASE), None);
    // With the zeros that follow in the window, an end tag is read.
    assert!(scan_tags(&PhysMemory::new(BASE, &image[..end + 8]), BASE).is_some());
    assert_eq!(scan_tags(&PhysMemory::new(BASE, &image), BASE + 0x4000), None);
    assert_eq!(scan_tags(&PhysMemory::new(BASE, &image[..12]), BASE), None);
}

#[test]
fn scan_fails_at_a_tag_of_size_zero() {
    let mut stuck = tag(5, &[]);
    stuck[4..8].copy_from_slice(&0u32.to_le_bytes());
    let image = machine(&[stuck, tag(0, &[])]);
    assert_eq!(scan_tags(&PhysMemory::new(BASE, &image), BASE), None);
}

#[test]
fn scan_steps_from_tag_to_tag_in_multiples_of_8() {
    // A size of 9 leads 16 bytes on; a size of 1 leads 8 bytes on.
    let mut odd = tag(5, &[1, 0, 0, 0, 0, 0, 0, 0]);
    odd[4..8].copy_from_slice(&9u32.to_le_bytes());
    let mut tiny = tag(5, &[]);
    tiny[4..8].copy_from_slice(&1u32.to_le_bytes());
    let tags = vec![odd, tiny, tag(9, &sections_body()), tag(0, &[])];
    let image = machine(&tags);
    let found = scan_tags(&PhysMemory::new(BASE, &image), BASE).unwrap();
    assert_eq!(found.elf_info_address, BASE + 8 + 16 + 8);
}

#[test]
fn root_pointer_of_acpi_2_is_preferred() {
    let both = BootTags {
        elf_info_address: 0,
        memory_map_info_address: 0,
        frame_buffer_info_address: 0,
        font_data_address: 0,
        font_data_size: 0,
        new_rsdp_address: 0x2000,
        old_rsdp_address: 0x1000,
    };
    assert_eq!(both.rsdp_address(), Some(0x2000));
    assert_eq!(BootTags { new_rsdp_address: 0, ..both }.rsdp_address(), Some(0x1000));
    assert_eq!(BootTags { new_rsdp_address: 0, old_rsdp_address: 0, ..both }.rsdp_address(), None);
}

#[test]
fn frame_buffer_tag_is_read_field_by_field() {
    let bytes = tag(8, &frame_buffer_body());
    let mem = PhysMemory::new(0x300, &bytes);
    assert_eq!(
        MultibootTagFrameBuffer::read(&mem, 0x300),
        Some(MultibootTagFrameBuffer {
            s_type: 8,
            size: 31,
            frame_buffer_addr: 0xfd00_0000,
            frame_buffer_pitch: 4096,
            frame_buffer_width: 1024,
            frame_buffer_height: 768,
            frame_buffer_bpp: 32,
            frame_buffer_type: 1,
            reserved: 0,
        })
    );
    assert_eq!(MultibootTagFrameBuffer::read(&PhysMemory::new(0x300, &bytes[..30]), 0x300), None);
    assert_eq!(MultibootTagFrameBuffer::read(&mem, 0x308), None);
}

#[test]
fn init_builds_what_the_bring_up_needs() {
    let tags = all_tags();
    let image = machine(&tags);
    let mem = PhysMemory::new(BASE, &image);
    let mut context = init(&mem, BASE).ok().unwrap();
    assert_eq!(context.rsdp_address, address_of(&tags, 6) + 8);
    assert_eq!(context.tags.font_data_address, 0x200000);
    assert_eq!(context.frame_buffer.unwrap().frame_buffer_width, 1024);
    // The font module lies outside the window: the screen stays unused.
    assert_eq!(context.print_manager.graphic_manager.frame_buffer_address, 0);
    assert_eq!(context.print_manager.serial_port_manager.port, 0x3f8);
    assert_eq!(context.acpi_pm_timer, AcpiPmTimer::new(0xb008, false));
    assert_eq!(context.apic_id_list.base_address(), MADT + 44);
    assert_eq!(context.apic_id_list.collect(), vec![0, 1]);
    // The first record is whole; the kernel's section was cut out of the
    // second.
    assert_eq!(context.memory_manager.allocate(0x1000), Some(0));
    assert_eq!(context.memory_manager.allocate(0x6fa000), Some(0x106000));
}

#[test]
fn init_falls_back_to_the_root_pointer_of_acpi_1() {
    let mut tags = all_tags();
    tags.remove(6);
    let image = machine(&tags);
    let mem = PhysMemory::new(BASE, &image);
    // The old root pointer names the same table as a legacy one: read four
    // bytes at a time, its entries are the two addresses and their high
    // halves, which lead nowhere.
    let mut context = init(&mem, BASE).ok().unwrap();
    assert_eq!(context.rsdp_address, address_of(&tags, 5) + 8);
    assert_eq!(context.apic_id_list.collect(), vec![0, 1]);
    assert_eq!(context.acpi_pm_timer, AcpiPmTimer::new(0xb008, false));
}

#[test]
fn init_refuses_a_misaligned_address() {
    let image = machine(&all_tags());
    let mem = PhysMemory::new(BASE, &image);
    for off in 1..8 {
        assert_eq!(init(&mem, BASE + off).err(), Some(InitError::MisalignedBootInfo));
    }
}

#[test]
fn init_names_what_is_missing() {
    let without = |index: usize| {
        let mut tags = all_tags();
        tags.remove(index);
        machine(&tags)
    };
    let image = without(4);
    assert_eq!(init(&PhysMemory::new(BASE, &image), BASE).err(), Some(InitError::NoElfSections));
    let image = without(2);
    assert_eq!(init(&PhysMemory::new(BASE, &image), BASE).err(), Some(InitError::NoMemoryMap));
    let mut tags = all_tags();
    tags.remove(6);
    tags.remove(5);
    let image = machine(&tags);
    assert_eq!(init(&PhysMemory::new(BASE, &image), BASE).err(), Some(InitError::AcpiNotSupported));
    let mut image = machine(&all_tags());
    image[MADT - BASE] = b'X';
    assert_eq!(init(&PhysMemory::new(BASE, &image), BASE).err(), Some(InitError::NoApicIdList));
    let mut image = machine(&all_tags());
    image[FADT - BASE] = b'X';
    assert_eq!(init(&PhysMemory::new(BASE, &image), BASE).err(), Some(InitError::NoPmTimer));
    let image = machine(&all_tags());
    assert_eq!(
        init(&PhysMemory::new(BASE, &image[..0x100]), BASE).err(),
        Some(InitError::MalformedBootInfo)
    );
}

#[test]
fn init_needs_tags_that_can_be_read() {
    let mut tags = all_tags();
    // The section list counts more descriptors than the window holds.
    tags[4][8..12].copy_from_slice(&0x1000u32.to_le_bytes());
    let image = machine(&tags);
    assert_eq!(init(&PhysMemory::new(BASE, &image), BASE).err(), Some(InitError::NoElfSections));
    let mut tags = all_tags();
    // The memory map states a record size of zero.
    tags[2][8..12].copy_from_slice(&0u32.to_le_bytes());
    let image = machine(&tags);
    assert_eq!(init(&PhysMemory::new(BASE, &image), BASE).err(), Some(InitError::NoMemoryMap));
}

/// A small font file: every character from space to tilde has a glyph of
/// one pixel.
fn tiny_font() -> Vec<u8> {
    let mut file = b"FILE\x00\x00\x00\x04PFF2".to_vec();
    file.extend_from_slice(b"MAXH\x00\x00\x00\x02\x00\x01");
    file.extend_from_slice(b"ASCE\x00\x00\x00\x02\x00\x01");
    let data_start = file.len() + 8 + 9 * 95 + 8;
    file.extend_from_slice(b"CHIX");
    file.extend_from_slice(&(9u32 * 95).to_be_bytes());
    for k in 0..95u32 {
        file.extend_from_slice(&(0x20 + k).to_be_bytes());
        file.push(0);
        file.extend_from_slice(&(data_start as u32 + 11 * k).to_be_bytes());
    }
    file.extend_from_slice(b"DATA\xff\xff\xff\xff");
    for _ in 0..95 {
        file.extend_from_slice(&[0, 1, 0, 1, 0, 0, 0, 0, 0, 1, 0x80]);
    }
    file
}

#[test]
fn init_sets_up_the_screen_where_the_font_can_be_read() {
    let font = tiny_font();
    let start = 0x11400u32;
    let mut tags = all_tags();
    tags[1] = tag(3, &module_body(start, start + font.len() as u32, b"font.pf2"));
    let mut image = machine(&tags);
    image[0x1400..0x1400 + font.len()].copy_from_slice(&font);
    let mem = PhysMemory::new(BASE, &image);
    let mut context = init(&mem, BASE).ok().unwrap();
    let screen = &context.print_manager.graphic_manager;
    assert_eq!(screen.frame_buffer_address, 0xfd00_0000);
    assert_eq!((screen.frame_buffer_width, screen.frame_buffer_height), (1024, 768));
    assert_eq!(screen.frame_buffer_depth_byte, 4);
    assert_eq!(screen.max_font_height, 1);
    assert_eq!(screen.ascii_font_cache[0].bitmap_address, 0x11400 + 12 + 10 + 10 + 8 + 855 + 8 + 10);
    let (writes, drawn) = context.print_manager.write_str("ok");
    assert_eq!(writes.len(), 2);
    assert_eq!(drawn.unwrap().len(), 2);
}
