//! Early bring-up core of a small multiprocessor kernel: ACPI table walking,
//! a bump allocator over the firmware memory map, the PM timer's wait
//! arithmetic, local APIC command encoding and the sequencing of the
//! INIT/SIPI/SIPI handshake that wakes the application processors.
//!
//! This file holds the first step of all: the scan of the boot information
//! block for the tags that the rest is built from.

use crate::acpi::{get_acpi_pm_timer, get_apic_id_list, madt_records_of, pm_timer_of, ApicIdList};
use crate::acpi_pm_timer::AcpiPmTimer;
use crate::memory::{
    MapState,
    MemoryManager,
    MultibootTagElfSections,
    MultibootTagMemoryMap,
    MEMORY_MAP_HEADER_SIZE,
};
use crate::phys_memory::PhysMemory;
use crate::print::graphic::GraphicManager;
use crate::print::{PrintManager, COM1};
use vstd::prelude::*;

pub mod acpi;
pub mod acpi_pm_timer;
pub mod ap;
pub mod local_apic;
pub mod memory;
pub mod phys_memory;
pub mod print;

verus! {

/// Type of the tag that ends the boot information.
pub const TAG_TYPE_END: u32 = 0;

/// Type of a tag that describes a loaded module.
pub const TAG_TYPE_MODULE: u32 = 3;

/// Type of the tag that holds the memory map.
pub const TAG_TYPE_MMAP: u32 = 6;

/// Type of the tag that describes the frame buffer.
pub const TAG_TYPE_FRAMEBUFFER: u32 = 8;

/// Type of the tag that holds the section list of the kernel image.
pub const TAG_TYPE_ELF_SECTIONS: u32 = 9;

/// Type of the tag that holds a copy of the ACPI 1.0 root pointer.
pub const TAG_TYPE_ACPI_OLD: u32 = 14;

/// Type of the tag that holds a copy of the ACPI 2.0 root pointer.
pub const TAG_TYPE_ACPI_NEW: u32 = 15;

/// Bytes of a tag's header: its type and its size.
pub const TAG_HEADER_SIZE: usize = 8;

/// Size of a module tag whose name is eight characters long: the four
/// fields of 4 bytes each, the name, and the zero that ends it.
pub const FONT_MODULE_TAG_SIZE: u32 = 25;

/// The name "font.pf2" of the module that holds the font, read as a
/// little-endian value.
pub const FONT_MODULE_NAME: u64 = 0x3266_702e_746e_6f66;

/// Bytes the frame buffer tag is read for.
pub const FRAME_BUFFER_TAG_SIZE: usize = 31;

/// The frame buffer as the boot loader set it up.
#[derive(Clone, Copy, Debug, PartialEq, Eq, Structural)]
pub struct MultibootTagFrameBuffer {
    pub s_type: u32,
    pub size: u32,
    pub frame_buffer_addr: u64,
    pub frame_buffer_pitch: u32,
    pub frame_buffer_width: u32,
    pub frame_buffer_height: u32,
    pub frame_buffer_bpp: u8,
    pub frame_buffer_type: u8,
    pub reserved: u8,
}

/// What the scan of the boot information found. An address of zero stands
/// for a tag that was not there.
#[derive(Clone, Copy, Debug, PartialEq, Eq, Structural)]
pub struct BootTags {
    pub elf_info_address: usize,
    pub memory_map_info_address: usize,
    pub frame_buffer_info_address: usize,
    pub font_data_address: usize,
    pub font_data_size: usize,
    pub new_rsdp_address: usize,
    pub old_rsdp_address: usize,
}

/// Why the initialization failed.
#[derive(Clone, Copy, Debug, PartialEq, Eq, Structural)]
pub enum InitError {
    /// The address of the boot information is not a multiple of 8.
    MisalignedBootInfo,
    /// The tags end without an end tag, or one of them has size zero.
    MalformedBootInfo,
    /// There is no section list, or it cannot be read.
    NoElfSections,
    /// There is no memory map, or it cannot be read.
    NoMemoryMap,
    /// There is no ACPI root pointer.
    AcpiNotSupported,
    /// The MADT was not found.
    NoApicIdList,
    /// The FADT was not found.
    NoPmTimer,
}

/// What the initialization hands to the bring-up.
pub struct BootContext<'a> {
    pub tags: BootTags,
    pub frame_buffer: Option<MultibootTagFrameBuffer>,
    pub print_manager: PrintManager,
    pub memory_manager: MemoryManager,
    pub rsdp_address: usize,
    pub apic_id_list: ApicIdList<'a>,
    pub acpi_pm_timer: AcpiPmTimer,
}

/// The distance from a tag of `size` bytes to the next: tags start at
/// multiples of 8.
pub open spec fn tag_stride(size: int) -> int {
    (size + 7) / 8 * 8
}

/// The module tag at `tag` names the font: its name is "font.pf2" and its
/// end does not lie before its start.
pub open spec fn is_font_module(mem: &PhysMemory, tag: int) -> bool {
    &&& mem.u32_at(tag + 4) == FONT_MODULE_TAG_SIZE
    &&& mem.covers(tag + 8, 16)
    &&& mem.u64_at(tag + 16) == FONT_MODULE_NAME
    &&& mem.u32_at(tag + 8) <= mem.u32_at(tag + 12)
}

impl MultibootTagFrameBuffer {
    /// The frame buffer tag stored at `address`.
    pub open spec fn decoded_at(mem: &PhysMemory, address: int) -> MultibootTagFrameBuffer {
        MultibootTagFrameBuffer {
            s_type: mem.u32_at(address) as u32,
            size: mem.u32_at(address + 4) as u32,
            frame_buffer_addr: mem.u64_at(address + 8) as u64,
            frame_buffer_pitch: mem.u32_at(address + 16) as u32,
            frame_buffer_width: mem.u32_at(address + 20) as u32,
            frame_buffer_height: mem.u32_at(address + 24) as u32,
            frame_buffer_bpp: mem.byte_at(address + 28) as u8,
            frame_buffer_type: mem.byte_at(address + 29) as u8,
            reserved: mem.byte_at(address + 30) as u8,
        }
    }

    /// The frame buffer tag at `address`, where the window holds all of it.
    pub open spec fn at(mem: &PhysMemory, address: int) -> Option<MultibootTagFrameBuffer> {
        if mem.covers(address, FRAME_BUFFER_TAG_SIZE as int) {
            Some(Self::decoded_at(mem, address))
        } else {
            None
        }
    }

    /// Reads the frame buffer tag at `address`.
    pub fn read(mem: &PhysMemory, address: usize) -> (r: Option<Self>)
        ensures
            r == Self::at(mem, address as int),
    {
        let reserved = mem.read_u8(address, 30)?;
        let s_type = mem.read_u32(address, 0)?;
        let size = mem.read_u32(address, 4)?;
        let frame_buffer_addr = mem.read_u64(address, 8)?;
        let frame_buffer_pitch = mem.read_u32(address, 16)?;
        let frame_buffer_width = mem.read_u32(address, 20)?;
        let frame_buffer_height = mem.read_u32(address, 24)?;
        let frame_buffer_bpp = mem.read_u8(address, 28)?;
        let frame_buffer_type = mem.read_u8(address, 29)?;
        Some(
            MultibootTagFrameBuffer {
                s_type,
                size,
                frame_buffer_addr,
                frame_buffer_pitch,
                frame_buffer_width,
                frame_buffer_height,
                frame_buffer_bpp,
                frame_buffer_type,
                reserved,
            },
        )
    }
}

impl BootTags {
    /// Nothing found yet.
    pub open spec fn none() -> BootTags {
        BootTags {
            elf_info_address: 0,
            memory_map_info_address: 0,
            frame_buffer_info_address: 0,
            font_data_address: 0,
            font_data_size: 0,
            new_rsdp_address: 0,
            old_rsdp_address: 0,
        }
    }

    /// What is known after the tag at `tag` was looked at: a tag of a known
    /// type is noted by its address, the root pointers by the address of
    /// the copy that follows the tag's header, the font module by where it
    /// was loaded. A later tag of a type replaces an earlier one.
    pub open spec fn with_tag(self, mem: &PhysMemory, tag: int) -> BootTags {
        let kind = mem.u32_at(tag);
        if kind == TAG_TYPE_MMAP {
            BootTags { memory_map_info_address: tag as usize, ..self }
        } else if kind == TAG_TYPE_MODULE {
            if is_font_module(mem, tag) {
                BootTags {
                    font_data_address: mem.u32_at(tag + 8) as usize,
                    font_data_size: (mem.u32_at(tag + 12) - mem.u32_at(tag + 8)) as usize,
                    ..self
                }
            } else {
                self
            }
        } else if kind == TAG_TYPE_FRAMEBUFFER {
            BootTags { frame_buffer_info_address: tag as usize, ..self }
        } else if kind == TAG_TYPE_ELF_SECTIONS {
            BootTags { elf_info_address: tag as usize, ..self }
        } else if kind == TAG_TYPE_ACPI_NEW {
            BootTags { new_rsdp_address: (tag + TAG_HEADER_SIZE) as usize, ..self }
        } else if kind == TAG_TYPE_ACPI_OLD {
            BootTags { old_rsdp_address: (tag + TAG_HEADER_SIZE) as usize, ..self }
        } else {
            self
        }
    }

    /// The root pointer to start from: the ACPI 2.0 copy where there is
    /// one, else the ACPI 1.0 copy, else none.
    pub open spec fn rsdp(self) -> Option<usize> {
        if self.new_rsdp_address != 0 {
            Some(self.new_rsdp_address)
        } else if self.old_rsdp_address != 0 {
            Some(self.old_rsdp_address)
        } else {
            None
        }
    }

    /// Exec form of [`Self::rsdp`].
    pub fn rsdp_address(&self) -> (r: Option<usize>)
        ensures
            r == self.rsdp(),
    {
        if self.new_rsdp_address != 0 {
            Some(self.new_rsdp_address)
        } else if self.old_rsdp_address != 0 {
            Some(self.old_rsdp_address)
        } else {
            None
        }
    }
}

/// What a scan of the tags from `tag` on finds, given what was `found`
/// before. The scan ends at the end tag. It fails where a tag's header
/// leaves the window, and at a tag of size zero, which leads nowhere.
pub open spec fn tags_from(mem: &PhysMemory, tag: int, found: BootTags) -> Option<BootTags>
    decreases mem.base() + mem.bytes().len() - tag,
{
    if !mem.covers(tag, TAG_HEADER_SIZE as int) {
        None
    } else if mem.u32_at(tag) == TAG_TYPE_END {
        Some(found)
    } else if mem.u32_at(tag + 4) == 0 {
        None
    } else {
        let next = tag + tag_stride(mem.u32_at(tag + 4));
        if tag < next && mem.covers(next, TAG_HEADER_SIZE as int) {
            tags_from(mem, next, found.with_tag(mem, tag))
        } else {
            None
        }
    }
}

/// The tags of the boot information at `address`; the first tag follows
/// the block's header of 8 bytes.
pub open spec fn boot_tags_of(mem: &PhysMemory, address: int) -> Option<BootTags> {
    tags_from(mem, address + 8, BootTags::none())
}

/// Looks at the tag at `tag`, whose header was read as `kind` and `size`.
fn note_tag(mem: &PhysMemory, tag: usize, kind: u32, size: u32, found: BootTags) -> (r: BootTags)
    requires
        mem.covers(tag as int, TAG_HEADER_SIZE as int),
        tag + TAG_HEADER_SIZE <= usize::MAX,
        kind == mem.u32_at(tag as int),
        size == mem.u32_at(tag + 4),
    ensures
        r == found.with_tag(mem, tag as int),
{
    let mut r = found;
    if kind == TAG_TYPE_MMAP {
        r.memory_map_info_address = tag;
    } else if kind == TAG_TYPE_MODULE {
        if size == FONT_MODULE_TAG_SIZE {
            let name = mem.read_u64(tag, 16);
            let start = mem.read_u32(tag, 8);
            let end = mem.read_u32(tag, 12);
            if name.is_some() && start.is_some() && end.is_some() {
                if name.unwrap() == FONT_MODULE_NAME && start.unwrap() <= end.unwrap() {
                    r.font_data_address = start.unwrap() as usize;
                    r.font_data_size = (end.unwrap() - start.unwrap()) as usize;
                }
            }
        }
    } else if kind == TAG_TYPE_FRAMEBUFFER {
        r.frame_buffer_info_address = tag;
    } else if kind == TAG_TYPE_ELF_SECTIONS {
        r.elf_info_address = tag;
    } else if kind == TAG_TYPE_ACPI_NEW {
        r.new_rsdp_address = tag + TAG_HEADER_SIZE;
    } else if kind == TAG_TYPE_ACPI_OLD {
        r.old_rsdp_address = tag + TAG_HEADER_SIZE;
    }
    r
}

/// Scans the tags of the boot information at `multiboot_info_address`.
pub fn scan_tags(mem: &PhysMemory, multiboot_info_address: usize) -> (r: Option<BootTags>)
    ensures
        r == boot_tags_of(mem, multiboot_info_address as int),
{
    let mut found = BootTags {
        elf_info_address: 0,
        memory_map_info_address: 0,
        frame_buffer_info_address: 0,
        font_data_address: 0,
        font_data_size: 0,
        new_rsdp_address: 0,
        old_rsdp_address: 0,
    };
    let window: usize = mem.len();
    let base: usize = mem.base_address();
    let first_size = mem.read_u32(multiboot_info_address, 12);
    let first_kind = mem.read_u32(multiboot_info_address, 8);
    if first_size.is_none() || first_kind.is_none() {
        return None;
    }
    let mut tag: usize = multiboot_info_address + 8;
    loop
        invariant
            window == mem.bytes().len(),
            base == mem.base(),
            base + window <= usize::MAX,
            mem.covers(tag as int, TAG_HEADER_SIZE as int),
            boot_tags_of(mem, multiboot_info_address as int) == tags_from(mem, tag as int, found),
        decreases base + window - tag,
    {
        proof {
            mem.lemma_value_bounds(tag + 4);
        }
        let kind = mem.read_u32(tag, 0).unwrap();
        let size = mem.read_u32(tag, 4).unwrap();
        if kind == TAG_TYPE_END {
            return Some(found);
        }
        if size == 0 {
            return None;
        }
        found = note_tag(mem, tag, kind, size, found);
        let stride: u64 = (size as u64 + 7) / 8 * 8;
        let end: usize = base + window;
        if stride > (end - tag) as u64 {
            return None;
        }
        let next: usize = tag + stride as usize;
        if end - next < TAG_HEADER_SIZE {
            return None;
        }
        tag = next;
    }
}

/// The state of the memory manager that is built from the tags: the
/// records of the memory map, less the sections of the kernel image.
pub open spec fn boot_map_state(mem: &PhysMemory, tags: BootTags) -> MapState {
    (MapState {
        address: tags.memory_map_info_address + MEMORY_MAP_HEADER_SIZE,
        entries: MultibootTagMemoryMap::entries_at(mem, tags.memory_map_info_address as int),
    }).after_sections(
        MultibootTagElfSections::sections_at(mem, tags.elf_info_address as int),
        mem.u32_at(tags.elf_info_address + 8),
    )
}

/// Why the initialization from the boot information at `address` fails, if
/// it does. The checks are made in this order.
pub open spec fn init_failure(mem: &PhysMemory, address: int) -> Option<InitError> {
    if address % 8 != 0 {
        Some(InitError::MisalignedBootInfo)
    } else {
        match boot_tags_of(mem, address) {
            None => Some(InitError::MalformedBootInfo),
            Some(tags) => if tags.elf_info_address == 0 || !MultibootTagElfSections::readable_at(
                mem,
                tags.elf_info_address as int,
            ) {
                Some(InitError::NoElfSections)
            } else if tags.memory_map_info_address == 0 || !MultibootTagMemoryMap::readable_at(
                mem,
                tags.memory_map_info_address as int,
            ) {
                Some(InitError::NoMemoryMap)
            } else {
                match tags.rsdp() {
                    None => Some(InitError::AcpiNotSupported),
                    Some(rsdp) => if madt_records_of(mem, rsdp as int).is_none() {
                        Some(InitError::NoApicIdList)
                    } else if pm_timer_of(mem, rsdp as int).is_none() {
                        Some(InitError::NoPmTimer)
                    } else {
                        None
                    },
                }
            },
        }
    }
}

/// The frame buffer that the tags name, where its tag can be read.
pub open spec fn frame_buffer_of(mem: &PhysMemory, tags: BootTags) -> Option<
    MultibootTagFrameBuffer,
> {
    if tags.frame_buffer_info_address != 0 {
        MultibootTagFrameBuffer::at(mem, tags.frame_buffer_info_address as int)
    } else {
        None
    }
}

/// The text output is set up as the tags allow: through the first serial
/// port, and on the screen where there is a frame buffer tag and the font
/// module can be read as a font file.
pub open spec fn output_set_up(mem: &PhysMemory, tags: BootTags, manager: PrintManager) -> bool {
    &&& manager.serial_port_manager.port == COM1
    &&& match frame_buffer_of(mem, tags) {
        Some(tag) => if tag.frame_buffer_addr <= usize::MAX {
            exists|fresh: GraphicManager| #[trigger]
                fresh.is_fresh() && GraphicManager::init_result(
                    fresh,
                    manager.graphic_manager,
                    mem,
                    tag.frame_buffer_addr as usize,
                    tag.frame_buffer_width as usize,
                    tag.frame_buffer_height as usize,
                    tag.frame_buffer_bpp,
                    tags.font_data_address,
                    tags.font_data_size,
                )
        } else {
            manager.graphic_manager.is_fresh()
        },
        None => manager.graphic_manager.is_fresh(),
    }
}

/// Builds, from the boot information at `multiboot_info_address`, what the
/// bring-up needs: the memory manager, the source of APIC ids and the PM
/// timer. Whatever is missing is an error; none of them can be done
/// without.
pub fn init<'a>(mem: &PhysMemory<'a>, multiboot_info_address: usize) -> (r: Result<
    BootContext<'a>,
    InitError,
>)
    ensures
        match r {
            Err(error) => init_failure(mem, multiboot_info_address as int) == Some(error),
            Ok(context) => {
                &&& init_failure(mem, multiboot_info_address as int).is_none()
                &&& Some(context.tags) == boot_tags_of(mem, multiboot_info_address as int)
                &&& context.frame_buffer == frame_buffer_of(mem, context.tags)
                &&& output_set_up(mem, context.tags, context.print_manager)
                &&& context.memory_manager@ == boot_map_state(mem, context.tags)
                &&& Some(context.rsdp_address) == context.tags.rsdp()
                &&& Some((context.apic_id_list@.base_address, context.apic_id_list@.records))
                    == madt_records_of(mem, context.rsdp_address as int)
                &&& context.apic_id_list@.pointer == 0
                &&& Some(context.acpi_pm_timer) == pm_timer_of(mem, context.rsdp_address as int)
            },
        },
{
    if multiboot_info_address % 8 != 0 {
        return Err(InitError::MisalignedBootInfo);
    }
    let tags = match scan_tags(mem, multiboot_info_address) {
        Some(tags) => tags,
        None => {
            return Err(InitError::MalformedBootInfo);
        },
    };
    let frame_buffer = if tags.frame_buffer_info_address != 0 {
        MultibootTagFrameBuffer::read(mem, tags.frame_buffer_info_address)
    } else {
        None
    };
    let mut print_manager = PrintManager::new();
    match frame_buffer {
        Some(tag) => {
            if tag.frame_buffer_addr <= usize::MAX as u64 {
                let ghost fresh = print_manager.graphic_manager;
                print_manager.init(
                    mem,
                    tag.frame_buffer_addr as usize,
                    tag.frame_buffer_width as usize,
                    tag.frame_buffer_height as usize,
                    tag.frame_buffer_bpp,
                    tags.font_data_address,
                    tags.font_data_size,
                );
                assert(fresh.is_fresh());
            }
        },
        None => {},
    }
    if tags.elf_info_address == 0 {
        return Err(InitError::NoElfSections);
    }
    let elf_info = match MultibootTagElfSections::read(mem, tags.elf_info_address) {
        Some(elf_info) => elf_info,
        None => {
            return Err(InitError::NoElfSections);
        },
    };
    if tags.memory_map_info_address == 0 {
        return Err(InitError::NoMemoryMap);
    }
    let map = match MultibootTagMemoryMap::read(mem, tags.memory_map_info_address) {
        Some(map) => map,
        None => {
            return Err(InitError::NoMemoryMap);
        },
    };
    let memory_manager = MemoryManager::new(&map, &elf_info);
    let rsdp_address = match tags.rsdp_address() {
        Some(rsdp_address) => rsdp_address,
        None => {
            return Err(InitError::AcpiNotSupported);
        },
    };
    let apic_id_list = match get_apic_id_list(mem, rsdp_address) {
        Some(apic_id_list) => apic_id_list,
        None => {
            return Err(InitError::NoApicIdList);
        },
    };
    let acpi_pm_timer = match get_acpi_pm_timer(mem, rsdp_address) {
        Some(acpi_pm_timer) => acpi_pm_timer,
        None => {
            return Err(InitError::NoPmTimer);
        },
    };
    Ok(
        BootContext {
            tags,
            frame_buffer,
            print_manager,
            memory_manager,
            rsdp_address,
            apic_id_list,
            acpi_pm_timer,
        },
    )
}

} // verus!
