//! Text on the frame buffer.
//!
//! The glyphs come from a PFF2 font file in memory, of which the characters
//! from space to tilde are kept. Decided here: what the font file says,
//! where each glyph of a string goes, when the screen scrolls, and which
//! value a pixel gets. Writing the pixels is the caller's part.

use crate::phys_memory::PhysMemory;
use vstd::arithmetic::mul::lemma_mul_inequality;
use vstd::prelude::*;
use vstd::string::StringSliceAdditionalSpecFns;

verus! {

/// Colour of a glyph's set pixels.
pub const FRONT_COLOR: u32 = 0x55ffff;

/// Colour of a glyph's unset pixels.
pub const BACK_COLOR: u32 = 0;

/// First character that has a glyph: the space.
pub const FIRST_CACHED_CHAR: u8 = 0x20;

/// Number of characters that have a glyph: space to tilde.
pub const CACHED_CHARS: usize = 95;

/// Bytes a font file starts with: "FILE", the length 4, and "PFF2".
pub const FONT_MAGIC_SIZE: usize = 12;

/// The first eight of those bytes, read as a little-endian value.
pub const FONT_MAGIC_LOW: u64 = 0x0400_0000_454c_4946;

/// The last four of those bytes, read as a little-endian value.
pub const FONT_MAGIC_HIGH: u32 = 0x3246_4650;

/// Bytes of a section's header: its name and its length.
pub const SECTION_HEADER_SIZE: usize = 8;

/// Bytes of one entry of the character index: the character's code, a
/// flag byte, and the offset of its glyph in the file.
pub const CHAR_INDEX_ENTRY_SIZE: usize = 9;

/// Bytes of a glyph's header; its bitmap follows.
pub const GLYPH_HEADER_SIZE: usize = 10;

/// Section names, each read as a little-endian value.
pub const SECTION_NAME: u32 = 0x454d_414e;

pub const SECTION_FAMI: u32 = 0x494d_4146;

pub const SECTION_WEIG: u32 = 0x4749_4557;

pub const SECTION_SLAN: u32 = 0x4e41_4c53;

pub const SECTION_PTSZ: u32 = 0x5a53_5450;

pub const SECTION_MAXW: u32 = 0x5758_414d;

pub const SECTION_DESC: u32 = 0x4353_4544;

pub const SECTION_MAXH: u32 = 0x4858_414d;

pub const SECTION_ASCE: u32 = 0x4543_5341;

pub const SECTION_CHIX: u32 = 0x5849_4843;

pub const SECTION_DATA: u32 = 0x4154_4144;

/// One glyph: the size of its bitmap, where the bitmap goes relative to the
/// cursor and the base line, how far the cursor moves, and where the bitmap
/// is stored.
#[derive(Copy, Clone, Debug, Eq, PartialEq, Structural)]
pub struct BitmapFontData {
    pub width: u16,
    pub height: u16,
    pub x_offset: i16,
    pub y_offset: i16,
    pub device_width: i16,
    pub bitmap_address: usize,
}

/// What the sections in front of the glyph data say.
#[derive(Copy, Clone, Debug, Eq, PartialEq, Structural)]
pub struct FontSections {
    pub max_font_height: Option<u16>,
    pub ascent: Option<u16>,
    /// Address of the character index; zero where the file has none.
    pub char_index_address: usize,
    pub char_index_size: usize,
}

/// What is to be done on the frame buffer.
#[derive(Copy, Clone, Debug, Eq, PartialEq, Structural)]
pub enum DrawCommand {
    /// Move the screen's content up by `height` lines of pixels and clear
    /// what is left at the bottom.
    Scroll { height: usize },
    /// Draw `glyph` with the top left pixel of its bitmap at `(x, y)`.
    Glyph { glyph: BitmapFontData, x: usize, y: usize },
}

/// The frame buffer, the font and the cursor.
pub struct GraphicManager {
    pub frame_buffer_address: usize,
    pub frame_buffer_width: usize,
    pub frame_buffer_height: usize,
    pub frame_buffer_depth_byte: u8,
    pub max_font_height: u16,
    pub ascent: u16,
    pub cursor_x: usize,
    pub cursor_y: usize,
    pub ascii_font_cache: Vec<BitmapFontData>,
}

/// The 16-bit big-endian value stored at `addr`.
pub open spec fn be_u16_at(mem: &PhysMemory, addr: int) -> int {
    0x100 * mem.byte_at(addr) + mem.byte_at(addr + 1)
}

/// The 32-bit big-endian value stored at `addr`.
pub open spec fn be_u32_at(mem: &PhysMemory, addr: int) -> int {
    0x1_0000 * be_u16_at(mem, addr) + be_u16_at(mem, addr + 2)
}

/// The signed 16-bit big-endian value stored at `addr`.
pub open spec fn be_i16_at(mem: &PhysMemory, addr: int) -> int {
    if be_u16_at(mem, addr) >= 0x8000 {
        be_u16_at(mem, addr) - 0x1_0000
    } else {
        be_u16_at(mem, addr)
    }
}

/// A section with this name is passed over.
pub open spec fn is_skipped_section(name: int) -> bool {
    name == SECTION_NAME || name == SECTION_FAMI || name == SECTION_WEIG || name == SECTION_SLAN
        || name == SECTION_PTSZ || name == SECTION_MAXW || name == SECTION_DESC
}

/// Big-endian values fit their widths.
pub proof fn lemma_be_bounds(mem: &PhysMemory, addr: int)
    ensures
        0 <= be_u16_at(mem, addr) <= u16::MAX,
        0 <= be_u32_at(mem, addr) <= u32::MAX,
        i16::MIN <= be_i16_at(mem, addr) <= i16::MAX,
{
    mem.lemma_value_bounds(addr);
    mem.lemma_value_bounds(addr + 1);
    mem.lemma_value_bounds(addr + 2);
    mem.lemma_value_bounds(addr + 3);
}

/// Where the section behind the one at `pointer` starts: behind its header
/// and its stated length, or at the end of the file where that is nearer.
pub open spec fn next_section(mem: &PhysMemory, font_address: int, font_size: int, pointer: int) -> int {
    let end = pointer + SECTION_HEADER_SIZE + be_u32_at(mem, font_address + pointer + 4);
    if end < font_size {
        end
    } else {
        font_size
    }
}

/// What the sections from offset `pointer` of the file at `font_address`
/// say, given what was `found` before. The sections are read up to the
/// glyph data or the end of the file. A section of an unknown name, or one
/// that leaves the window, makes the file unreadable.
pub open spec fn sections_from(
    mem: &PhysMemory,
    font_address: int,
    font_size: int,
    pointer: int,
    found: FontSections,
) -> Option<FontSections>
    decreases font_size - pointer,
{
    let name = mem.u32_at(font_address + pointer);
    let body = pointer + SECTION_HEADER_SIZE;
    let next = next_section(mem, font_address, font_size, pointer);
    if pointer >= font_size {
        Some(found)
    } else if !mem.covers(font_address + pointer, SECTION_HEADER_SIZE as int) {
        None
    } else if name == SECTION_DATA {
        Some(found)
    } else {
        proof {
            lemma_be_bounds(mem, font_address + pointer + 4);
        }
        if is_skipped_section(name) {
            sections_from(mem, font_address, font_size, next, found)
        } else if name == SECTION_MAXH {
            if mem.covers(font_address + body, 2) {
                sections_from(
                    mem,
                    font_address,
                    font_size,
                    next,
                    FontSections {
                        max_font_height: Some(be_u16_at(mem, font_address + body) as u16),
                        ..found
                    },
                )
            } else {
                None
            }
        } else if name == SECTION_ASCE {
            if mem.covers(font_address + body, 2) {
                sections_from(
                    mem,
                    font_address,
                    font_size,
                    next,
                    FontSections {
                        ascent: Some(be_u16_at(mem, font_address + body) as u16),
                        ..found
                    },
                )
            } else {
                None
            }
        } else if name == SECTION_CHIX {
            sections_from(
                mem,
                font_address,
                font_size,
                next,
                FontSections {
                    char_index_address: (font_address + body) as usize,
                    char_index_size: be_u32_at(mem, font_address + pointer + 4) as usize,
                    ..found
                },
            )
        } else {
            None
        }
    }
}

/// The first entry for the character `code` in the index at `index`, from
/// offset `pos` on. The search ends behind the index's `size` bytes, and
/// where an entry leaves the window.
pub open spec fn first_entry_from(
    mem: &PhysMemory,
    index: int,
    size: int,
    code: int,
    pos: int,
) -> Option<int>
    decreases size - pos,
{
    if pos < 0 || !mem.covers(index + pos, CHAR_INDEX_ENTRY_SIZE as int) {
        None
    } else if be_u32_at(mem, index + pos) == code {
        Some(pos)
    } else if pos + CHAR_INDEX_ENTRY_SIZE >= size {
        None
    } else {
        first_entry_from(mem, index, size, code, pos + CHAR_INDEX_ENTRY_SIZE)
    }
}

/// The entry for the character `code`: the one at offset `hint` where it
/// is that character's, which it is in a file sorted by code, else the
/// first one found from the start of the index.
pub open spec fn entry_for(mem: &PhysMemory, index: int, size: int, code: int, hint: int) -> Option<
    int,
> {
    if 0 <= hint && mem.covers(index + hint, CHAR_INDEX_ENTRY_SIZE as int) && be_u32_at(
        mem,
        index + hint,
    ) == code {
        Some(hint)
    } else {
        first_entry_from(mem, index, size, code, 0)
    }
}

/// The glyph whose header is stored at `addr`.
pub open spec fn glyph_at(mem: &PhysMemory, addr: int) -> Option<BitmapFontData> {
    if mem.covers(addr, GLYPH_HEADER_SIZE as int) {
        Some(
            BitmapFontData {
                width: be_u16_at(mem, addr) as u16,
                height: be_u16_at(mem, addr + 2) as u16,
                x_offset: be_i16_at(mem, addr + 4) as i16,
                y_offset: be_i16_at(mem, addr + 6) as i16,
                device_width: be_i16_at(mem, addr + 8) as i16,
                bitmap_address: (addr + GLYPH_HEADER_SIZE) as usize,
            },
        )
    } else {
        None
    }
}

/// The glyphs of the first `k` characters from the space on, and the
/// offset behind the entry of the last of them. `None` where one of them
/// has no entry or no readable glyph.
pub open spec fn glyphs_after(
    mem: &PhysMemory,
    font_address: int,
    index: int,
    size: int,
    k: int,
) -> Option<(Seq<BitmapFontData>, int)>
    decreases k,
{
    if k <= 0 {
        Some((Seq::empty(), 0))
    } else {
        match glyphs_after(mem, font_address, index, size, k - 1) {
            None => None,
            Some((glyphs, hint)) => match entry_for(
                mem,
                index,
                size,
                FIRST_CACHED_CHAR + k - 1,
                hint,
            ) {
                None => None,
                Some(pos) => match glyph_at(
                    mem,
                    font_address + be_u32_at(mem, index + pos + 5),
                ) {
                    None => None,
                    Some(glyph) => Some((glyphs.push(glyph), pos + CHAR_INDEX_ENTRY_SIZE)),
                },
            },
        }
    }
}

/// Where the glyphs of the first `k` characters cannot all be had, those
/// of more characters cannot either.
pub proof fn lemma_glyphs_missing(
    mem: &PhysMemory,
    font_address: int,
    index: int,
    size: int,
    k: int,
    n: int,
)
    requires
        k <= n,
        glyphs_after(mem, font_address, index, size, k).is_none(),
    ensures
        glyphs_after(mem, font_address, index, size, n).is_none(),
    decreases n - k,
{
    if k < n {
        lemma_glyphs_missing(mem, font_address, index, size, k, n - 1);
    }
}

/// The file at `font_address` starts as a PFF2 font file does.
pub open spec fn is_font_file(mem: &PhysMemory, font_address: int) -> bool {
    &&& font_address != 0
    &&& mem.covers(font_address, FONT_MAGIC_SIZE as int)
    &&& mem.u64_at(font_address) == FONT_MAGIC_LOW
    &&& mem.u32_at(font_address + 8) == FONT_MAGIC_HIGH
}

/// What the font file at `font_address` holds: what its sections say, and
/// the glyphs of the characters from space to tilde. `None` where it is no
/// font file, has no character index, or lacks one of the glyphs.
pub open spec fn font_at(mem: &PhysMemory, font_address: int, font_size: int) -> Option<
    (FontSections, Seq<BitmapFontData>),
> {
    if !is_font_file(mem, font_address) {
        None
    } else {
        match sections_from(
            mem,
            font_address,
            font_size,
            FONT_MAGIC_SIZE as int,
            FontSections {
                max_font_height: None,
                ascent: None,
                char_index_address: 0,
                char_index_size: 0,
            },
        ) {
            None => None,
            Some(sections) => if sections.char_index_address == 0 {
                None
            } else {
                match glyphs_after(
                    mem,
                    font_address,
                    sections.char_index_address as int,
                    sections.char_index_size as int,
                    CACHED_CHARS as int,
                ) {
                    None => None,
                    Some((glyphs, _)) => Some((sections, glyphs)),
                }
            },
        }
    }
}

/// The big-endian value of the two bytes at `at`.
fn be_u16(bytes: &[u8], at: usize) -> (r: u16)
    requires
        at + 2 <= bytes@.len(),
    ensures
        r == 0x100 * bytes@[at as int] + bytes@[at + 1],
{
    0x100 * (bytes[at] as u16) + bytes[at + 1] as u16
}

/// The big-endian value of the four bytes at `at`.
fn be_u32(bytes: &[u8], at: usize) -> (r: u32)
    requires
        at + 4 <= bytes@.len(),
    ensures
        r == 0x1_0000 * (0x100 * bytes@[at as int] + bytes@[at + 1]) + (0x100 * bytes@[at + 2]
            + bytes@[at + 3]),
{
    0x1_0000 * (0x100 * (bytes[at] as u32) + bytes[at + 1] as u32) + (0x100 * (bytes[at + 2] as u32)
        + bytes[at + 3] as u32)
}

/// The signed value that the 16 bits of `value` stand for.
fn signed(value: u16) -> (r: i16)
    ensures
        r == (if value >= 0x8000 {
            value - 0x1_0000
        } else {
            value as int
        }),
{
    if value >= 0x8000 {
        (value as i32 - 0x1_0000) as i16
    } else {
        value as i16
    }
}

/// Reads the sections of the font file in front of its glyph data.
pub fn read_sections(mem: &PhysMemory, font_address: usize, font_size: usize) -> (r: Option<
    FontSections,
>)
    ensures
        r == sections_from(
            mem,
            font_address as int,
            font_size as int,
            FONT_MAGIC_SIZE as int,
            FontSections {
                max_font_height: None,
                ascent: None,
                char_index_address: 0,
                char_index_size: 0,
            },
        ),
{
    let mut found = FontSections {
        max_font_height: None,
        ascent: None,
        char_index_address: 0,
        char_index_size: 0,
    };
    let ghost start = found;
    let mut pointer: usize = FONT_MAGIC_SIZE;
    while pointer < font_size
        invariant
            start == (FontSections {
                max_font_height: None,
                ascent: None,
                char_index_address: 0,
                char_index_size: 0,
            }),
            sections_from(
                mem,
                font_address as int,
                font_size as int,
                FONT_MAGIC_SIZE as int,
                start,
            ) == sections_from(mem, font_address as int, font_size as int, pointer as int, found),
        decreases font_size - pointer,
    {
        let header = match mem.slice(font_address, pointer, SECTION_HEADER_SIZE) {
            Some(header) => header,
            None => {
                return None;
            },
        };
        let name = mem.read_u32(font_address, pointer).unwrap();
        let length = be_u32(header, 4);
        proof {
            lemma_be_bounds(mem, font_address + pointer + 4);
        }
        let body: usize = pointer + SECTION_HEADER_SIZE;
        if name == SECTION_DATA {
            return Some(found);
        } else if name == SECTION_NAME || name == SECTION_FAMI || name == SECTION_WEIG || name
            == SECTION_SLAN || name == SECTION_PTSZ || name == SECTION_MAXW || name
            == SECTION_DESC {
        } else if name == SECTION_MAXH {
            match mem.slice(font_address, body, 2) {
                Some(value) => {
                    found.max_font_height = Some(be_u16(value, 0));
                },
                None => {
                    return None;
                },
            }
        } else if name == SECTION_ASCE {
            match mem.slice(font_address, body, 2) {
                Some(value) => {
                    found.ascent = Some(be_u16(value, 0));
                },
                None => {
                    return None;
                },
            }
        } else if name == SECTION_CHIX {
            found.char_index_address = font_address + body;
            found.char_index_size = length as usize;
        } else {
            return None;
        }
        if body >= font_size || length as usize >= font_size - body {
            pointer = font_size;
        } else {
            pointer = body + length as usize;
        }
    }
    Some(found)
}

/// Finds the entry of the character `code` in the character index.
pub fn find_entry(mem: &PhysMemory, index: usize, size: usize, code: u32, hint: usize) -> (r:
    Option<usize>)
    ensures
        r.is_some() == entry_for(mem, index as int, size as int, code as int, hint as int).is_some(),
        r matches Some(pos) ==> entry_for(mem, index as int, size as int, code as int, hint as int)
            == Some(pos as int) && mem.covers(index + pos, CHAR_INDEX_ENTRY_SIZE as int) && index
            + pos + CHAR_INDEX_ENTRY_SIZE <= usize::MAX,
{
    match mem.slice(index, hint, CHAR_INDEX_ENTRY_SIZE) {
        Some(entry) => {
            if be_u32(entry, 0) == code {
                return Some(hint);
            }
        },
        None => {},
    }
    let mut pos: usize = 0;
    loop
        invariant
            entry_for(mem, index as int, size as int, code as int, hint as int) == first_entry_from(
                mem,
                index as int,
                size as int,
                code as int,
                pos as int,
            ),
        decreases size - pos,
    {
        let entry = match mem.slice(index, pos, CHAR_INDEX_ENTRY_SIZE) {
            Some(entry) => entry,
            None => {
                return None;
            },
        };
        if be_u32(entry, 0) == code {
            return Some(pos);
        }
        if pos + CHAR_INDEX_ENTRY_SIZE >= size {
            return None;
        }
        pos = pos + CHAR_INDEX_ENTRY_SIZE;
    }
}

/// Reads the glyph whose header lies `offset` bytes into the font file.
pub fn read_glyph(mem: &PhysMemory, font_address: usize, offset: u32) -> (r: Option<BitmapFontData>)
    ensures
        r == glyph_at(mem, font_address + offset),
{
    let header = mem.slice(font_address, offset as usize, GLYPH_HEADER_SIZE)?;
    Some(
        BitmapFontData {
            width: be_u16(header, 0),
            height: be_u16(header, 2),
            x_offset: signed(be_u16(header, 4)),
            y_offset: signed(be_u16(header, 6)),
            device_width: signed(be_u16(header, 8)),
            bitmap_address: font_address + offset as usize + GLYPH_HEADER_SIZE,
        },
    )
}

/// Reads the font file at `font_address`: its sections and the glyphs of
/// the characters from space to tilde.
pub fn load_font(mem: &PhysMemory, font_address: usize, font_size: usize) -> (r: Option<
    (FontSections, Vec<BitmapFontData>),
>)
    ensures
        r.is_some() == font_at(mem, font_address as int, font_size as int).is_some(),
        r matches Some((sections, glyphs)) ==> font_at(
            mem,
            font_address as int,
            font_size as int,
        ) == Some((sections, glyphs@)) && glyphs@.len() == CACHED_CHARS,
{
    if font_address == 0 {
        return None;
    }
    let low = mem.read_u64(font_address, 0);
    let high = mem.read_u32(font_address, 8);
    if low != Some(FONT_MAGIC_LOW) || high != Some(FONT_MAGIC_HIGH) {
        return None;
    }
    let sections = read_sections(mem, font_address, font_size)?;
    if sections.char_index_address == 0 {
        return None;
    }
    let index: usize = sections.char_index_address;
    let size: usize = sections.char_index_size;
    let mut glyphs: Vec<BitmapFontData> = Vec::new();
    let mut hint: usize = 0;
    let mut k: usize = 0;
    while k < CACHED_CHARS
        invariant
            k <= CACHED_CHARS,
            glyphs@.len() == k,
            is_font_file(mem, font_address as int),
            sections_from(
                mem,
                font_address as int,
                font_size as int,
                FONT_MAGIC_SIZE as int,
                FontSections {
                    max_font_height: None,
                    ascent: None,
                    char_index_address: 0,
                    char_index_size: 0,
                },
            ) == Some(sections),
            index == sections.char_index_address,
            size == sections.char_index_size,
            index != 0,
            glyphs_after(mem, font_address as int, index as int, size as int, k as int) == Some(
                (glyphs@, hint as int),
            ),
        decreases CACHED_CHARS - k,
    {
        let code: u32 = FIRST_CACHED_CHAR as u32 + k as u32;
        proof {
            if glyphs_after(
                mem,
                font_address as int,
                index as int,
                size as int,
                k + 1,
            ).is_none() {
                lemma_glyphs_missing(
                    mem,
                    font_address as int,
                    index as int,
                    size as int,
                    k + 1,
                    CACHED_CHARS as int,
                );
            }
        }
        let pos = match find_entry(mem, index, size, code, hint) {
            Some(pos) => pos,
            None => {
                return None;
            },
        };
        let entry = mem.slice(index, pos, CHAR_INDEX_ENTRY_SIZE).unwrap();
        let glyph = match read_glyph(mem, font_address, be_u32(entry, 5)) {
            Some(glyph) => glyph,
            None => {
                return None;
            },
        };
        glyphs.push(glyph);
        hint = pos + CHAR_INDEX_ENTRY_SIZE;
        k += 1;
    }
    Some((sections, glyphs))
}

/// The byte that ends a line.
pub const LINE_FEED: u8 = 0x0a;

/// The byte that moves the cursor to the start of the line.
pub const CARRIAGE_RETURN: u8 = 0x0d;

/// The last character that has a glyph: the tilde.
pub const LAST_CACHED_CHAR: u8 = 0x7e;

/// Where a screen's content moves when it scrolls, and what is cleared.
#[derive(Copy, Clone, Debug, Eq, PartialEq, Structural)]
pub struct ScrollPlan {
    pub source: usize,
    pub destination: usize,
    pub move_bytes: usize,
    pub clear_address: usize,
    pub clear_bytes: usize,
}

/// The glyph of a character that has none.
pub open spec fn no_glyph() -> BitmapFontData {
    BitmapFontData {
        width: 0,
        height: 0,
        x_offset: 0,
        y_offset: 0,
        device_width: 0,
        bitmap_address: 0,
    }
}

/// `v`, held inside what a cursor coordinate can be.
pub open spec fn saturate(v: int) -> int {
    if v < 0 {
        0
    } else if v > usize::MAX {
        usize::MAX as int
    } else {
        v
    }
}

/// Bit `index` of a bitmap is set: bits are counted from the highest bit
/// of the first byte on, row after row without gaps.
pub open spec fn bit_lit(bitmap: Seq<u8>, index: int) -> bool {
    bitmap[index / 8] & (0x80u8 >> ((index % 8) as u8)) != 0
}

/// The value a pixel gets: the colour itself where a pixel has four bytes;
/// else the pixel keeps its lowest byte and takes the colour's 24 bits on
/// top.
pub open spec fn pixel_value_of(previous: u32, lit: bool, depth_byte: u8) -> u32 {
    let color = if lit {
        FRONT_COLOR
    } else {
        BACK_COLOR
    };
    if depth_byte == 4 {
        color
    } else {
        (previous & 0x0000_00ff) | (color & 0x00ff_ffff)
    }
}

/// Whether bit `index` of `bitmap` is set, or `None` behind its end.
pub fn glyph_bit(bitmap: &[u8], index: usize) -> (r: Option<bool>)
    ensures
        r == (if index / 8 < bitmap@.len() {
            Some(bit_lit(bitmap@, index as int))
        } else {
            None
        }),
{
    if index / 8 < bitmap.len() {
        let shift: u8 = (index % 8) as u8;
        Some(bitmap[index / 8] & (0x80u8 >> shift) != 0)
    } else {
        None
    }
}

/// The value to store for a pixel that held `previous`.
pub fn pixel_value(previous: u32, lit: bool, depth_byte: u8) -> (r: u32)
    ensures
        r == pixel_value_of(previous, lit, depth_byte),
{
    let color: u32 = if lit {
        FRONT_COLOR
    } else {
        BACK_COLOR
    };
    if depth_byte == 4 {
        color
    } else {
        (previous & 0x0000_00ff) | (color & 0x00ff_ffff)
    }
}

impl GraphicManager {
    /// The glyph of the byte `c`, where it is a character from space to
    /// tilde and the font has been read.
    pub open spec fn glyph_of(&self, c: u8) -> Option<BitmapFontData> {
        if FIRST_CACHED_CHAR <= c <= LAST_CACHED_CHAR && c - FIRST_CACHED_CHAR
            < self.ascii_font_cache@.len() {
            Some(self.ascii_font_cache@[c - FIRST_CACHED_CHAR])
        } else {
            None
        }
    }

    /// How far the screen scrolls before `glyph` is drawn with the cursor
    /// in line `y`: not at all where the glyph's height fits below the
    /// cursor, else so far that a line of the font's height is free, but
    /// never further than the cursor can follow.
    pub open spec fn scroll_for(&self, y: int, glyph: BitmapFontData) -> int {
        if self.frame_buffer_height <= y + glyph.height {
            let wanted = self.max_font_height + y - self.frame_buffer_height;
            if wanted < 0 {
                0
            } else if wanted > y {
                y
            } else {
                wanted
            }
        } else {
            0
        }
    }

    /// The bitmap of `glyph` lies inside the screen when its top left pixel
    /// is put at `(x, y)`.
    pub open spec fn on_screen(&self, glyph: BitmapFontData, x: int, y: int) -> bool {
        0 <= x && x + glyph.width <= self.frame_buffer_width && 0 <= y && y + glyph.height
            <= self.frame_buffer_height
    }

    /// What one byte of text does with the cursor at `(x, y)`: where the
    /// cursor goes, and what is to be drawn.
    ///
    /// A line feed moves the cursor to the start of the next line, a
    /// carriage return to the start of this one. A character with a glyph
    /// first wraps to the next line where the glyph does not fit in this
    /// one, then scrolls the screen where it does not fit below the cursor.
    /// The glyph is drawn at the cursor, moved by its offsets from the
    /// base line, if all of it lies on the screen, and the cursor moves on
    /// by the glyph's device width. Any other byte does nothing.
    pub open spec fn put_byte(&self, x: int, y: int, c: u8) -> (int, int, Seq<DrawCommand>) {
        if c == LINE_FEED {
            (0, saturate(y + self.max_font_height), Seq::empty())
        } else if c == CARRIAGE_RETURN {
            (0, y, Seq::empty())
        } else {
            match self.glyph_of(c) {
                None => (x, y, Seq::empty()),
                Some(glyph) => {
                    let wrap = self.frame_buffer_width <= x + glyph.width;
                    let x1 = if wrap {
                        0
                    } else {
                        x
                    };
                    let y1 = if wrap {
                        saturate(y + self.max_font_height)
                    } else {
                        y
                    };
                    let scroll = self.scroll_for(y1, glyph);
                    let y2 = y1 - scroll;
                    let gx = x1 + glyph.x_offset;
                    let gy = y2 + self.ascent - glyph.y_offset - glyph.height;
                    let scrolls = if scroll > 0 {
                        seq![DrawCommand::Scroll { height: scroll as usize }]
                    } else {
                        Seq::empty()
                    };
                    let draws = if self.on_screen(glyph, gx, gy) {
                        seq![DrawCommand::Glyph { glyph, x: gx as usize, y: gy as usize }]
                    } else {
                        Seq::empty()
                    };
                    (saturate(x1 + glyph.device_width), y2, scrolls + draws)
                },
            }
        }
    }

    /// What the bytes of a text do, one after another, with the cursor at
    /// `(x, y)`.
    pub open spec fn draw(&self, x: int, y: int, bytes: Seq<u8>) -> (int, int, Seq<DrawCommand>)
        decreases bytes.len(),
    {
        if bytes.len() == 0 {
            (x, y, Seq::empty())
        } else {
            let (x1, y1, before) = self.draw(x, y, bytes.drop_last());
            let (x2, y2, last) = self.put_byte(x1, y1, bytes.last());
            (x2, y2, before + last)
        }
    }

    /// The manager has no frame buffer and no font, and its cursor is at
    /// the top left.
    pub open spec fn is_fresh(&self) -> bool {
        &&& self.frame_buffer_address == 0
        &&& self.frame_buffer_width == 0
        &&& self.frame_buffer_height == 0
        &&& self.frame_buffer_depth_byte == 0
        &&& self.max_font_height == 0
        &&& self.ascent == 0
        &&& self.cursor_x == 0
        &&& self.cursor_y == 0
        &&& self.ascii_font_cache@ == Seq::new(CACHED_CHARS as nat, |i: int| no_glyph())
    }

    /// What [`Self::init`] makes of the manager `pre`: where the font
    /// cannot be read, `pre` itself; else a manager with the frame buffer,
    /// the font's glyphs, its height and ascent where the file states them,
    /// and the cursor of `pre`.
    pub open spec fn init_result(
        pre: GraphicManager,
        post: GraphicManager,
        mem: &PhysMemory,
        frame_buffer_address: usize,
        frame_buffer_width: usize,
        frame_buffer_height: usize,
        frame_buffer_depth: u8,
        font_address: usize,
        font_size: usize,
    ) -> bool {
        match font_at(mem, font_address as int, font_size as int) {
            None => post == pre,
            Some((sections, glyphs)) => {
                &&& post.frame_buffer_address == frame_buffer_address
                &&& post.frame_buffer_width == frame_buffer_width
                &&& post.frame_buffer_height == frame_buffer_height
                &&& post.frame_buffer_depth_byte == frame_buffer_depth / 8
                &&& post.max_font_height == (match sections.max_font_height {
                    Some(height) => height,
                    None => pre.max_font_height,
                })
                &&& post.ascent == (match sections.ascent {
                    Some(ascent) => ascent,
                    None => pre.ascent,
                })
                &&& post.cursor_x == pre.cursor_x
                &&& post.cursor_y == pre.cursor_y
                &&& post.ascii_font_cache@ == glyphs
            },
        }
    }

    /// What [`Self::draw_string`] makes of the manager `pre` and returns
    /// for the text `bytes`: without a frame buffer nothing; else the
    /// cursor moves and the result holds what is to be drawn, as
    /// [`Self::draw`] says. The frame buffer and the font stay.
    pub open spec fn draw_result(
        pre: GraphicManager,
        post: GraphicManager,
        bytes: Seq<u8>,
        r: Option<Vec<DrawCommand>>,
    ) -> bool {
        &&& pre.frame_buffer_address == 0 ==> r.is_none() && post == pre
        &&& pre.frame_buffer_address != 0 ==> r.is_some() && (
            post.cursor_x as int,
            post.cursor_y as int,
            r.unwrap()@,
        ) == pre.draw(pre.cursor_x as int, pre.cursor_y as int, bytes)
        &&& post.frame_buffer_address == pre.frame_buffer_address
        &&& post.frame_buffer_width == pre.frame_buffer_width
        &&& post.frame_buffer_height == pre.frame_buffer_height
        &&& post.frame_buffer_depth_byte == pre.frame_buffer_depth_byte
        &&& post.max_font_height == pre.max_font_height
        &&& post.ascent == pre.ascent
        &&& post.ascii_font_cache == pre.ascii_font_cache
    }

    /// A manager without a frame buffer and without a font: nothing is
    /// drawn.
    pub fn new() -> (manager: Self)
        ensures
            manager.is_fresh(),
    {
        let mut cache: Vec<BitmapFontData> = Vec::new();
        let mut i: usize = 0;
        while i < CACHED_CHARS
            invariant
                i <= CACHED_CHARS,
                cache@ == Seq::new(i as nat, |k: int| no_glyph()),
            decreases CACHED_CHARS - i,
        {
            cache.push(
                BitmapFontData {
                    width: 0,
                    height: 0,
                    x_offset: 0,
                    y_offset: 0,
                    device_width: 0,
                    bitmap_address: 0,
                },
            );
            i += 1;
        }
        Self {
            frame_buffer_address: 0,
            frame_buffer_width: 0,
            frame_buffer_height: 0,
            frame_buffer_depth_byte: 0,
            max_font_height: 0,
            ascent: 0,
            cursor_x: 0,
            cursor_y: 0,
            ascii_font_cache: cache,
        }
    }

    /// Reads the font file at `font_address` and takes over the frame
    /// buffer. Where the font cannot be read, nothing changes, and nothing
    /// will be drawn. The font's height and ascent are taken where the file
    /// states them.
    pub fn init(
        &mut self,
        mem: &PhysMemory,
        frame_buffer_address: usize,
        frame_buffer_width: usize,
        frame_buffer_height: usize,
        frame_buffer_depth: u8,
        font_address: usize,
        font_size: usize,
    )
        ensures
            Self::init_result(
                *old(self),
                *final(self),
                mem,
                frame_buffer_address,
                frame_buffer_width,
                frame_buffer_height,
                frame_buffer_depth,
                font_address,
                font_size,
            ),
    {
        match load_font(mem, font_address, font_size) {
            None => {},
            Some((sections, glyphs)) => {
                match sections.max_font_height {
                    Some(height) => {
                        self.max_font_height = height;
                    },
                    None => {},
                }
                match sections.ascent {
                    Some(ascent) => {
                        self.ascent = ascent;
                    },
                    None => {},
                }
                self.ascii_font_cache = glyphs;
                self.frame_buffer_address = frame_buffer_address;
                self.frame_buffer_width = frame_buffer_width;
                self.frame_buffer_height = frame_buffer_height;
                self.frame_buffer_depth_byte = frame_buffer_depth / 8;
            },
        }
    }

    /// Puts one byte of text at the cursor `(x, y)` and adds what is to be
    /// drawn to `out`.
    fn put(&self, x: usize, y: usize, c: u8, out: &mut Vec<DrawCommand>) -> (cursor: (usize, usize))
        ensures
            (cursor.0 as int, cursor.1 as int, final(out)@) == (
                self.put_byte(x as int, y as int, c).0,
                self.put_byte(x as int, y as int, c).1,
                old(out)@ + self.put_byte(x as int, y as int, c).2,
            ),
    {
        let line: usize = self.max_font_height as usize;
        if c == LINE_FEED {
            assert(out@ + Seq::<DrawCommand>::empty() == out@);
            return (0, y.saturating_add(line));
        }
        if c == CARRIAGE_RETURN {
            assert(out@ + Seq::<DrawCommand>::empty() == out@);
            return (0, y);
        }
        if c < FIRST_CACHED_CHAR || c > LAST_CACHED_CHAR || (c - FIRST_CACHED_CHAR) as usize
            >= self.ascii_font_cache.len() {
            assert(out@ + Seq::<DrawCommand>::empty() == out@);
            return (x, y);
        }
        let glyph = self.ascii_font_cache[(c - FIRST_CACHED_CHAR) as usize];
        let ghost before = out@;
        let wrap: bool = self.frame_buffer_width as u128 <= x as u128 + glyph.width as u128;
        let x1: usize = if wrap {
            0
        } else {
            x
        };
        let y1: usize = if wrap {
            y.saturating_add(line)
        } else {
            y
        };
        let mut scroll: usize = 0;
        if self.frame_buffer_height as u128 <= y1 as u128 + glyph.height as u128 {
            let reach: u128 = line as u128 + y1 as u128;
            if reach > self.frame_buffer_height as u128 {
                let wanted: u128 = reach - self.frame_buffer_height as u128;
                scroll = if wanted > y1 as u128 {
                    y1
                } else {
                    wanted as usize
                };
            }
        }
        let y2: usize = y1 - scroll;
        if scroll > 0 {
            out.push(DrawCommand::Scroll { height: scroll });
        }
        let ghost middle = out@;
        let gx: i128 = x1 as i128 + glyph.x_offset as i128;
        let gy: i128 = y2 as i128 + self.ascent as i128 - glyph.y_offset as i128
            - glyph.height as i128;
        if 0 <= gx && gx + glyph.width as i128 <= self.frame_buffer_width as i128 && 0 <= gy && gy
            + glyph.height as i128 <= self.frame_buffer_height as i128 {
            out.push(DrawCommand::Glyph { glyph, x: gx as usize, y: gy as usize });
        }
        let moved: i128 = x1 as i128 + glyph.device_width as i128;
        let x3: usize = if moved < 0 {
            0
        } else if moved > usize::MAX as i128 {
            usize::MAX
        } else {
            moved as usize
        };
        proof {
            let spec = self.put_byte(x as int, y as int, c);
            assert(out@ =~= before + spec.2);
        }
        (x3, y2)
    }

    /// Works out what drawing the text `s` at the cursor takes, and moves
    /// the cursor behind it. `None` without a frame buffer: then nothing
    /// is drawn and the cursor stays.
    pub fn draw_string(&mut self, s: &str) -> (r: Option<Vec<DrawCommand>>)
        ensures
            Self::draw_result(*old(self), *final(self), s.spec_bytes(), r),
    {
        if self.frame_buffer_address == 0 {
            return None;
        }
        let bytes = s.as_bytes();
        let mut out: Vec<DrawCommand> = Vec::new();
        let mut x: usize = self.cursor_x;
        let mut y: usize = self.cursor_y;
        let mut i: usize = 0;
        while i < bytes.len()
            invariant
                i <= bytes@.len(),
                *self == *old(self),
                (x as int, y as int, out@) == self.draw(
                    self.cursor_x as int,
                    self.cursor_y as int,
                    bytes@.subrange(0, i as int),
                ),
            decreases bytes@.len() - i,
        {
            assert(bytes@.subrange(0, i + 1).drop_last() == bytes@.subrange(0, i as int));
            let cursor = self.put(x, y, bytes[i], &mut out);
            x = cursor.0;
            y = cursor.1;
            i += 1;
        }
        assert(bytes@.subrange(0, i as int) == bytes@);
        self.cursor_x = x;
        self.cursor_y = y;
        Some(out)
    }

    /// The screen's size in bytes, where a line of pixels can be counted and
    /// the frame buffer ends inside the address space.
    pub open spec fn screen_bytes(&self) -> Option<int> {
        let bytes = self.frame_buffer_height * (self.frame_buffer_width
            * self.frame_buffer_depth_byte);
        if self.frame_buffer_width * self.frame_buffer_depth_byte <= usize::MAX
            && self.frame_buffer_address + bytes <= usize::MAX {
            Some(bytes)
        } else {
            None
        }
    }

    /// Where the pixel `(x, y)` is stored, if it lies on a screen that ends
    /// inside the address space.
    pub open spec fn pixel_at(&self, x: int, y: int) -> Option<int> {
        if self.screen_bytes().is_some() && 0 <= x < self.frame_buffer_width && 0 <= y
            < self.frame_buffer_height {
            Some(
                self.frame_buffer_address + y * (self.frame_buffer_width
                    * self.frame_buffer_depth_byte) + x * self.frame_buffer_depth_byte,
            )
        } else {
            None
        }
    }

    /// Bytes of one line of pixels and of the whole screen.
    fn sizes(&self) -> (r: Option<(usize, usize)>)
        ensures
            r.is_some() == self.screen_bytes().is_some(),
            r matches Some((line, screen)) ==> line == self.frame_buffer_width
                * self.frame_buffer_depth_byte && Some(screen as int) == self.screen_bytes(),
    {
        let line = self.frame_buffer_width.checked_mul(self.frame_buffer_depth_byte as usize);
        let line: usize = match line {
            Some(line) => line,
            None => {
                return None;
            },
        };
        let screen: usize = self.frame_buffer_height.checked_mul(line)?;
        if screen > usize::MAX - self.frame_buffer_address {
            return None;
        }
        Some((line, screen))
    }

    /// The address of the pixel `(x, y)`.
    pub fn pixel_address(&self, x: usize, y: usize) -> (r: Option<usize>)
        ensures
            r.is_some() == self.pixel_at(x as int, y as int).is_some(),
            r matches Some(address) ==> self.pixel_at(x as int, y as int) == Some(address as int),
    {
        let (line, screen) = self.sizes()?;
        if x >= self.frame_buffer_width || y >= self.frame_buffer_height {
            return None;
        }
        proof {
            let depth = self.frame_buffer_depth_byte as int;
            lemma_mul_inequality(y + 1, self.frame_buffer_height as int, line as int);
            lemma_mul_inequality(x + 1, self.frame_buffer_width as int, depth);
            assert((y + 1) * line == y * line + line) by (nonlinear_arith);
            assert((x + 1) * depth == x * depth + depth) by (nonlinear_arith);
        }
        Some(self.frame_buffer_address + y * line + x * self.frame_buffer_depth_byte as usize)
    }

    /// What scrolling by `height` lines of pixels moves and clears: the
    /// lines from `height` on move to the top, and as many lines at the
    /// bottom are cleared.
    pub open spec fn scroll_of(&self, height: int) -> Option<ScrollPlan> {
        let line = self.frame_buffer_width * self.frame_buffer_depth_byte;
        if self.screen_bytes().is_some() && 0 <= height <= self.frame_buffer_height {
            Some(
                ScrollPlan {
                    source: (self.frame_buffer_address + height * line) as usize,
                    destination: self.frame_buffer_address,
                    move_bytes: ((self.frame_buffer_height - height) * line) as usize,
                    clear_address: (self.frame_buffer_address + (self.frame_buffer_height - height)
                        * line) as usize,
                    clear_bytes: (height * line) as usize,
                },
            )
        } else {
            None
        }
    }

    /// The plan for scrolling by `height` lines of pixels.
    pub fn scroll_plan(&self, height: usize) -> (r: Option<ScrollPlan>)
        ensures
            r == self.scroll_of(height as int),
    {
        let (line, screen) = self.sizes()?;
        if height > self.frame_buffer_height {
            return None;
        }
        let rest: usize = self.frame_buffer_height - height;
        proof {
            lemma_mul_inequality(height as int, self.frame_buffer_height as int, line as int);
            lemma_mul_inequality(rest as int, self.frame_buffer_height as int, line as int);
        }
        Some(
            ScrollPlan {
                source: self.frame_buffer_address + height * line,
                destination: self.frame_buffer_address,
                move_bytes: rest * line,
                clear_address: self.frame_buffer_address + rest * line,
                clear_bytes: height * line,
            },
        )
    }
}

} // verus!
