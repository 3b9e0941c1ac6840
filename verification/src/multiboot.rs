//! The multiboot information: its tags, and the memory the boot loader
//! reports as reserved.

use vstd::prelude::*;

use crate::bytes::{le16, le32, le64, read_le16, read_le32, read_le64};
use crate::memory::PhysAddr;

verus! {

/// The tag type that ends the list.
pub const TAG_END: u16 = 0;

/// The tag type of the memory map.
pub const TAG_MMAP: u16 = 6;

/// The memory map type of reserved memory.
pub const MMAP_RESERVED: u32 = 2;

/// The size of a memory map entry as the kernel reads it.
pub const MMAP_ENTRY_SIZE: usize = 24;

/// The header of a tag.
#[derive(Debug, Clone, Copy, PartialEq, Eq, Structural)]
pub struct TagHeader {
    pub htype: u16,
    pub flags: u16,
    pub size: u32,
}

/// The header of the tag at `off` in `info`.
pub open spec fn header_at(info: Seq<u8>, off: int) -> TagHeader {
    TagHeader { htype: le16(info, off), flags: le16(info, off + 2), size: le32(info, off + 4) }
}

/// The offset of the tag after a tag of `size` bytes at `off`: tags start
/// on 8-byte boundaries.
pub open spec fn next_offset(off: int, size: u32) -> int {
    off + (size + 7) / 8 * 8
}

/// The offset of the memory map tag, walking the tags from `off` on; none
/// when a tag of size 0 ends the list first, or when the tags run past the
/// end of `info`.
pub open spec fn mmap_tag_from(info: Seq<u8>, off: int) -> Option<int>
    decreases (if off <= info.len() { info.len() - off } else { 0 }),
{
    if off < 0 || off + 8 > info.len() {
        None
    } else {
        let h = header_at(info, off);
        if h.size == 0 {
            None
        } else if h.htype == TAG_MMAP {
            Some(off)
        } else if h.size as int > u32::MAX - 7 {
            None
        } else {
            proof {
                assert((h.size + 7) / 8 * 8 >= 8) by (nonlinear_arith)
                    requires
                        h.size >= 1,
                ;
            }
            mmap_tag_from(info, next_offset(off, h.size))
        }
    }
}

/// The offsets of the tags from `off` on, in order: the walk ends at a tag
/// of size 0, at the end tag, or where a tag would run past `info`; a tag
/// whose size leaves no room for another is the last one listed.
pub open spec fn tags_from(info: Seq<u8>, off: int) -> Seq<int>
    decreases (if off <= info.len() { info.len() - off } else { 0 }),
{
    if off < 0 || off + 8 > info.len() {
        Seq::empty()
    } else {
        let h = header_at(info, off);
        if h.size == 0 || h.htype == TAG_END {
            Seq::empty()
        } else if h.size as int > u32::MAX - 7 {
            seq![off]
        } else {
            proof {
                assert((h.size + 7) / 8 * 8 >= 8) by (nonlinear_arith)
                    requires
                        h.size >= 1,
                ;
            }
            seq![off] + tags_from(info, next_offset(off, h.size))
        }
    }
}

/// The number of entries of the memory map tag at `t`.
pub open spec fn mmap_entries(info: Seq<u8>, t: int) -> int {
    (le32(info, t + 4) - 16) / (le32(info, t + 8) as int)
}

/// The range that entry `i` of the memory map at `t` claims when it is
/// reserved: its first frame's address and its number of pages.
pub open spec fn entry_range(info: Seq<u8>, t: int, i: int) -> (PhysAddr, usize) {
    let e = t + 16 + i * 24;
    (le64(info, e) as PhysAddr, (le64(info, e + 8) as usize) / 4096)
}

/// The ranges of the reserved entries among the first `n` of the memory
/// map at `t`, in order.
pub open spec fn reserved_ranges(info: Seq<u8>, t: int, n: int) -> Seq<(PhysAddr, usize)>
    decreases n,
{
    if n <= 0 {
        Seq::empty()
    } else {
        let before = reserved_ranges(info, t, n - 1);
        if le32(info, t + 16 + (n - 1) * 24 + 16) == MMAP_RESERVED {
            before.push(entry_range(info, t, n - 1))
        } else {
            before
        }
    }
}

/// The memory map tag, when there is one, is readable: it holds at least
/// its header, its entry size is not 0, and its entries lie in `info`.
pub open spec fn mmap_readable(info: Seq<u8>) -> bool {
    match mmap_tag_from(info, 8) {
        None => true,
        Some(t) => {
            &&& le32(info, t + 4) >= 16
            &&& t + 16 <= info.len()
            &&& le32(info, t + 8) > 0
            &&& t + 16 + mmap_entries(info, t) * 24 <= info.len()
        },
    }
}

/// The header of the tag at `off`.
pub fn tag_at(info: &[u8], off: usize) -> (res: TagHeader)
    requires
        off + 8 <= info@.len(),
    ensures
        res == header_at(info@, off as int),
{
    let len = info.len();
    assert(off + 8 <= len);
    TagHeader { htype: read_le16(info, off), flags: read_le16(info, off + 2), size: read_le32(info, off + 4) }
}

/// The offset of the tag after a tag of `size` bytes at `off`.
pub fn next_tag(off: usize, size: u32) -> (res: usize)
    requires
        size <= u32::MAX - 7,
        off + size + 7 <= usize::MAX,
    ensures
        res == next_offset(off as int, size),
        off + size <= res <= off + size + 7,
{
    let s7: u32 = size + 7;
    let step: u32 = s7 & !7u32;
    assert(step == s7 / 8 * 8) by (bit_vector)
        requires
            step == s7 & !7u32,
    ;
    off + step as usize
}

/// The offsets of the tags of `info`, in order, from the first one on.
pub fn tag_list(info: &[u8]) -> (res: std::vec::Vec<usize>)
    ensures
        res@.len() == tags_from(info@, 8).len(),
        forall|i: int| 0 <= i < res@.len() ==> res@[i] == tags_from(info@, 8)[i],
{
    let mut res: std::vec::Vec<usize> = std::vec::Vec::new();
    let mut off: usize = 8;
    loop
        invariant_except_break
            res@.map_values(|o: usize| o as int) + tags_from(info@, off as int) == tags_from(info@, 8),
        invariant
            8 <= off,
        ensures
            res@.map_values(|o: usize| o as int) == tags_from(info@, 8),
        decreases info@.len() - off,
    {
        if info.len() < 8 || off > info.len() - 8 {
            proof {
                assert(res@.map_values(|o: usize| o as int) =~= tags_from(info@, 8));
            }
            break;
        }
        let h = tag_at(info, off);
        if h.size == 0 || h.htype == TAG_END {
            proof {
                assert(res@.map_values(|o: usize| o as int) =~= tags_from(info@, 8));
            }
            break;
        }
        let ghost before = res@.map_values(|o: usize| o as int);
        res.push(off);
        proof {
            assert(res@.map_values(|o: usize| o as int) =~= before.push(off as int));
        }
        if h.size > u32::MAX - 7 || (h.size as usize) > info.len() - off || info.len() - off
            - (h.size as usize) < 8 {
            proof {
                if h.size <= u32::MAX - 7 {
                    let next = next_offset(off as int, h.size);
                    assert(next >= off + h.size) by (nonlinear_arith)
                        requires
                            next == off + (h.size + 7) / 8 * 8,
                    ;
                    assert(tags_from(info@, next) =~= Seq::<int>::empty());
                }
                assert(tags_from(info@, off as int) =~= seq![off as int]);
                assert(res@.map_values(|o: usize| o as int) =~= tags_from(info@, 8));
            }
            break;
        }
        proof {
            assert(before.push(off as int) + tags_from(info@, next_offset(off as int, h.size))
                =~= before + tags_from(info@, off as int));
        }
        off = next_tag(off, h.size);
    }
    proof {
        assert(res@.map_values(|o: usize| o as int).len() == res@.len());
        assert forall|i: int| 0 <= i < res@.len() implies res@[i] == tags_from(info@, 8)[i] by {
            assert(res@.map_values(|o: usize| o as int)[i] == res@[i] as int);
        }
    }
    res
}

/// The text that the tag at `off` carries after its header, without the
/// final nul byte (the command line, the boot loader's name).
pub fn tag_text(info: &[u8], off: usize) -> (res: std::vec::Vec<u8>)
    requires
        off + 8 <= info@.len(),
        header_at(info@, off as int).size >= 9,
        off + header_at(info@, off as int).size <= info@.len(),
    ensures
        res@ == info@.subrange(off + 8, off + header_at(info@, off as int).size - 1),
{
    let len = info.len();
    let size = read_le32(info, off + 4) as usize;
    let end = off + size - 1;
    let mut res: std::vec::Vec<u8> = std::vec::Vec::new();
    let mut i: usize = off + 8;
    while i < end
        invariant
            off + 8 <= i <= end,
            end == off + header_at(info@, off as int).size - 1,
            end <= len == info@.len(),
            res@ == info@.subrange(off + 8, i as int),
        decreases end - i,
    {
        res.push(info[i]);
        proof {
            assert(info@.subrange(off + 8, i + 1) =~= info@.subrange(off + 8, i as int).push(info@[i as int]));
        }
        i += 1;
    }
    res
}

/// The offset of the memory map tag, if any.
fn find_mmap(info: &[u8]) -> (res: Option<usize>)
    ensures
        match res {
            Some(t) => mmap_tag_from(info@, 8) == Some(t as int),
            None => mmap_tag_from(info@, 8) is None,
        },
{
    let mut off: usize = 8;
    loop
        invariant
            8 <= off,
            mmap_tag_from(info@, off as int) == mmap_tag_from(info@, 8),
        decreases info@.len() - off,
    {
        if info.len() < 8 || off > info.len() - 8 {
            return None;
        }
        let h = tag_at(info, off);
        if h.size == 0 {
            return None;
        }
        if h.htype == TAG_MMAP {
            return Some(off);
        }
        if h.size > u32::MAX - 7 {
            return None;
        }
        if (h.size as usize) > info.len() - off || info.len() - off - (h.size as usize) < 8 {
            proof {
                let next = next_offset(off as int, h.size);
                assert(next >= off + h.size) by (nonlinear_arith)
                    requires
                        next == off + (h.size + 7) / 8 * 8,
                ;
                assert(mmap_tag_from(info@, next) is None);
            }
            return None;
        }
        off = next_tag(off, h.size);
    }
}

/// The ranges of frames the boot loader reports as reserved: for each
/// entry of the memory map of type 2, its address and its number of
/// pages. The walk stops at the memory map tag; without one there is
/// nothing to claim.
pub fn claim_multiboot(info: &[u8]) -> (res: std::vec::Vec<(PhysAddr, usize)>)
    requires
        mmap_readable(info@),
    ensures
        match mmap_tag_from(info@, 8) {
            None => res@.len() == 0,
            Some(t) => res@ == reserved_ranges(info@, t, mmap_entries(info@, t)),
        },
{
    let mut res = std::vec::Vec::new();
    let t = match find_mmap(info) {
        Some(t) => t,
        None => {
            return res;
        },
    };
    let len = info.len();
    let size = read_le32(info, t + 4);
    let entry_size = read_le32(info, t + 8);
    let n: u32 = (size - 16) / entry_size;
    let mut i: u32 = 0;
    while i < n
        invariant
            i <= n,
            n == mmap_entries(info@, t as int),
            t + 16 + n * 24 <= info@.len(),
            info@.len() == len,
            res@ == reserved_ranges(info@, t as int, i as int),
        decreases n - i,
    {
        assert(t + 16 + (i + 1) * 24 <= t + 16 + n * 24) by (nonlinear_arith)
            requires
                i < n,
        ;
        let e: usize = t + 16 + (i as usize) * 24;
        let kind = read_le32(info, e + 16);
        if kind == MMAP_RESERVED {
            let base = read_le64(info, e);
            let length = read_le64(info, e + 8);
            let addr: PhysAddr = #[verifier::truncate] (base as PhysAddr);
            let pages: usize = (#[verifier::truncate] (length as usize)) / 4096;
            res.push((addr, pages));
        }
        i += 1;
    }
    res
}


/// One entry of the memory map.
#[derive(Debug, Clone, Copy, PartialEq, Eq, Structural)]
pub struct MemMapEntry {
    pub baseaddr: u64,
    pub length: u64,
    pub mtype: u32,
    pub reserved: u32,
}

/// What a tag tells, as `read_tags` reports it.
#[derive(Debug)]
pub enum TagInfo {
    /// The command line, without its final nul byte.
    CmdLine(std::vec::Vec<u8>),
    /// The boot loader's name, without its final nul byte.
    BootLoaderName(std::vec::Vec<u8>),
    /// The amounts of lower and upper memory, in KiB.
    BasicMemInfo { mem_lower: u32, mem_upper: u32 },
    /// The BIOS device the kernel was loaded from.
    BootDev { biosdev: u32, partition: u32, sub_partition: u32 },
    /// The entries of the memory map.
    Mmap(std::vec::Vec<MemMapEntry>),
    /// The frame buffer.
    FrameBuffer { addr: u64, pitch: u32, width: u32, height: u32, bpp: u8, ftype: u8, reserved: u8 },
    /// A tag that is known but not decoded (ELF sections, APM table, old
    /// ACPI table, load base address), by its type.
    Skipped(u16),
    /// Any other tag, by its header.
    Other(TagHeader),
}

/// The tag types that `read_tags` knows but does not decode.
pub open spec fn skipped_type(t: u16) -> bool {
    t == 9 || t == 10 || t == 14 || t == 21
}

/// The tag types that `read_tags` decodes.
pub open spec fn decoded_type(t: u16) -> bool {
    t == 1 || t == 2 || t == 4 || t == 5 || t == TAG_MMAP || t == 8
}

/// The memory map entry at `e` in `info`.
pub open spec fn entry_at(info: Seq<u8>, e: int) -> MemMapEntry {
    MemMapEntry {
        baseaddr: le64(info, e),
        length: le64(info, e + 8),
        mtype: le32(info, e + 16),
        reserved: le32(info, e + 20),
    }
}

/// The fields the tag at `off` is decoded from lie in `info`, and the
/// sizes it is decoded with are sound: a text tag holds at least its nul
/// byte, a memory map holds its header and has entries of nonzero size.
pub open spec fn tag_readable(info: Seq<u8>, off: int) -> bool {
    let h = header_at(info, off);
    &&& off + 8 <= info.len()
    &&& (h.htype == 1 || h.htype == 2) ==> h.size >= 9 && off + h.size <= info.len()
    &&& h.htype == 4 ==> off + 16 <= info.len()
    &&& h.htype == 5 ==> off + 20 <= info.len()
    &&& h.htype == TAG_MMAP ==> {
        &&& h.size >= 16
        &&& off + 16 <= info.len()
        &&& le32(info, off + 8) > 0
        &&& off + 16 + mmap_entries(info, off) * 24 <= info.len()
    }
    &&& h.htype == 8 ==> off + 31 <= info.len()
}

/// `t` is what the tag at `off` of `info` tells.
pub open spec fn describes(info: Seq<u8>, off: int, t: TagInfo) -> bool {
    let h = header_at(info, off);
    match t {
        TagInfo::CmdLine(v) => h.htype == 1 && v@ == info.subrange(off + 8, off + h.size - 1),
        TagInfo::BootLoaderName(v) => h.htype == 2 && v@ == info.subrange(off + 8, off + h.size - 1),
        TagInfo::BasicMemInfo { mem_lower, mem_upper } => {
            &&& h.htype == 4
            &&& mem_lower == le32(info, off + 8)
            &&& mem_upper == le32(info, off + 12)
        },
        TagInfo::BootDev { biosdev, partition, sub_partition } => {
            &&& h.htype == 5
            &&& biosdev == le32(info, off + 8)
            &&& partition == le32(info, off + 12)
            &&& sub_partition == le32(info, off + 16)
        },
        TagInfo::Mmap(entries) => {
            &&& h.htype == TAG_MMAP
            &&& entries@.len() == mmap_entries(info, off)
            &&& forall|i: int| 0 <= i < entries@.len() ==> #[trigger] entries@[i] == entry_at(info, off + 16 + i * 24)
        },
        TagInfo::FrameBuffer { addr, pitch, width, height, bpp, ftype, reserved } => {
            &&& h.htype == 8
            &&& addr == le64(info, off + 8)
            &&& pitch == le32(info, off + 16)
            &&& width == le32(info, off + 20)
            &&& height == le32(info, off + 24)
            &&& bpp == info[off + 28]
            &&& ftype == info[off + 29]
            &&& reserved == info[off + 30]
        },
        TagInfo::Skipped(k) => skipped_type(h.htype) && k == h.htype,
        TagInfo::Other(hh) => !decoded_type(h.htype) && !skipped_type(h.htype) && hh == h,
    }
}

/// Whether the tag at `off` can be decoded: `tag_readable` as a test.
pub fn tag_is_readable(info: &[u8], off: usize) -> (res: bool)
    ensures
        res == tag_readable(info@, off as int),
{
    let len = info.len();
    if len < 8 || off > len - 8 {
        return false;
    }
    let h = tag_at(info, off);
    let room = len - off;
    if h.htype == 1 || h.htype == 2 {
        h.size >= 9 && (h.size as usize) <= room
    } else if h.htype == 4 {
        room >= 16
    } else if h.htype == 5 {
        room >= 20
    } else if h.htype == TAG_MMAP {
        if h.size < 16 || room < 16 {
            return false;
        }
        let entry_size = read_le32(info, off + 8);
        if entry_size == 0 {
            return false;
        }
        let n = (h.size - 16) / entry_size;
        assert(n == mmap_entries(info@, off as int));
        (n as usize) <= (room - 16) / 24
    } else if h.htype == 8 {
        room >= 31
    } else {
        true
    }
}

/// Decodes the tag at `off`.
pub fn decode_tag(info: &[u8], off: usize) -> (res: TagInfo)
    requires
        tag_readable(info@, off as int),
    ensures
        describes(info@, off as int, res),
{
    let len = info.len();
    let h = tag_at(info, off);
    if h.htype == 1 {
        TagInfo::CmdLine(tag_text(info, off))
    } else if h.htype == 2 {
        TagInfo::BootLoaderName(tag_text(info, off))
    } else if h.htype == 4 {
        TagInfo::BasicMemInfo { mem_lower: read_le32(info, off + 8), mem_upper: read_le32(info, off + 12) }
    } else if h.htype == 5 {
        TagInfo::BootDev {
            biosdev: read_le32(info, off + 8),
            partition: read_le32(info, off + 12),
            sub_partition: read_le32(info, off + 16),
        }
    } else if h.htype == TAG_MMAP {
        let entry_size = read_le32(info, off + 8);
        let n = (h.size - 16) / entry_size;
        let mut entries: std::vec::Vec<MemMapEntry> = std::vec::Vec::new();
        let mut i: u32 = 0;
        while i < n
            invariant
                len == info@.len(),
                tag_readable(info@, off as int),
                h == header_at(info@, off as int),
                h.htype == TAG_MMAP,
                n == mmap_entries(info@, off as int),
                i <= n,
                entries@.len() == i,
                forall|k: int| 0 <= k < i ==> #[trigger] entries@[k] == entry_at(info@, off + 16 + k * 24),
            decreases n - i,
        {
            assert(off + 16 + i * 24 + 24 <= len) by (nonlinear_arith)
                requires
                    i < n,
                    off + 16 + n * 24 <= len,
            ;
            let e = off + 16 + (i as usize) * 24;
            entries.push(
                MemMapEntry {
                    baseaddr: read_le64(info, e),
                    length: read_le64(info, e + 8),
                    mtype: read_le32(info, e + 16),
                    reserved: read_le32(info, e + 20),
                },
            );
            i += 1;
        }
        TagInfo::Mmap(entries)
    } else if h.htype == 8 {
        TagInfo::FrameBuffer {
            addr: read_le64(info, off + 8),
            pitch: read_le32(info, off + 16),
            width: read_le32(info, off + 20),
            height: read_le32(info, off + 24),
            bpp: info[off + 28],
            ftype: info[off + 29],
            reserved: info[off + 30],
        }
    } else if h.htype == 9 || h.htype == 10 || h.htype == 14 || h.htype == 21 {
        TagInfo::Skipped(h.htype)
    } else {
        TagInfo::Other(h)
    }
}

/// What each tag of `info` tells, in order, from the first tag on to the
/// end of the list.
pub fn read_tags(info: &[u8]) -> (res: std::vec::Vec<TagInfo>)
    requires
        forall|k: int| 0 <= k < tags_from(info@, 8).len() ==> tag_readable(info@, #[trigger] tags_from(info@, 8)[k]),
    ensures
        res@.len() == tags_from(info@, 8).len(),
        forall|k: int| 0 <= k < res@.len() ==> describes(info@, tags_from(info@, 8)[k], #[trigger] res@[k]),
{
    let offs = tag_list(info);
    let mut res: std::vec::Vec<TagInfo> = std::vec::Vec::new();
    let mut i: usize = 0;
    while i < offs.len()
        invariant
            offs@.len() == tags_from(info@, 8).len(),
            forall|k: int| 0 <= k < offs@.len() ==> offs@[k] == tags_from(info@, 8)[k],
            forall|k: int| 0 <= k < tags_from(info@, 8).len() ==> tag_readable(info@, #[trigger] tags_from(info@, 8)[k]),
            i <= offs@.len(),
            res@.len() == i,
            forall|k: int| 0 <= k < i ==> describes(info@, tags_from(info@, 8)[k], #[trigger] res@[k]),
        decreases offs@.len() - i,
    {
        assert(offs@[i as int] == tags_from(info@, 8)[i as int]);
        let t = decode_tag(info, offs[i]);
        res.push(t);
        i += 1;
    }
    res
}

} // verus!
