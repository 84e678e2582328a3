//! The ELF64 images that user processes are loaded from.

use vstd::prelude::*;
use crate::bytes::{read_u16_le, read_u32_le, read_u64_le, spec_u16_le, spec_u32_le, spec_u64_le};

verus! {

/// Why an image was refused.
#[derive(Debug, Clone, Copy, PartialEq, Eq, Structural)]
pub enum ElfError {
    InvalidMagic,
    UnsupportedClass,
    UnsupportedEncoding,
    UnsupportedMachine,
    InvalidHeader,
    InvalidProgramHeader,
    NoLoadableSegments,
}

/// One loadable segment of an image.
#[derive(Debug, Clone, Copy, PartialEq, Eq, Structural)]
pub struct ElfSegment {
    pub vaddr: u64,
    pub filesz: u64,
    pub memsz: u64,
    pub offset: u64,
    pub flags: u32,
    pub align: u64,
}

/// What the loader needs of an image: where it starts and what to map.
#[derive(Debug, Clone)]
pub struct ElfImage {
    pub entry: u64,
    pub segments: Vec<ElfSegment>,
}

/// Bytes of the file header.
pub const ELF_HEADER_BYTES: usize = 64;

/// Bytes of one program header.
pub const PROGRAM_HEADER_BYTES: usize = 56;

pub const ELFCLASS64: u8 = 2;

pub const ELFDATA2LSB: u8 = 1;

pub const ELF_MACHINE_X86_64: u16 = 0x3E;

pub const PT_LOAD: u32 = 1;

/// The segment that the program header at `offset` describes. An alignment
/// of zero counts as one.
pub open spec fn spec_segment(bytes: Seq<u8>, offset: int) -> ElfSegment {
    let align = spec_u64_le(bytes, offset + 48);
    ElfSegment {
        flags: spec_u32_le(bytes, offset + 4) as u32,
        offset: spec_u64_le(bytes, offset + 8) as u64,
        vaddr: spec_u64_le(bytes, offset + 16) as u64,
        filesz: spec_u64_le(bytes, offset + 32) as u64,
        memsz: spec_u64_le(bytes, offset + 40) as u64,
        align: if align >= 1 { align as u64 } else { 1 },
    }
}

/// The segments collected from the program headers `index..phnum` of the
/// table at `phoff`, after `found`: each header of type `PT_LOAD` with a
/// memory size other than zero gives one. A header that does not lie inside
/// the image is an error.
pub open spec fn spec_segments(
    bytes: Seq<u8>,
    phoff: int,
    phnum: int,
    index: int,
    found: Seq<ElfSegment>,
) -> Result<Seq<ElfSegment>, ElfError>
    decreases phnum - index,
{
    if index >= phnum {
        Ok(found)
    } else {
        let offset = phoff + index * PROGRAM_HEADER_BYTES;
        if offset + PROGRAM_HEADER_BYTES > bytes.len() {
            Err(ElfError::InvalidProgramHeader)
        } else if spec_u32_le(bytes, offset) != PT_LOAD || spec_u64_le(bytes, offset + 40) == 0 {
            spec_segments(bytes, phoff, phnum, index + 1, found)
        } else {
            spec_segments(bytes, phoff, phnum, index + 1, found.push(spec_segment(bytes, offset)))
        }
    }
}

/// The entry point and segments of an image, or why the image is refused.
///
/// The image must be ELF64, little endian, for x86_64, with program headers
/// of 56 bytes, and must hold a loadable segment.
pub open spec fn spec_parse(bytes: Seq<u8>) -> Result<(u64, Seq<ElfSegment>), ElfError> {
    if bytes.len() < ELF_HEADER_BYTES {
        Err(ElfError::InvalidHeader)
    } else if !(bytes[0] == 0x7F && bytes[1] == 0x45 && bytes[2] == 0x4C && bytes[3] == 0x46) {
        Err(ElfError::InvalidMagic)
    } else if bytes[4] != ELFCLASS64 {
        Err(ElfError::UnsupportedClass)
    } else if bytes[5] != ELFDATA2LSB {
        Err(ElfError::UnsupportedEncoding)
    } else if spec_u16_le(bytes, 18) != ELF_MACHINE_X86_64 {
        Err(ElfError::UnsupportedMachine)
    } else if spec_u16_le(bytes, 54) != PROGRAM_HEADER_BYTES || spec_u16_le(bytes, 56) == 0 {
        Err(ElfError::InvalidProgramHeader)
    } else {
        match spec_segments(bytes, spec_u64_le(bytes, 32), spec_u16_le(bytes, 56), 0, Seq::empty()) {
            Err(e) => Err(e),
            Ok(segments) => if segments.len() == 0 {
                Err(ElfError::NoLoadableSegments)
            } else {
                Ok((spec_u64_le(bytes, 24) as u64, segments))
            },
        }
    }
}

/// Reads the header and program headers of an ELF image.
#[verifier::loop_isolation(false)]
pub fn parse(bytes: &[u8]) -> (res: Result<ElfImage, ElfError>)
    ensures
        match spec_parse(bytes@) {
            Err(e) => res == Err::<ElfImage, ElfError>(e),
            Ok((entry, segments)) => res is Ok && res->Ok_0.entry == entry && res->Ok_0.segments@
                == segments,
        },
{
    if bytes.len() < ELF_HEADER_BYTES {
        return Err(ElfError::InvalidHeader);
    }
    if !(bytes[0] == 0x7F && bytes[1] == 0x45 && bytes[2] == 0x4C && bytes[3] == 0x46) {
        return Err(ElfError::InvalidMagic);
    }
    if bytes[4] != ELFCLASS64 {
        return Err(ElfError::UnsupportedClass);
    }
    if bytes[5] != ELFDATA2LSB {
        return Err(ElfError::UnsupportedEncoding);
    }
    let machine = read_u16_le(bytes, 18).unwrap();
    if machine != ELF_MACHINE_X86_64 {
        return Err(ElfError::UnsupportedMachine);
    }
    let entry = read_u64_le(bytes, 24).unwrap();
    let phoff = read_u64_le(bytes, 32).unwrap();
    let phentsize = read_u16_le(bytes, 54).unwrap();
    let phnum = read_u16_le(bytes, 56).unwrap();
    if phentsize as usize != PROGRAM_HEADER_BYTES || phnum == 0 {
        return Err(ElfError::InvalidProgramHeader);
    }
    let mut segments: Vec<ElfSegment> = Vec::new();
    assert(segments@ =~= Seq::<ElfSegment>::empty());
    let mut index: u16 = 0;
    while index < phnum
        invariant
            index <= phnum,
            spec_segments(bytes@, phoff as int, phnum as int, index as int, segments@)
                == spec_segments(bytes@, phoff as int, phnum as int, 0, Seq::empty()),
        decreases phnum - index,
    {
        let step = index as u64 * PROGRAM_HEADER_BYTES as u64;
        let header_end = match phoff.checked_add(step + PROGRAM_HEADER_BYTES as u64) {
            Some(end) => end,
            None => { return Err(ElfError::InvalidProgramHeader); },
        };
        if header_end > bytes.len() as u64 {
            return Err(ElfError::InvalidProgramHeader);
        }
        let offset = (phoff + step) as usize;
        let p_type = read_u32_le(bytes, offset).unwrap();
        if p_type != PT_LOAD {
            index += 1;
            continue;
        }
        let p_flags = read_u32_le(bytes, offset + 4).unwrap();
        let p_offset = read_u64_le(bytes, offset + 8).unwrap();
        let p_vaddr = read_u64_le(bytes, offset + 16).unwrap();
        let p_filesz = read_u64_le(bytes, offset + 32).unwrap();
        let p_memsz = read_u64_le(bytes, offset + 40).unwrap();
        let p_align = read_u64_le(bytes, offset + 48).unwrap();
        if p_memsz == 0 {
            index += 1;
            continue;
        }
        segments.push(
            ElfSegment {
                vaddr: p_vaddr,
                filesz: p_filesz,
                memsz: p_memsz,
                offset: p_offset,
                flags: p_flags,
                align: if p_align >= 1 { p_align } else { 1 },
            },
        );
        index += 1;
    }
    if segments.len() == 0 {
        return Err(ElfError::NoLoadableSegments);
    }
    Ok(ElfImage { entry, segments })
}

/// Tells whether a segment's flags ask for write access.
pub open spec fn spec_segment_flags_writable(flags: u32) -> bool {
    flags & 0x2 != 0
}

/// Tells whether a segment's flags ask for execute access.
pub open spec fn spec_segment_flags_executable(flags: u32) -> bool {
    flags & 0x1 != 0
}

pub fn segment_flags_writable(flags: u32) -> (yes: bool)
    ensures
        yes == spec_segment_flags_writable(flags),
{
    flags & 0x2 != 0
}

pub fn segment_flags_executable(flags: u32) -> (yes: bool)
    ensures
        yes == spec_segment_flags_executable(flags),
{
    flags & 0x1 != 0
}

} // verus!
