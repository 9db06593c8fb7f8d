//! The loaded program: an entry point and a sparse byte image.

use vstd::prelude::*;

use crate::image::{img_clone, img_insert, img_new, map_of};

verus! {

/// The abstract value of a [`Program`].
pub ghost struct ProgramModel {
    pub entry: u32,
    pub image: Map<u32, u8>,
}

impl ProgramModel {
    /// The entry point is always 4-byte aligned.
    pub open spec fn wf(self) -> bool {
        self.entry % 4 == 0
    }
}

/// A RISC program: immutable once loaded.
///
/// Addresses absent from the image read as zero.  Runs never mutate the
/// program; each run starts from a cheap structural copy of the image.
pub struct Program {
    /// The entrypoint of the program.
    pub entry: u32,
    /// The initial memory image.
    pub image: im::hashmap::HashMap<u32, u8>,
}

impl View for Program {
    type V = ProgramModel;

    open spec fn view(&self) -> ProgramModel {
        ProgramModel { entry: self.entry, image: map_of(self.image) }
    }
}

impl Program {
    /// A program that starts at address zero with the given image.
    pub fn from_image(image: im::hashmap::HashMap<u32, u8>) -> (r: Program)
        ensures
            r@.entry == 0,
            r@.image == map_of(image),
            r@.wf(),
    {
        Program { entry: 0, image }
    }

    /// An empty program starting at address zero.
    pub fn empty() -> (r: Program)
        ensures
            r@.entry == 0,
            r@.image == crate::image::empty_image(),
            r@.wf(),
    {
        Program { entry: 0, image: img_new() }
    }

    /// A structural copy of the initial image, for one run to own.
    pub(crate) fn image_copy(&self) -> (r: im::hashmap::HashMap<u32, u8>)
        ensures
            map_of(r) == self@.image,
    {
        img_clone(&self.image)
    }

    /// Write one byte of the image while loading.
    pub(crate) fn poke(&mut self, addr: u32, value: u8)
        ensures
            final(self)@.image == old(self)@.image.insert(addr, value),
            final(self)@.entry == old(self)@.entry,
    {
        img_insert(&mut self.image, addr, value);
    }
}

/// Why a byte image was rejected by the loader.
#[derive(Debug, Clone, Copy, PartialEq, Eq, Structural)]
pub enum InvalidFormatError {
    /// Missing or malformed identification: not a 32-bit little-endian
    /// executable image.
    NotElf32LittleEndian,
    /// The architecture tag does not name the supported instruction set.
    WrongMachine,
    /// The file type is not "executable".
    WrongType,
    /// The entry point is not 4-byte aligned.
    MisalignedEntry,
    /// More than 256 loadable segments.
    TooManySegments,
    /// The segment table or a segment's file bytes lie beyond the end
    /// of the input.
    Truncated,
}

/// The 16-bit little-endian value at `off`.
pub open spec fn u16_at(b: Seq<u8>, off: int) -> int {
    b[off] + b[off + 1] * 256
}

/// The 32-bit little-endian value at `off`.
pub open spec fn u32_at(b: Seq<u8>, off: int) -> int {
    b[off] + b[off + 1] * 256 + b[off + 2] * 65536 + b[off + 3] * 16777216
}

/// The fixed identification: magic bytes, 32-bit class, little-endian
/// data, and room for the whole header.
pub open spec fn header_ok(b: Seq<u8>) -> bool {
    &&& b.len() >= 52
    &&& b[0] == 0x7F
    &&& b[1] == 0x45
    &&& b[2] == 0x4C
    &&& b[3] == 0x46
    &&& b[4] == 1
    &&& b[5] == 1
}

/// Offset of the program header table.
pub open spec fn phoff(b: Seq<u8>) -> int {
    u32_at(b, 28)
}

/// Number of program headers.
pub open spec fn phnum(b: Seq<u8>) -> int {
    u16_at(b, 44)
}

/// The table is either absent or made of 32-byte entries that fit
/// inside the input.
pub open spec fn table_ok(b: Seq<u8>) -> bool {
    phnum(b) == 0 || (u16_at(b, 42) == 32 && phoff(b) + 32 * phnum(b) <= b.len())
}

/// Start of the `j`-th program header.
pub open spec fn ph_base(b: Seq<u8>, j: int) -> int {
    phoff(b) + 32 * j
}

/// Segment type of the `j`-th program header; loadable segments have
/// type 1.
pub open spec fn p_type(b: Seq<u8>, j: int) -> int {
    u32_at(b, ph_base(b, j))
}

/// File offset of the `j`-th segment's bytes.
pub open spec fn seg_off(b: Seq<u8>, j: int) -> int {
    u32_at(b, ph_base(b, j) + 4)
}

/// Virtual address of the `j`-th segment.
pub open spec fn seg_vaddr(b: Seq<u8>, j: int) -> int {
    u32_at(b, ph_base(b, j) + 8)
}

/// How many bytes of the `j`-th segment are copied from the file: the
/// smaller of its file size and its memory size; any remaining declared
/// memory stays implicitly zero.
pub open spec fn seg_n(b: Seq<u8>, j: int) -> int {
    let filesz = u32_at(b, ph_base(b, j) + 16);
    let memsz = u32_at(b, ph_base(b, j) + 20);
    if filesz <= memsz {
        filesz
    } else {
        memsz
    }
}

/// The number of loadable segments among the first `k` headers.
pub open spec fn count_load(b: Seq<u8>, k: int) -> int
    decreases k,
{
    if k <= 0 {
        0
    } else {
        count_load(b, k - 1) + if p_type(b, k - 1) == 1 {
            1int
        } else {
            0int
        }
    }
}

/// A loadable segment's file bytes lie inside the input.
pub open spec fn seg_ok(b: Seq<u8>, j: int) -> bool {
    p_type(b, j) != 1 || seg_off(b, j) + seg_n(b, j) <= b.len()
}

/// Every segment's file bytes lie inside the input.
pub open spec fn segments_ok(b: Seq<u8>) -> bool {
    forall|j: int| 0 <= j < phnum(b) ==> seg_ok(b, j)
}

/// The image after copying `t` bytes from file offset `off` to
/// consecutive addresses from `vaddr` on.
pub open spec fn write_span(m: Map<u32, u8>, b: Seq<u8>, off: int, vaddr: u32, t: int) -> Map<
    u32,
    u8,
>
    decreases t,
{
    if t <= 0 {
        m
    } else {
        write_span(m, b, off, vaddr, t - 1).insert(
            crate::state::wrap32(vaddr + t - 1),
            b[off + t - 1],
        )
    }
}

/// The image after loading the first `k` segments, in table order.
pub open spec fn load_image(b: Seq<u8>, k: int) -> Map<u32, u8>
    decreases k,
{
    if k <= 0 {
        crate::image::empty_image()
    } else {
        let m = load_image(b, k - 1);
        if p_type(b, k - 1) == 1 {
            write_span(m, b, seg_off(b, k - 1), seg_vaddr(b, k - 1) as u32, seg_n(b, k - 1))
        } else {
            m
        }
    }
}

/// All checks that precede the segment-bounds pass: identification,
/// machine, type, entry alignment, table bounds, segment count.
pub open spec fn prefix_ok(b: Seq<u8>) -> bool {
    &&& header_ok(b)
    &&& u16_at(b, 18) == 243
    &&& u16_at(b, 16) == 2
    &&& u32_at(b, 24) % 4 == 0
    &&& table_ok(b)
    &&& count_load(b, phnum(b)) <= 256
}

/// What loading an input yields: the program, or the first failing
/// check in order (identification, machine, type, entry alignment,
/// table bounds, segment count, segment bounds).
pub open spec fn spec_load(b: Seq<u8>) -> Result<ProgramModel, InvalidFormatError> {
    if !header_ok(b) {
        Err(InvalidFormatError::NotElf32LittleEndian)
    } else if u16_at(b, 18) != 243 {
        Err(InvalidFormatError::WrongMachine)
    } else if u16_at(b, 16) != 2 {
        Err(InvalidFormatError::WrongType)
    } else if u32_at(b, 24) % 4 != 0 {
        Err(InvalidFormatError::MisalignedEntry)
    } else if !table_ok(b) {
        Err(InvalidFormatError::Truncated)
    } else if count_load(b, phnum(b)) > 256 {
        Err(InvalidFormatError::TooManySegments)
    } else if !segments_ok(b) {
        Err(InvalidFormatError::Truncated)
    } else {
        Ok(ProgramModel { entry: u32_at(b, 24) as u32, image: load_image(b, phnum(b)) })
    }
}

/// The 16-bit little-endian value at `off`, executable form.
fn read_u16(b: &[u8], off: usize) -> (r: u32)
    requires
        off + 2 <= b@.len(),
    ensures
        r == u16_at(b@, off as int),
        r < 65536,
{
    (b[off] as u32) + (b[off + 1] as u32) * 256
}

/// The 32-bit little-endian value at `off`, executable form.
fn read_u32(b: &[u8], off: usize) -> (r: u32)
    requires
        off + 4 <= b@.len(),
    ensures
        r == u32_at(b@, off as int),
{
    (b[off] as u32) + (b[off + 1] as u32) * 256 + (b[off + 2] as u32) * 65536 + (b[off + 3]
        as u32) * 16777216
}

impl Program {
    /// Initialize a RISC program from an appropriate 32-bit
    /// little-endian executable image.
    ///
    /// For each loadable segment, `min(file_size, memory_size)` bytes
    /// are copied from the file into the image at the segment's virtual
    /// address; remaining declared memory stays implicitly zero.  The
    /// result, success or precise failure cause, is pinned by
    /// [`spec_load`].
    pub fn load_elf(input: &[u8]) -> (r: Result<Program, InvalidFormatError>)
        ensures
            (match r {
                Ok(p) => spec_load(input@) == Ok::<ProgramModel, InvalidFormatError>(p@)
                    && p@.wf(),
                Err(e) => spec_load(input@) == Err::<ProgramModel, InvalidFormatError>(e),
            }),
    {
        let n = input.len();
        if n < 52 {
            return Err(InvalidFormatError::NotElf32LittleEndian);
        }
        if !(input[0] == 0x7F && input[1] == 0x45 && input[2] == 0x4C && input[3] == 0x46
            && input[4] == 1 && input[5] == 1) {
            return Err(InvalidFormatError::NotElf32LittleEndian);
        }
        if read_u16(input, 18) != 243 {
            return Err(InvalidFormatError::WrongMachine);
        }
        if read_u16(input, 16) != 2 {
            return Err(InvalidFormatError::WrongType);
        }
        let entry = read_u32(input, 24);
        if entry % 4 != 0 {
            return Err(InvalidFormatError::MisalignedEntry);
        }
        let file_phoff = read_u32(input, 28);
        let file_phentsize = read_u16(input, 42);
        let file_phnum = read_u16(input, 44);
        if file_phnum > 0 {
            if file_phentsize != 32 {
                return Err(InvalidFormatError::Truncated);
            }
            if (file_phoff as u64) + 32 * (file_phnum as u64) > (n as u64) {
                return Err(InvalidFormatError::Truncated);
            }
        }
        let mut loadable: u32 = 0;
        let mut j: u32 = 0;
        while j < file_phnum
            invariant
                0 <= j <= file_phnum,
                file_phnum == phnum(input@),
                file_phoff == phoff(input@),
                table_ok(input@),
                n == input@.len(),
                file_phnum > 0 ==> file_phoff + 32 * file_phnum <= n,
                loadable == count_load(input@, j as int),
                loadable <= j,
            decreases file_phnum - j,
        {
            let base = (file_phoff as usize) + 32 * (j as usize);
            let ptype = read_u32(input, base);
            if ptype == 1 {
                loadable = loadable + 1;
            }
            j = j + 1;
        }
        if loadable > 256 {
            return Err(InvalidFormatError::TooManySegments);
        }
        let mut prog = Program { entry, image: crate::image::img_new() };
        let mut k: u32 = 0;
        while k < file_phnum
            invariant
                0 <= k <= file_phnum,
                file_phnum == phnum(input@),
                file_phoff == phoff(input@),
                prefix_ok(input@),
                n == input@.len(),
                file_phnum > 0 ==> file_phoff + 32 * file_phnum <= n,
                entry == u32_at(input@, 24),
                prog@.entry == entry,
                prog@.image == load_image(input@, k as int),
                forall|t: int| 0 <= t < k ==> seg_ok(input@, t),
            decreases file_phnum - k,
        {
            let base = (file_phoff as usize) + 32 * (k as usize);
            let ptype = read_u32(input, base);
            if ptype == 1 {
                let off = read_u32(input, base + 4);
                let vaddr = read_u32(input, base + 8);
                let filesz = read_u32(input, base + 16);
                let memsz = read_u32(input, base + 20);
                let ncopy = if filesz <= memsz {
                    filesz
                } else {
                    memsz
                };
                if (off as u64) + (ncopy as u64) > (n as u64) {
                    proof {
                        assert(!seg_ok(input@, k as int));
                        assert(!segments_ok(input@));
                    }
                    return Err(InvalidFormatError::Truncated);
                }
                let ghost before = prog@.image;
                let mut t: u32 = 0;
                while t < ncopy
                    invariant
                        0 <= t <= ncopy,
                        n == input@.len(),
                        off + ncopy <= n,
                        prog@.entry == entry,
                        prog@.image == write_span(before, input@, off as int, vaddr, t as int),
                    decreases ncopy - t,
                {
                    let a = crate::state::wrap_add_u32(vaddr, t);
                    prog.poke(a, input[(off as usize) + (t as usize)]);
                    t = t + 1;
                }
            }
            k = k + 1;
        }
        proof {
            assert(segments_ok(input@));
        }
        Ok(prog)
    }
}

} // verus!
