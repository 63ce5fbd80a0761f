//! External SDRAM: the memory-protection region that makes the window
//! cacheable with write-back, and word access to the window once the memory
//! controller is up.
use vstd::prelude::*;

verus! {

/// Bytes in the SDRAM window.
pub const SDRAM_SIZE: usize = 64 * 1024 * 1024;
/// 32-bit words in the SDRAM window.
pub const SDRAM_WORDS: usize = 16 * 1024 * 1024;
/// Physical address of the window.
pub const SDRAM_BASE_ADDRESS: u32 = 0xD000_0000;

/// Memory-management fault enable bit of the system handler control register.
pub const MEMFAULTENA: u32 = 1 << 16;
/// Protection region the window takes.
pub const REGION_NUMBER0: u32 = 0x00;
pub const REGION_FULL_ACCESS: u32 = 0x03;
pub const REGION_CACHEABLE: u32 = 0x01;
pub const REGION_WRITE_BACK: u32 = 0x01;
pub const REGION_ENABLE: u32 = 0x01;
/// Protection unit control bits: enable, and the default map for privileged code.
pub const MPU_ENABLE: u32 = 0x01;
pub const MPU_DEFAULT_MMAP_FOR_PRIVILEGED: u32 = 0x04;

/// `e` is the exponent of the region covering `size` bytes: the smallest
/// supported power of two (32 bytes to 2 GiB) at or above `size`.
pub open spec fn is_region_exponent(size: u32, e: u32) -> bool {
    &&& 5 <= e <= 31
    &&& size <= 1u32 << e
    &&& e == 5 || size > 1u32 << ((e - 1) as u32)
}

proof fn lemma_shift_increasing(j: u32, k: u32)
    requires
        j < k <= 31,
    ensures
        (1u32 << j) < (1u32 << k),
{
    assert((1u32 << j) < (1u32 << k)) by (bit_vector)
        requires
            j < k <= 31,
    ;
}

/// The region exponent of a size is unique.
proof fn lemma_region_exponent_unique(size: u32, e: u32, f: u32)
    requires
        is_region_exponent(size, e),
        is_region_exponent(size, f),
    ensures
        e == f,
{
    if e < f {
        if e < (f - 1) as u32 {
            lemma_shift_increasing(e, (f - 1) as u32);
        }
    } else if f < e {
        if f < (e - 1) as u32 {
            lemma_shift_increasing(f, (e - 1) as u32);
        }
    }
}

/// Region attribute and size register for a region of `2^e` bytes: full
/// access, cacheable, write-back, enabled; the size field holds `e - 1`.
pub open spec fn region_attributes_for(e: u32) -> u32 {
    (REGION_FULL_ACCESS << 24u32) | (REGION_CACHEABLE << 17u32) | (REGION_WRITE_BACK << 16u32)
        | (((e - 1) as u32) << 1u32) | REGION_ENABLE
}

/// One protection region: its number, base address and attribute register.
#[derive(Clone, Copy, Debug, PartialEq, Eq, Structural)]
pub struct MpuRegion {
    pub number: u32,
    pub base_address: u32,
    pub attributes: u32,
}

/// The size field of the region covering `size` bytes: the base-2 logarithm
/// of the size rounded up to a supported power of two, less one.
pub fn log2minus1(size: u32) -> (r: u32)
    requires
        0 < size <= 0x8000_0000u32,
    ensures
        4 <= r <= 30,
        is_region_exponent(size, (r + 1) as u32),
{
    let mut i: u32 = 5;
    while i <= 31
        invariant
            5 <= i <= 32,
            0 < size <= 0x8000_0000u32,
            i > 5 ==> size > 1u32 << ((i - 1) as u32),
        decreases 32 - i,
    {
        if size <= 1u32 << i {
            return i - 1;
        }
        i = i + 1;
    }
    assert(1u32 << 31u32 == 0x8000_0000u32) by (bit_vector);
    0
}

/// The attribute register of the region covering `size` bytes.
pub fn region_attributes(size: u32) -> (r: u32)
    requires
        0 < size <= 0x8000_0000u32,
    ensures
        forall|e: u32| is_region_exponent(size, e) ==> r == region_attributes_for(e),
{
    let field = log2minus1(size);
    proof {
        assert forall|e: u32| is_region_exponent(size, e) implies e == field + 1 by {
            lemma_region_exponent_unique(size, e, (field + 1) as u32);
        }
    }
    (REGION_FULL_ACCESS << 24u32) | (REGION_CACHEABLE << 17u32) | (REGION_WRITE_BACK << 16u32) | (field << 1u32)
        | REGION_ENABLE
}

/// The region covering the SDRAM window: number 0 at the window's base, 64 MiB.
pub fn sdram_mpu_region() -> (r: MpuRegion)
    ensures
        r == (MpuRegion {
            number: REGION_NUMBER0,
            base_address: SDRAM_BASE_ADDRESS,
            attributes: region_attributes_for(26),
        }),
{
    let size = SDRAM_SIZE as u32;
    assert(size == 1u32 << 26u32 && size > 1u32 << 25u32) by (bit_vector)
        requires
            size == 0x400_0000u32,
    ;
    assert(is_region_exponent(size, 26));
    MpuRegion {
        number: REGION_NUMBER0,
        base_address: SDRAM_BASE_ADDRESS,
        attributes: region_attributes(size),
    }
}

/// The system handler control value with memory-management faults masked.
pub fn memfault_disabled(shcsr: u32) -> (r: u32)
    ensures
        r == shcsr & !MEMFAULTENA,
{
    shcsr & !MEMFAULTENA
}

/// The system handler control value with memory-management faults reported.
pub fn memfault_enabled(shcsr: u32) -> (r: u32)
    ensures
        r == shcsr | MEMFAULTENA,
{
    shcsr | MEMFAULTENA
}

/// The protection unit control value, enabled with the default map for
/// privileged code.
pub fn mpu_enabled(ctrl: u32) -> (r: u32)
    ensures
        r == ctrl | MPU_DEFAULT_MMAP_FOR_PRIVILEGED | MPU_ENABLE,
{
    ctrl | MPU_DEFAULT_MMAP_FOR_PRIVILEGED | MPU_ENABLE
}

/// The window after storing `words` from word offset `offset`.
pub open spec fn stored(window: Seq<u32>, offset: int, words: Seq<u32>) -> Seq<u32> {
    Seq::new(
        window.len(),
        |i: int|
            if offset <= i < offset + words.len() {
                words[i - offset]
            } else {
                window[i]
            },
    )
}

/// Stores `words` into the window from word offset `offset`.
pub fn write_words(window: &mut [u32], offset: usize, words: &[u32])
    requires
        offset + words@.len() <= old(window)@.len(),
    ensures
        final(window)@ == stored(old(window)@, offset as int, words@),
{
    let n = window.len();
    let mut k: usize = 0;
    while k < words.len()
        invariant
            n == window@.len(),
            offset + words@.len() <= window@.len(),
            window@.len() == old(window)@.len(),
            k <= words@.len(),
            forall|i: int| 0 <= i < window@.len() ==> #[trigger] window@[i] == if offset <= i < offset + k {
                words@[i - offset]
            } else {
                old(window)@[i]
            },
        decreases words@.len() - k,
    {
        window[offset + k] = words[k];
        k = k + 1;
    }
    assert(window@ =~= stored(old(window)@, offset as int, words@));
}

/// The `length` words from word offset `offset`.
pub fn read_words(window: &[u32], offset: usize, length: usize) -> (r: Vec<u32>)
    requires
        offset + length <= window@.len(),
    ensures
        r@ == window@.subrange(offset as int, offset + length),
{
    let n = window.len();
    let mut r: Vec<u32> = Vec::new();
    let mut k: usize = 0;
    while k < length
        invariant
            n == window@.len(),
            offset + length <= window@.len(),
            k <= length,
            r@ == window@.subrange(offset as int, offset + k),
        decreases length - k,
    {
        r.push(window[offset + k]);
        k = k + 1;
        assert(r@ =~= window@.subrange(offset as int, offset + k));
    }
    r
}

/// Write then read: words stored anywhere in the window read back as stored,
/// and the words around them keep their values.
pub proof fn lemma_window_write_read(window: Seq<u32>, offset: int, words: Seq<u32>)
    requires
        window.len() == SDRAM_WORDS,
        0 <= offset,
        offset + words.len() <= SDRAM_WORDS,
    ensures
        stored(window, offset, words).subrange(offset, offset + words.len()) == words,
        forall|i: int| 0 <= i < window.len() && !(offset <= i < offset + words.len())
            ==> #[trigger] stored(window, offset, words)[i] == window[i],
{
    assert(stored(window, offset, words).subrange(offset, offset + words.len()) =~= words);
}

} // verus!
