//! Command protocol of the IS25LP064 NOR flash behind the quad-SPI bus.
//!
//! The functions here decide which bus transfers are issued, in which order,
//! with which addresses; the code owning the bus performs them. Every
//! modifying operation ([`FlashOp`]) is carried out as a write-enable command,
//! the operation's own transfer, then polling the status register until the
//! write-in-progress bit clears.
use vstd::prelude::*;

verus! {

/// Highest byte address of the device (8 MiB).
pub const MAX_ADDRESS: u32 = 0x7F_FFFF;
/// Number of bytes in the device.
pub const FLASH_SIZE: u32 = 0x80_0000;
/// Smallest erasable unit.
pub const SECTOR_SIZE: u32 = 4096;
/// Largest unit one program command may write; it must not cross a page boundary.
pub const PAGE_SIZE: u32 = 256;

/// WRSR: write status register.
pub const WRITE_STATUS_REGISTER_CMD: u8 = 0x01;
/// PP: page program.
pub const PAGE_PROGRAM_CMD: u8 = 0x02;
/// RDSR: read status register.
pub const READ_STATUS_REGISTER_CMD: u8 = 0x05;
/// WREN: write enable.
pub const WRITE_ENABLE_CMD: u8 = 0x06;
/// QPIEN: enter quad-peripheral-interface mode.
pub const ENTER_QPI_MODE_CMD: u8 = 0x35;
/// SRP: set read parameters.
pub const SET_READ_PARAMETERS_CMD: u8 = 0xC0;
/// SER: sector erase.
pub const SECTOR_ERASE_CMD: u8 = 0xD7;
/// FRQIO: fast read, quad I/O.
pub const FAST_READ_QUAD_IO_CMD: u8 = 0xEB;
/// RDUID: read the factory unique identifier.
pub const READ_UNIQUE_ID_CMD: u8 = 0x4B;

/// Status register bit that is set while an erase or program runs.
pub const WRITE_IN_PROGRESS: u8 = 0x01;
/// Status register value the driver establishes at start-up.
pub const DEFAULT_STATUS: u8 = 0b0000_0010;
/// Read parameter register value the driver establishes at start-up.
pub const DEFAULT_READ_PARAMETERS: u8 = 0b1111_1000;
/// Dummy cycles of the fast read and unique-id commands.
pub const READ_DUMMY_CYCLES: u8 = 6;
/// Length of the factory unique identifier.
pub const UUID_LENGTH: usize = 16;

/// Number of data lines a phase of a transfer uses.
#[derive(Clone, Copy, Debug, PartialEq, Eq, Structural)]
pub enum BusWidth {
    Off,
    Single,
    Quad,
}

/// One quad-SPI transfer: instruction, optional address, dummy cycles, and the
/// widths of the instruction, address and data phases.
#[derive(Clone, Copy, Debug, PartialEq, Eq, Structural)]
pub struct Transfer {
    pub iwidth: BusWidth,
    pub awidth: BusWidth,
    pub dwidth: BusWidth,
    pub instruction: u8,
    pub address: Option<u32>,
    pub dummy_cycles: u8,
}

/// A modifying operation on the device.
#[derive(Clone, Copy, Debug, PartialEq, Eq, Structural)]
pub enum FlashOp {
    /// Switch the device to quad-wide instructions.
    EnterQpiMode,
    /// Overwrite the status register.
    WriteStatusRegister { value: u8 },
    /// Overwrite the read parameter register.
    SetReadParameters { value: u8 },
    /// Erase the sector holding `address`.
    EraseSector { address: u32 },
    /// Program `len` bytes, taken from the caller's data at `start`, at `address`.
    ProgramPage { address: u32, start: usize, len: usize },
}

// ---------------------------------------------------------------------------
// Plans of erase and write.

/// Number of sectors that the byte range `[address, address + length)` touches.
pub open spec fn sector_count(address: int, length: int) -> int {
    (address % SECTOR_SIZE as int + length + SECTOR_SIZE as int - 1) / SECTOR_SIZE as int
}

/// Address given to the `i`-th sector erase of an erase starting at `address`:
/// the address itself, then the starts of the following sectors, wrapping at
/// the end of the device.
pub open spec fn erase_target(address: int, i: int) -> int {
    if i == 0 {
        address
    } else {
        (address - address % SECTOR_SIZE as int + i * SECTOR_SIZE as int) % FLASH_SIZE as int
    }
}

/// The operations of an erase of `length` bytes from `address`.
pub open spec fn erase_plan(address: int, length: int) -> Seq<FlashOp> {
    Seq::new(
        sector_count(address, length) as nat,
        |i: int| FlashOp::EraseSector { address: erase_target(address, i) as u32 },
    )
}

/// Number of pages that the byte range `[address, address + length)` touches.
pub open spec fn page_count(address: int, length: int) -> int {
    (address % PAGE_SIZE as int + length + PAGE_SIZE as int - 1) / PAGE_SIZE as int
}

/// Offset into the data of the first byte of the `i`-th program command.
pub open spec fn chunk_start(address: int, i: int) -> int {
    if i == 0 {
        0
    } else {
        i * PAGE_SIZE as int - address % PAGE_SIZE as int
    }
}

/// Offset into the data just past the last byte of the `i`-th program command.
pub open spec fn chunk_end(address: int, length: int, i: int) -> int {
    let page_end = (i + 1) * PAGE_SIZE as int - address % PAGE_SIZE as int;
    if page_end < length {
        page_end
    } else {
        length
    }
}

/// The `i`-th program command of a write of `length` bytes at `address`.
pub open spec fn program_op(address: int, length: int, i: int) -> FlashOp {
    FlashOp::ProgramPage {
        address: (address + chunk_start(address, i)) as u32,
        start: chunk_start(address, i) as usize,
        len: (chunk_end(address, length, i) - chunk_start(address, i)) as usize,
    }
}

/// The program commands of a write of `length` bytes at `address`.
pub open spec fn program_plan(address: int, length: int) -> Seq<FlashOp> {
    Seq::new(page_count(address, length) as nat, |i: int| program_op(address, length, i))
}

/// The operations of a write: the erase of the range, then its page programs.
pub open spec fn write_plan(address: int, length: int) -> Seq<FlashOp> {
    erase_plan(address, length) + program_plan(address, length)
}

proof fn lemma_count_step(offset: int, length: int, i: int, unit: int)
    requires
        unit > 0,
        0 <= i,
        0 < offset + length - i * unit <= unit,
    ensures
        (offset + length + unit - 1) / unit == i + 1,
{
    assert((offset + length + unit - 1) / unit == i + 1) by (nonlinear_arith)
        requires
            unit > 0,
            0 <= i,
            0 < offset + length - i * unit <= unit,
    {
        let x = offset + length + unit - 1;
        assert(x >= (i + 1) * unit);
        assert(x < (i + 2) * unit);
    };
}

proof fn lemma_aligned_mod(base: int, i: int)
    requires
        base % SECTOR_SIZE as int == 0,
        0 <= base,
        0 <= i,
    ensures
        ((base + i * SECTOR_SIZE as int) % FLASH_SIZE as int) % SECTOR_SIZE as int == 0,
{
    let x = base + i * SECTOR_SIZE as int;
    vstd::arithmetic::div_mod::lemma_mod_multiples_vanish(i, base, SECTOR_SIZE as int);
    vstd::arithmetic::div_mod::lemma_mod_mod(x, SECTOR_SIZE as int, 2048);
    assert(SECTOR_SIZE as int * 2048 == FLASH_SIZE as int);
}

// ---------------------------------------------------------------------------
// Bus encoding.

/// The transfer that carries out `op`.
pub open spec fn op_transfer(op: FlashOp) -> Transfer {
    match op {
        FlashOp::EnterQpiMode => Transfer {
            iwidth: BusWidth::Single,
            awidth: BusWidth::Off,
            dwidth: BusWidth::Off,
            instruction: ENTER_QPI_MODE_CMD,
            address: Option::None,
            dummy_cycles: 0,
        },
        FlashOp::WriteStatusRegister { value } => Transfer {
            iwidth: BusWidth::Quad,
            awidth: BusWidth::Quad,
            dwidth: BusWidth::Off,
            instruction: WRITE_STATUS_REGISTER_CMD,
            address: Option::Some(value as u32),
            dummy_cycles: 0,
        },
        FlashOp::SetReadParameters { value } => Transfer {
            iwidth: BusWidth::Quad,
            awidth: BusWidth::Quad,
            dwidth: BusWidth::Off,
            instruction: SET_READ_PARAMETERS_CMD,
            address: Option::Some(value as u32),
            dummy_cycles: 0,
        },
        FlashOp::EraseSector { address } => Transfer {
            iwidth: BusWidth::Quad,
            awidth: BusWidth::Quad,
            dwidth: BusWidth::Off,
            instruction: SECTOR_ERASE_CMD,
            address: Option::Some(address),
            dummy_cycles: 0,
        },
        FlashOp::ProgramPage { address, .. } => Transfer {
            iwidth: BusWidth::Quad,
            awidth: BusWidth::Quad,
            dwidth: BusWidth::Quad,
            instruction: PAGE_PROGRAM_CMD,
            address: Option::Some(address),
            dummy_cycles: 0,
        },
    }
}

/// A quad-wide transfer with no data phase or dummy cycles, for `instruction`
/// with or without an address.
pub open spec fn quad_transfer(instruction: u8, address: Option<u32>, dwidth: BusWidth, dummy: u8) -> Transfer {
    Transfer {
        iwidth: BusWidth::Quad,
        awidth: if address is Some { BusWidth::Quad } else { BusWidth::Off },
        dwidth,
        instruction,
        address,
        dummy_cycles: dummy,
    }
}

/// One step on the bus.
#[derive(Clone, Copy, Debug, PartialEq, Eq, Structural)]
pub enum BusStep {
    /// A transfer without data.
    Command(Transfer),
    /// A transfer writing `len` bytes of the caller's data, from `start`.
    Program { transfer: Transfer, start: usize, len: usize },
    /// Read the status register until the write-in-progress bit is clear.
    PollUntilReady,
}

/// The write-enable command.
pub open spec fn write_enable_transfer() -> Transfer {
    quad_transfer(WRITE_ENABLE_CMD, Option::None, BusWidth::Off, 0)
}

/// The step that sends `op` itself.
pub open spec fn op_step(op: FlashOp) -> BusStep {
    match op {
        FlashOp::ProgramPage { start, len, .. } => BusStep::Program { transfer: op_transfer(op), start, len },
        _ => BusStep::Command(op_transfer(op)),
    }
}

// ---------------------------------------------------------------------------
// The device, as a sequence of `FLASH_SIZE` bytes.

/// Erasing sets every byte of the sector holding `address` to `0xFF`.
pub open spec fn erase_sector(mem: Seq<u8>, address: int) -> Seq<u8> {
    Seq::new(
        mem.len(),
        |j: int|
            if j / SECTOR_SIZE as int == address / SECTOR_SIZE as int {
                0xFFu8
            } else {
                mem[j]
            },
    )
}

/// Programming can only clear bits: each byte becomes the AND of its old value
/// and the byte written.
pub open spec fn program(mem: Seq<u8>, address: int, bytes: Seq<u8>) -> Seq<u8> {
    Seq::new(
        mem.len(),
        |j: int|
            if address <= j < address + bytes.len() {
                mem[j] & bytes[j - address]
            } else {
                mem[j]
            },
    )
}

/// The device after `op`, where program commands take their bytes from `data`.
pub open spec fn apply_op(mem: Seq<u8>, op: FlashOp, data: Seq<u8>) -> Seq<u8> {
    match op {
        FlashOp::EraseSector { address } => erase_sector(mem, address as int),
        FlashOp::ProgramPage { address, start, len } => program(
            mem,
            address as int,
            data.subrange(start as int, start + len),
        ),
        _ => mem,
    }
}

/// The device after the operations `ops`, in order.
pub open spec fn apply_ops(mem: Seq<u8>, ops: Seq<FlashOp>, data: Seq<u8>) -> Seq<u8>
    decreases ops.len(),
{
    if ops.len() == 0 {
        mem
    } else {
        apply_op(apply_ops(mem, ops.drop_last(), data), ops.last(), data)
    }
}

/// An operation the device accepts, with its bytes inside `data`: addresses
/// on the device, and a program command inside one page.
pub open spec fn op_fits(op: FlashOp, data_len: int) -> bool {
    match op {
        FlashOp::EraseSector { address } => address <= MAX_ADDRESS,
        FlashOp::ProgramPage { address, start, len } => {
            &&& start + len <= data_len
            &&& address % PAGE_SIZE + len <= PAGE_SIZE
            &&& address + len <= FLASH_SIZE
        },
        _ => true,
    }
}

// ---------------------------------------------------------------------------
// Laws of the plans.

proof fn lemma_apply_ops_len(mem: Seq<u8>, ops: Seq<FlashOp>, data: Seq<u8>)
    ensures
        apply_ops(mem, ops, data).len() == mem.len(),
    decreases ops.len(),
{
    if ops.len() > 0 {
        lemma_apply_ops_len(mem, ops.drop_last(), data);
    }
}

proof fn lemma_apply_ops_concat(mem: Seq<u8>, a: Seq<FlashOp>, b: Seq<FlashOp>, data: Seq<u8>)
    ensures
        apply_ops(mem, a + b, data) == apply_ops(apply_ops(mem, a, data), b, data),
    decreases b.len(),
{
    if b.len() == 0 {
        assert(a + b =~= a);
    } else {
        assert((a + b).drop_last() =~= a + b.drop_last());
        lemma_apply_ops_concat(mem, a, b.drop_last(), data);
    }
}

/// The first and the last sector touched by `[address, address + length)`
/// are `sector_count` sectors apart, counting both.
proof fn lemma_sector_span(address: int, length: int)
    requires
        0 <= address,
        0 < length,
    ensures
        sector_count(address, length) == (address + length - 1) / SECTOR_SIZE as int - address / SECTOR_SIZE as int + 1,
{
    let s = SECTOR_SIZE as int;
    let q = address / s;
    let r = address % s;
    vstd::arithmetic::div_mod::lemma_fundamental_div_mod(address, s);
    vstd::arithmetic::div_mod::lemma_hoist_over_denominator(r + length - 1, q, s as nat);
    vstd::arithmetic::div_mod::lemma_hoist_over_denominator(r + length - 1, 1, s as nat);
    assert(r + length - 1 + q * s == address + length - 1) by (nonlinear_arith)
        requires
            address == s * q + r,
    ;
}

/// Erase coverage: the sectors an erase of `length` bytes from `address`
/// targets are, in order, each sector from the one holding the first byte to
/// the one holding the last, once each.
pub proof fn lemma_erase_coverage(address: int, length: int)
    requires
        0 <= address,
        0 < length,
        address + length <= FLASH_SIZE,
    ensures
        erase_plan(address, length).len() == (address + length - 1) / SECTOR_SIZE as int
            - address / SECTOR_SIZE as int + 1,
        forall|i: int| 0 <= i < erase_plan(address, length).len() ==> {
            &&& 0 <= #[trigger] erase_target(address, i) <= MAX_ADDRESS
            &&& erase_target(address, i) / SECTOR_SIZE as int == address / SECTOR_SIZE as int + i
        },
{
    let s = SECTOR_SIZE as int;
    lemma_sector_span(address, length);
    vstd::arithmetic::div_mod::lemma_div_is_ordered(address + length - 1, FLASH_SIZE as int - 1, s);
    assert((FLASH_SIZE as int - 1) / s == 2047);
    vstd::arithmetic::div_mod::lemma_fundamental_div_mod(address, s);
    assert forall|i: int| 0 <= i < erase_plan(address, length).len() implies {
        &&& 0 <= #[trigger] erase_target(address, i) <= MAX_ADDRESS
        &&& erase_target(address, i) / s == address / s + i
    } by {
        lemma_erase_target_sector(address, length, i);
    }
}

proof fn lemma_erase_target_sector(address: int, length: int, i: int)
    requires
        0 <= address,
        0 < length,
        address + length <= FLASH_SIZE,
        0 <= i < sector_count(address, length),
    ensures
        0 <= erase_target(address, i) <= MAX_ADDRESS,
        erase_target(address, i) / SECTOR_SIZE as int == address / SECTOR_SIZE as int + i,
{
    let s = SECTOR_SIZE as int;
    let q = address / s;
    lemma_sector_span(address, length);
    vstd::arithmetic::div_mod::lemma_div_is_ordered(address + length - 1, FLASH_SIZE as int - 1, s);
    assert((FLASH_SIZE as int - 1) / s == 2047);
    vstd::arithmetic::div_mod::lemma_fundamental_div_mod(address, s);
    if i > 0 {
        let x = address - address % s + i * s;
        assert(x == (q + i) * s) by (nonlinear_arith)
            requires
                x == address - address % s + i * s,
                address == s * q + address % s,
        ;
        assert(0 <= x < FLASH_SIZE as int) by (nonlinear_arith)
            requires
                x == (q + i) * s,
                q + i <= 2047,
                0 <= q,
                0 < i,
                s == 4096,
        ;
        vstd::arithmetic::div_mod::lemma_small_mod(x as nat, FLASH_SIZE as nat);
        vstd::arithmetic::div_mod::lemma_div_by_multiple(q + i, s);
    } else {
        vstd::arithmetic::div_mod::lemma_div_is_ordered(address, address + length - 1, s);
        assert(address <= MAX_ADDRESS);
    }
}

/// `k * unit` stays below `x` for every `k` below `x / unit` rounded up.
proof fn lemma_below_count(x: int, k: int, unit: int)
    requires
        unit > 0,
        0 <= k,
        k < (x + unit - 1) / unit,
    ensures
        k * unit < x,
{
    vstd::arithmetic::div_mod::lemma_fundamental_div_mod(x + unit - 1, unit);
    assert(k * unit < x) by (nonlinear_arith)
        requires
            unit > 0,
            0 <= k,
            k < (x + unit - 1) / unit,
            x + unit - 1 == unit * ((x + unit - 1) / unit) + (x + unit - 1) % unit,
            (x + unit - 1) % unit < unit,
    ;
}

/// `x / unit` rounded up, times `unit`, reaches `x`.
proof fn lemma_count_reaches(x: int, unit: int)
    requires
        unit > 0,
        0 <= x,
    ensures
        (x + unit - 1) / unit * unit >= x,
{
    vstd::arithmetic::div_mod::lemma_fundamental_div_mod(x + unit - 1, unit);
    assert((x + unit - 1) / unit * unit >= x) by (nonlinear_arith)
        requires
            unit > 0,
            x + unit - 1 == unit * ((x + unit - 1) / unit) + (x + unit - 1) % unit,
            (x + unit - 1) % unit < unit,
    ;
}

/// Page safety: every program command of a write covers at least one byte,
/// stays inside one page, and the commands take the data in order, each
/// starting where the previous one ended, from its first to its last byte.
pub proof fn lemma_program_chunks(address: int, length: int)
    requires
        0 <= address,
        0 < length,
        address + length <= FLASH_SIZE,
    ensures
        program_plan(address, length).len() >= 1,
        chunk_start(address, 0) == 0,
        chunk_end(address, length, program_plan(address, length).len() - 1) == length,
        forall|i: int| 0 <= i < program_plan(address, length).len() ==> {
            &&& 0 <= chunk_start(address, i) < chunk_end(address, length, i) <= length
            &&& (address + chunk_start(address, i)) % PAGE_SIZE as int
                + chunk_end(address, length, i) - chunk_start(address, i) <= PAGE_SIZE as int
            &&& i + 1 < program_plan(address, length).len() ==>
                chunk_start(address, i + 1) == chunk_end(address, length, i)
        },
        forall|i: int| 0 <= i < program_plan(address, length).len() ==>
            op_fits(#[trigger] program_plan(address, length)[i], length),
{
    let p = PAGE_SIZE as int;
    let o = address % p;
    let m = page_count(address, length);
    vstd::arithmetic::div_mod::lemma_fundamental_div_mod(address, p);
    let q = address / p;
    lemma_count_reaches(o + length, p);
    assert(m >= 1) by {
        vstd::arithmetic::div_mod::lemma_div_is_ordered(p, o + length + p - 1, p);
    }
    lemma_below_count(o + length, m - 1, p);
    assert forall|i: int| 0 <= i < m implies {
        &&& 0 <= chunk_start(address, i) < chunk_end(address, length, i) <= length
        &&& (address + chunk_start(address, i)) % p + chunk_end(address, length, i) - chunk_start(address, i) <= p
        &&& i + 1 < m ==> chunk_start(address, i + 1) == chunk_end(address, length, i)
        &&& op_fits(program_plan(address, length)[i], length)
    } by {
        lemma_below_count(o + length, i, p);
        if i + 1 < m {
            lemma_below_count(o + length, i + 1, p);
        }
        if i > 0 {
            let a = address + chunk_start(address, i);
            assert(a == (q + i) * p) by (nonlinear_arith)
                requires
                    a == address + i * p - o,
                    address == p * q + o,
            ;
            vstd::arithmetic::div_mod::lemma_mod_multiples_basic(q + i, p);
        }
    }
}

/// Data offsets `[0, covered)` are programmed after the first `k` program
/// commands of a write.
pub open spec fn covered(address: int, length: int, k: int) -> int {
    if k == 0 {
        0
    } else {
        chunk_end(address, length, k - 1)
    }
}

proof fn lemma_ff_and(x: u8)
    ensures
        0xFFu8 & x == x,
{
    assert(0xFFu8 & x == x) by (bit_vector);
}

proof fn lemma_erase_prefix(mem: Seq<u8>, address: int, length: int, data: Seq<u8>, k: int)
    requires
        mem.len() == FLASH_SIZE,
        0 <= address,
        0 < length,
        address + length <= FLASH_SIZE,
        0 <= k <= sector_count(address, length),
    ensures
        apply_ops(mem, erase_plan(address, length).take(k), data).len() == FLASH_SIZE,
        forall|j: int|
            0 <= j < FLASH_SIZE && address / (SECTOR_SIZE as int) <= j / (SECTOR_SIZE as int)
                && j / (SECTOR_SIZE as int) < address / (SECTOR_SIZE as int) + k
                ==> #[trigger] apply_ops(mem, erase_plan(address, length).take(k), data)[j] == 0xFFu8,
    decreases k,
{
    let ops = erase_plan(address, length).take(k);
    lemma_apply_ops_len(mem, ops, data);
    if k > 0 {
        lemma_erase_prefix(mem, address, length, data, k - 1);
        assert(ops.drop_last() =~= erase_plan(address, length).take(k - 1));
        lemma_erase_target_sector(address, length, k - 1);
    }
}

proof fn lemma_program_prefix(mem: Seq<u8>, address: int, length: int, data: Seq<u8>, k: int)
    requires
        mem.len() == FLASH_SIZE,
        data.len() == length,
        0 <= address,
        0 < length,
        address + length <= FLASH_SIZE,
        0 <= k <= page_count(address, length),
        forall|j: int| address <= j < address + length ==> mem[j] == 0xFFu8,
    ensures
        apply_ops(mem, program_plan(address, length).take(k), data).len() == FLASH_SIZE,
        forall|j: int| address <= j < address + length ==>
            #[trigger] apply_ops(mem, program_plan(address, length).take(k), data)[j]
                == if j - address < covered(address, length, k) {
                data[j - address]
            } else {
                0xFFu8
            },
    decreases k,
{
    let ops = program_plan(address, length).take(k);
    lemma_apply_ops_len(mem, ops, data);
    if k > 0 {
        lemma_program_prefix(mem, address, length, data, k - 1);
        lemma_program_chunks(address, length);
        let prev = program_plan(address, length).take(k - 1);
        assert(ops.drop_last() =~= prev);
        let before = apply_ops(mem, prev, data);
        let start = chunk_start(address, k - 1);
        let end = chunk_end(address, length, k - 1);
        assert(covered(address, length, k - 1) == start);
        assert forall|j: int| address <= j < address + length implies
            #[trigger] apply_ops(mem, ops, data)[j] == if j - address < covered(address, length, k) {
                data[j - address]
            } else {
                0xFFu8
            } by {
            if address + start <= j < address + end {
                lemma_ff_and(data[j - address]);
            }
        }
    }
}

/// Round trip: on any device contents, the operations of a write of `data`
/// at `address` leave exactly `data` in `[address, address + data.len())`.
pub proof fn lemma_write_then_read(mem: Seq<u8>, address: int, data: Seq<u8>)
    requires
        mem.len() == FLASH_SIZE,
        0 <= address,
        data.len() > 0,
        address + data.len() <= FLASH_SIZE,
    ensures
        apply_ops(mem, write_plan(address, data.len() as int), data).subrange(
            address,
            address + data.len(),
        ) == data,
{
    let length = data.len() as int;
    let s = SECTOR_SIZE as int;
    let erases = erase_plan(address, length);
    let programs = program_plan(address, length);
    lemma_apply_ops_concat(mem, erases, programs, data);
    lemma_erase_prefix(mem, address, length, data, sector_count(address, length));
    assert(erases.take(sector_count(address, length)) =~= erases);
    let mid = apply_ops(mem, erases, data);
    lemma_sector_span(address, length);
    assert forall|j: int| address <= j < address + length implies mid[j] == 0xFFu8 by {
        vstd::arithmetic::div_mod::lemma_div_is_ordered(address, j, s);
        vstd::arithmetic::div_mod::lemma_div_is_ordered(j, address + length - 1, s);
    }
    lemma_program_prefix(mid, address, length, data, page_count(address, length));
    assert(programs.take(page_count(address, length)) =~= programs);
    lemma_program_chunks(address, length);
    let fin = apply_ops(mid, programs, data);
    assert(fin.subrange(address, address + length) =~= data);
}

/// Unit type of the flash command protocol.
pub struct Flash;

impl Flash {
    /// The sector erases covering `length` bytes from `address`: the first at
    /// `address`, each next one at the start of the following sector, wrapping
    /// at the end of the device.
    pub fn erase(address: u32, length: u32) -> (ops: Vec<FlashOp>)
        requires
            address <= MAX_ADDRESS,
            length > 0,
        ensures
            ops@ == erase_plan(address as int, length as int),
    {
        let mut ops: Vec<FlashOp> = Vec::new();
        let mut cur: u32 = address;
        let mut remaining: u32 = length;
        let ghost base = address as int - address as int % SECTOR_SIZE as int;
        proof {
            vstd::arithmetic::div_mod::lemma_fundamental_div_mod(address as int, SECTOR_SIZE as int);
            vstd::arithmetic::div_mod::lemma_mod_multiples_basic(address as int / SECTOR_SIZE as int, SECTOR_SIZE as int);
        }
        loop
            invariant
                address <= MAX_ADDRESS,
                base == address as int - address as int % SECTOR_SIZE as int,
                base % SECTOR_SIZE as int == 0,
                0 <= base,
                cur <= MAX_ADDRESS,
                cur == erase_target(address as int, ops@.len() as int),
                ops@.len() == 0 ==> remaining == length,
                ops@.len() > 0 ==> remaining + ops@.len() * SECTOR_SIZE == length + address % SECTOR_SIZE,
                ops@.len() > 0 ==> cur % SECTOR_SIZE == 0,
                remaining > 0,
                forall|j: int| 0 <= j < ops@.len() ==>
                    ops@[j] == (FlashOp::EraseSector { address: erase_target(address as int, j) as u32 }),
            decreases remaining,
        {
            let ghost i = ops@.len() as int;
            ops.push(FlashOp::EraseSector { address: cur });
            let sector_remainder = SECTOR_SIZE - cur % SECTOR_SIZE;
            if remaining <= sector_remainder {
                proof {
                    lemma_count_step(address as int % SECTOR_SIZE as int, length as int, i, SECTOR_SIZE as int);
                }
                assert(ops@ =~= erase_plan(address as int, length as int));
                return ops;
            }
            remaining = remaining - sector_remainder;
            proof {
                if i == 0 {
                    assert(cur + sector_remainder == base + SECTOR_SIZE);
                } else {
                    vstd::arithmetic::div_mod::lemma_add_mod_noop(
                        base + i * SECTOR_SIZE as int,
                        SECTOR_SIZE as int,
                        FLASH_SIZE as int,
                    );
                    assert(SECTOR_SIZE as int % FLASH_SIZE as int == SECTOR_SIZE as int);
                    assert(base + i * SECTOR_SIZE as int + SECTOR_SIZE as int == base + (i + 1) * SECTOR_SIZE as int);
                }
                lemma_aligned_mod(base, i + 1);
            }
            cur = (cur + sector_remainder) % FLASH_SIZE;
        }
    }

    /// The operations of writing `data` at `address`: the erase of every sector
    /// the range touches, then one page program per page the range touches, in
    /// address order, none crossing a page boundary.
    pub fn write(address: u32, data: &[u8]) -> (ops: Vec<FlashOp>)
        requires
            data@.len() > 0,
            address + data@.len() - 1 <= MAX_ADDRESS,
        ensures
            ops@ == write_plan(address as int, data@.len() as int),
    {
        let length = data.len() as u32;
        let mut ops = Flash::erase(address, length);
        let ghost erases = ops@;
        let ghost offset = address as int % PAGE_SIZE as int;
        let mut cur: u32 = address;
        let mut start: usize = 0;
        let mut remaining: u32 = length;
        let mut i: usize = 0;
        proof {
            vstd::arithmetic::div_mod::lemma_fundamental_div_mod(address as int, PAGE_SIZE as int);
        }
        loop
            invariant
                address + length - 1 <= MAX_ADDRESS,
                length == data@.len(),
                address == (address as int / PAGE_SIZE as int) * PAGE_SIZE as int + offset,
                offset == address as int % PAGE_SIZE as int,
                erases == erase_plan(address as int, length as int),
                ops@.len() == erases.len() + i,
                ops@.subrange(0, erases.len() as int) == erases,
                forall|j: int| 0 <= j < i ==>
                    ops@[erases.len() + j] == program_op(address as int, length as int, j),
                start == chunk_start(address as int, i as int),
                cur == address + start,
                remaining == length - start,
                remaining > 0,
                i > 0 ==> cur as int % PAGE_SIZE as int == 0,
                i <= length,
            decreases remaining,
        {
            let page_remainder = PAGE_SIZE - cur % PAGE_SIZE;
            let size: u32 = if page_remainder < remaining { page_remainder } else { remaining };
            let ghost before = ops@;
            ops.push(FlashOp::ProgramPage { address: cur, start, len: size as usize });
            proof {
                assert(ops@.subrange(0, erases.len() as int) =~= before.subrange(0, erases.len() as int));
                assert(ops@[erases.len() + i] == program_op(address as int, length as int, i as int));
            }
            if remaining <= page_remainder {
                proof {
                    lemma_count_step(offset, length as int, i as int, PAGE_SIZE as int);
                    assert(ops@ =~= write_plan(address as int, length as int));
                }
                return ops;
            }
            remaining = remaining - page_remainder;
            start = start + page_remainder as usize;
            cur = cur + page_remainder;
            proof {
                let q = address as int / PAGE_SIZE as int;
                assert(cur == (q + i + 1) * PAGE_SIZE as int) by (nonlinear_arith)
                    requires
                        cur == address + chunk_start(address as int, i as int + 1),
                        chunk_start(address as int, i as int + 1) == (i + 1) * PAGE_SIZE as int - offset,
                        address == q * PAGE_SIZE as int + offset,
                ;
                vstd::arithmetic::div_mod::lemma_mod_multiples_basic(q + i + 1, PAGE_SIZE as int);
            }
            i = i + 1;
        }
    }

    /// Operations bringing the device into the driver's mode after power-up:
    /// quad instructions, then the default status and read parameter registers.
    pub fn init() -> (ops: Vec<FlashOp>)
        ensures
            ops@ == seq![
                FlashOp::EnterQpiMode,
                FlashOp::WriteStatusRegister { value: DEFAULT_STATUS },
                FlashOp::SetReadParameters { value: DEFAULT_READ_PARAMETERS },
            ],
    {
        let mut ops: Vec<FlashOp> = Vec::new();
        ops.push(FlashOp::EnterQpiMode);
        ops.push(FlashOp::WriteStatusRegister { value: DEFAULT_STATUS });
        ops.push(FlashOp::SetReadParameters { value: DEFAULT_READ_PARAMETERS });
        assert(ops@ =~= seq![
            FlashOp::EnterQpiMode,
            FlashOp::WriteStatusRegister { value: DEFAULT_STATUS },
            FlashOp::SetReadParameters { value: DEFAULT_READ_PARAMETERS },
        ]);
        ops
    }

    /// The transfer reading `length` bytes from `address`.
    pub fn read(address: u32, length: usize) -> (t: Transfer)
        requires
            address <= MAX_ADDRESS,
            address + length <= FLASH_SIZE,
        ensures
            t == quad_transfer(FAST_READ_QUAD_IO_CMD, Option::Some(address), BusWidth::Quad, READ_DUMMY_CYCLES),
    {
        Transfer {
            iwidth: BusWidth::Quad,
            awidth: BusWidth::Quad,
            dwidth: BusWidth::Quad,
            instruction: FAST_READ_QUAD_IO_CMD,
            address: Some(address),
            dummy_cycles: READ_DUMMY_CYCLES,
        }
    }

    /// The transfer reading the `UUID_LENGTH`-byte factory identifier.
    pub fn read_uuid() -> (t: Transfer)
        ensures
            t == quad_transfer(READ_UNIQUE_ID_CMD, Option::Some(0u32), BusWidth::Quad, READ_DUMMY_CYCLES),
    {
        Transfer {
            iwidth: BusWidth::Quad,
            awidth: BusWidth::Quad,
            dwidth: BusWidth::Quad,
            instruction: READ_UNIQUE_ID_CMD,
            address: Some(0),
            dummy_cycles: READ_DUMMY_CYCLES,
        }
    }

    /// The write-enable command that precedes every modifying operation.
    pub fn enable_write() -> (t: Transfer)
        ensures
            t == quad_transfer(WRITE_ENABLE_CMD, Option::None, BusWidth::Off, 0),
    {
        Transfer {
            iwidth: BusWidth::Quad,
            awidth: BusWidth::Off,
            dwidth: BusWidth::Off,
            instruction: WRITE_ENABLE_CMD,
            address: None,
            dummy_cycles: 0,
        }
    }

    /// The one-byte status register read that polling repeats.
    pub fn read_status() -> (t: Transfer)
        ensures
            t == quad_transfer(READ_STATUS_REGISTER_CMD, Option::None, BusWidth::Quad, 0),
    {
        Transfer {
            iwidth: BusWidth::Quad,
            awidth: BusWidth::Off,
            dwidth: BusWidth::Quad,
            instruction: READ_STATUS_REGISTER_CMD,
            address: None,
            dummy_cycles: 0,
        }
    }

    /// The bus steps that carry out `ops`, in order: for each operation a
    /// write enable, the operation's own transfer, then polling until the
    /// device is ready.
    pub fn bus_sequence(ops: &Vec<FlashOp>) -> (steps: Vec<BusStep>)
        ensures
            steps@.len() == 3 * ops@.len(),
            forall|k: int| 0 <= k < ops@.len() ==> {
                &&& steps@[3 * k] == BusStep::Command(write_enable_transfer())
                &&& steps@[3 * k + 1] == op_step(#[trigger] ops@[k])
                &&& steps@[3 * k + 2] == BusStep::PollUntilReady
            },
    {
        let mut steps: Vec<BusStep> = Vec::new();
        let mut i: usize = 0;
        while i < ops.len()
            invariant
                i <= ops@.len(),
                steps@.len() == 3 * i,
                forall|k: int| 0 <= k < i ==> {
                    &&& steps@[3 * k] == BusStep::Command(write_enable_transfer())
                    &&& steps@[3 * k + 1] == op_step(#[trigger] ops@[k])
                    &&& steps@[3 * k + 2] == BusStep::PollUntilReady
                },
            decreases ops@.len() - i,
        {
            let op = ops[i];
            let transfer = op.transfer();
            let step = match op {
                FlashOp::ProgramPage { start, len, .. } => BusStep::Program { transfer, start, len },
                _ => BusStep::Command(transfer),
            };
            steps.push(BusStep::Command(Flash::enable_write()));
            steps.push(step);
            steps.push(BusStep::PollUntilReady);
            i = i + 1;
        }
        steps
    }

    /// Whether a status register value shows the device ready: polling after
    /// a modifying operation stops at the first such value.
    pub fn is_ready(status: u8) -> (r: bool)
        ensures
            r == (status & WRITE_IN_PROGRESS == 0),
    {
        status & WRITE_IN_PROGRESS == 0
    }
}

impl FlashOp {
    /// The bus transfer that carries out this operation.
    pub fn transfer(&self) -> (t: Transfer)
        ensures
            t == op_transfer(*self),
    {
        match *self {
            FlashOp::EnterQpiMode => Transfer {
                iwidth: BusWidth::Single,
                awidth: BusWidth::Off,
                dwidth: BusWidth::Off,
                instruction: ENTER_QPI_MODE_CMD,
                address: None,
                dummy_cycles: 0,
            },
            FlashOp::WriteStatusRegister { value } => Transfer {
                iwidth: BusWidth::Quad,
                awidth: BusWidth::Quad,
                dwidth: BusWidth::Off,
                instruction: WRITE_STATUS_REGISTER_CMD,
                address: Some(value as u32),
                dummy_cycles: 0,
            },
            FlashOp::SetReadParameters { value } => Transfer {
                iwidth: BusWidth::Quad,
                awidth: BusWidth::Quad,
                dwidth: BusWidth::Off,
                instruction: SET_READ_PARAMETERS_CMD,
                address: Some(value as u32),
                dummy_cycles: 0,
            },
            FlashOp::EraseSector { address } => Transfer {
                iwidth: BusWidth::Quad,
                awidth: BusWidth::Quad,
                dwidth: BusWidth::Off,
                instruction: SECTOR_ERASE_CMD,
                address: Some(address),
                dummy_cycles: 0,
            },
            FlashOp::ProgramPage { address, .. } => Transfer {
                iwidth: BusWidth::Quad,
                awidth: BusWidth::Quad,
                dwidth: BusWidth::Quad,
                instruction: PAGE_PROGRAM_CMD,
                address: Some(address),
                dummy_cycles: 0,
            },
        }
    }
}

/// An in-memory device that carries out operations as the chip does: the
/// contents a plan is checked against.
pub struct FlashImage {
    bytes: Vec<u8>,
}

impl View for FlashImage {
    type V = Seq<u8>;

    closed spec fn view(&self) -> Seq<u8> {
        self.bytes@
    }
}

impl FlashImage {
    /// A device whose every byte holds `fill`.
    pub fn filled(fill: u8) -> (r: FlashImage)
        ensures
            r@ == Seq::new(FLASH_SIZE as nat, |_j: int| fill),
    {
        let mut bytes: Vec<u8> = Vec::new();
        while bytes.len() < FLASH_SIZE as usize
            invariant
                bytes@.len() <= FLASH_SIZE,
                forall|j: int| 0 <= j < bytes@.len() ==> bytes@[j] == fill,
            decreases FLASH_SIZE - bytes@.len(),
        {
            bytes.push(fill);
        }
        let r = FlashImage { bytes };
        assert(r@ =~= Seq::new(FLASH_SIZE as nat, |_j: int| fill));
        r
    }

    /// Carries out `op`, whose program bytes come from `data`.
    pub fn apply(&mut self, op: &FlashOp, data: &[u8])
        requires
            old(self)@.len() == FLASH_SIZE,
            op_fits(*op, data@.len() as int),
        ensures
            final(self)@ == apply_op(old(self)@, *op, data@),
    {
        match *op {
            FlashOp::EraseSector { address } => {
                let first = address - address % SECTOR_SIZE;
                let mut k: u32 = 0;
                while k < SECTOR_SIZE
                    invariant
                        self@.len() == FLASH_SIZE,
                        first == address - address % SECTOR_SIZE,
                        address <= MAX_ADDRESS,
                        k <= SECTOR_SIZE,
                        forall|j: int| 0 <= j < FLASH_SIZE ==> #[trigger] self@[j] == if first <= j < first + k {
                            0xFFu8
                        } else {
                            old(self)@[j]
                        },
                    decreases SECTOR_SIZE - k,
                {
                    proof {
                        vstd::arithmetic::div_mod::lemma_fundamental_div_mod(address as int, SECTOR_SIZE as int);
                        assert((address as int / SECTOR_SIZE as int) <= 2047) by {
                            vstd::arithmetic::div_mod::lemma_div_is_ordered(address as int, MAX_ADDRESS as int, SECTOR_SIZE as int);
                        }
                    }
                    self.bytes.set((first + k) as usize, 0xFF);
                    k = k + 1;
                }
                proof {
                    vstd::arithmetic::div_mod::lemma_fundamental_div_mod(address as int, SECTOR_SIZE as int);
                    let target = apply_op(old(self)@, *op, data@);
                    assert forall|j: int| 0 <= j < FLASH_SIZE implies #[trigger] self@[j] == target[j] by {
                        vstd::arithmetic::div_mod::lemma_fundamental_div_mod(j, SECTOR_SIZE as int);
                    }
                }
                assert(self@ =~= apply_op(old(self)@, *op, data@));
            },
            FlashOp::ProgramPage { address, start, len } => {
                let mut k: usize = 0;
                while k < len
                    invariant
                        self@.len() == FLASH_SIZE,
                        op_fits(*op, data@.len() as int),
                        *op == (FlashOp::ProgramPage { address, start, len }),
                        start + len <= data@.len(),
                        address + len <= FLASH_SIZE,
                        k <= len,
                        forall|j: int| 0 <= j < FLASH_SIZE ==> #[trigger] self@[j] == if address <= j < address + k {
                            old(self)@[j] & data@[start + j - address]
                        } else {
                            old(self)@[j]
                        },
                    decreases len - k,
                {
                    let data_len = data.len();
                    assert(start + k < data_len);
                    let at = address as usize + k;
                    let b = self.bytes[at] & data[start + k];
                    self.bytes.set(at, b);
                    k = k + 1;
                }
                assert(self@ =~= apply_op(old(self)@, *op, data@));
            },
            _ => {},
        }
    }

    /// Carries out `ops` in order, program bytes coming from `data`.
    pub fn run(&mut self, ops: &Vec<FlashOp>, data: &[u8])
        requires
            old(self)@.len() == FLASH_SIZE,
            forall|i: int| 0 <= i < ops@.len() ==> op_fits(#[trigger] ops@[i], data@.len() as int),
        ensures
            final(self)@ == apply_ops(old(self)@, ops@, data@),
    {
        let mut i: usize = 0;
        while i < ops.len()
            invariant
                i <= ops@.len(),
                forall|i: int| 0 <= i < ops@.len() ==> op_fits(#[trigger] ops@[i], data@.len() as int),
                self@ == apply_ops(old(self)@, ops@.take(i as int), data@),
                self@.len() == FLASH_SIZE,
            decreases ops@.len() - i,
        {
            self.apply(&ops[i], data);
            proof {
                assert(ops@.take(i + 1).drop_last() =~= ops@.take(i as int));
                lemma_apply_ops_len(old(self)@, ops@.take(i + 1), data@);
            }
            i = i + 1;
        }
        assert(ops@.take(ops@.len() as int) =~= ops@);
    }

    /// The `length` bytes stored from `address`.
    pub fn read(&self, address: u32, length: usize) -> (r: Vec<u8>)
        requires
            self@.len() == FLASH_SIZE,
            address + length <= FLASH_SIZE,
        ensures
            r@ == self@.subrange(address as int, address + length),
    {
        let mut r: Vec<u8> = Vec::new();
        let mut k: usize = 0;
        while k < length
            invariant
                self@.len() == FLASH_SIZE,
                address + length <= FLASH_SIZE,
                k <= length,
                r@ == self@.subrange(address as int, address + k),
            decreases length - k,
        {
            r.push(self.bytes[address as usize + k]);
            k = k + 1;
            assert(r@ =~= self@.subrange(address as int, address + k));
        }
        r
    }
}

} // verus!
