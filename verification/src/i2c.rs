//! The path from the RTL2832U to the tuner: the I2C repeater, and the
//! system block's I2C master (clock, control, status and FIFO registers).
use vstd::prelude::*;
use crate::constants::{
    BLOCK_SYSB, I2CMCR_CS, I2CMCR_MRCIE, I2CMCR_MTCIE, I2CMCR_RWL_MASK, I2CMCR_RWL_SHIFT,
    I2CMCR_TEIE, I2CMCR_TOR_DEFAULT, I2CMCR_TORE, I2CMSR_ALL_FLAGS, I2CMSR_MRCIF, I2CMSR_MTCIF,
    I2CMSR_TEIF, I2CMFR_TDD_MASK, SYS_I2CCR, SYS_I2CCR_FD10_10MHZ, SYS_I2CCR_FD10_MASK, SYS_I2CMCR,
    SYS_I2CMFR, SYS_I2CMSR, TUNER_I2C_ADDR,
};
use crate::regs::{
    apply_writes, block_read_index, block_write, demod_read_index, demod_value,
    demod_write_index, read_byte_result, requests_of, rtl_get_demod_reg, rtl_read_reg,
    rtl_set_demod_reg, rtl_write_reg, RegWrite,
};
use crate::usb::{
    added, extends, is_vendor_read, is_vendor_write, lemma_extends_push, lemma_extends_refl, lemma_extends_trans,
    ran_writes, ran_writes_then, read_modify_write_ran, ControlTransfer, OutRequest, RtlDevice,
};

verus! {

/// After a transfer `t` made from `before` to `mid`, and more transfers
/// from `mid` to `after`, the transfers added since `before` are `t`
/// followed by those added since `mid`.
proof fn lemma_first_then_rest(
    before: Seq<ControlTransfer>,
    mid: Seq<ControlTransfer>,
    after: Seq<ControlTransfer>,
)
    requires
        mid.len() == before.len() + 1,
        mid.drop_last() == before,
        extends(mid, after),
    ensures
        extends(before, after),
        added(before, after).len() >= 1,
        added(before, after)[0] == mid.last(),
        added(before, after).skip(1) == added(mid, after),
{
    assert(mid == before.push(mid.last()));
    lemma_extends_push(before, mid.last());
    lemma_extends_trans(before, mid, after);
    assert(added(before, after).skip(1) =~= added(mid, after));
}

// ---------------------------------------------------------------------
// I2C repeater
// ---------------------------------------------------------------------

/// The IIC_repeat register byte after switching the repeater: bit 3 set to
/// enable, cleared to disable.
pub open spec fn iic_repeat_byte(current: u8, enable: bool) -> u8 {
    if enable {
        current | 0x08u8
    } else {
        current & 0xf7u8
    }
}

/// Switching the repeater sets bit 3 as asked and keeps every other bit.
pub proof fn lemma_iic_repeat_byte(current: u8, enable: bool)
    ensures
        iic_repeat_byte(current, enable) & 0x08u8 == (if enable { 0x08u8 } else { 0u8 }),
        iic_repeat_byte(current, enable) & 0xf7u8 == current & 0xf7u8,
{
    assert((current | 0x08u8) & 0x08u8 == 0x08u8) by (bit_vector);
    assert((current & 0xf7u8) & 0x08u8 == 0u8) by (bit_vector);
    assert((current | 0x08u8) & 0xf7u8 == current & 0xf7u8) by (bit_vector);
    assert((current & 0xf7u8) & 0xf7u8 == current & 0xf7u8) by (bit_vector);
}

/// The write of the IIC_repeat byte (page 1, offset 0x01).
pub open spec fn iic_repeat_write(byte: u8) -> OutRequest {
    OutRequest { value: demod_value(0x0001), index: demod_write_index(1), data: seq![byte] }
}

/// Enables or disables the I2C repeater towards the tuner: reads page 1
/// offset 0x01, then writes it back with bit 3 switched. Short transfers
/// still count as done.
pub fn set_iic_repeat(dev: &mut RtlDevice, enable: bool) -> (result: Result<(), rusb::Error>)
    ensures
        final(dev).endpoint_ops() == old(dev).endpoint_ops(),
        extends(old(dev).transfers(), final(dev).transfers()),
        read_modify_write_ran(
            added(old(dev).transfers(), final(dev).transfers()),
            demod_value(0x0001),
            demod_read_index(1),
            |current: u8| seq![iic_repeat_write(iic_repeat_byte(current, enable))],
            result,
        ),
{
    let ghost before = dev.transfers();
    let mut buf: Vec<u8> = vec![0u8];
    let n = rtl_get_demod_reg(dev, 1, 0x0001, buf.as_mut_slice());
    let ghost mid = dev.transfers();
    proof {
        assert(mid.drop_last() =~= before);
    }
    if let Err(e) = n {
        proof {
            lemma_extends_refl(mid);
            lemma_first_then_rest(before, mid, mid);
        }
        return Err(e);
    }
    let mut val = buf[0];
    if enable {
        val = val | 0x08u8;
    } else {
        val = val & 0xf7u8;
    }
    let data: Vec<u8> = vec![val];
    let written = rtl_set_demod_reg(dev, 1, 0x0001, data.as_slice());
    proof {
        lemma_extends_push(mid, dev.transfers().last());
        lemma_first_then_rest(before, mid, dev.transfers());
        assert(data@ =~= seq![val]);
    }
    match written {
        Ok(_) => Ok(()),
        Err(e) => Err(e),
    }
}

// ---------------------------------------------------------------------
// I2C clock register (I2CCR)
// ---------------------------------------------------------------------

/// Reads the FD10 divisor: the low six bits of SYS_I2CCR.
pub fn read_sys_i2c_clock_fd10(dev: &mut RtlDevice) -> (result: Result<u8, rusb::Error>)
    ensures
        final(dev).endpoint_ops() == old(dev).endpoint_ops(),
        extends(old(dev).transfers(), final(dev).transfers()),
        ({
            let ops = added(old(dev).transfers(), final(dev).transfers());
            &&& ops.len() == 1
            &&& is_vendor_read(ops[0], SYS_I2CCR, block_read_index(BLOCK_SYSB), 1)
            &&& result == match ops[0].outcome {
                Ok(_) => Ok::<u8, rusb::Error>(ops[0].data[0] & SYS_I2CCR_FD10_MASK),
                Err(e) => Err(e),
            }
        }),
{
    let mut buf: Vec<u8> = vec![0u8];
    let n = rtl_read_reg(dev, BLOCK_SYSB, SYS_I2CCR, buf.as_mut_slice());
    proof {
        lemma_extends_push(old(dev).transfers(), dev.transfers().last());
    }
    match n {
        Ok(_) => Ok(buf[0] & SYS_I2CCR_FD10_MASK),
        Err(e) => Err(e),
    }
}

/// The FD10 value written for a requested divisor: its low six bits, with
/// the forbidden divisor 0 replaced by 1.
pub open spec fn fd10_field(fd10: u8) -> u8 {
    if fd10 & SYS_I2CCR_FD10_MASK == 0 {
        1
    } else {
        fd10 & SYS_I2CCR_FD10_MASK
    }
}

/// The I2CCR low byte after setting FD10: bits 7:6 as they were, bits 5:0
/// the divisor.
pub open spec fn i2ccr_byte(current: u8, fd10: u8) -> u8 {
    (current & 0xc0u8) | fd10_field(fd10)
}

/// Setting FD10 writes the divisor into bits 5:0, never 0, and keeps bits
/// 7:6.
pub proof fn lemma_i2ccr_byte(current: u8, fd10: u8)
    ensures
        i2ccr_byte(current, fd10) & 0x3fu8 == fd10_field(fd10),
        i2ccr_byte(current, fd10) & 0x3fu8 != 0,
        i2ccr_byte(current, fd10) & 0xc0u8 == current & 0xc0u8,
        fd10 & 0x3fu8 != 0 ==> i2ccr_byte(current, fd10) & 0x3fu8 == fd10 & 0x3fu8,
{
    let f = fd10_field(fd10);
    assert(f <= 0x3f && f != 0) by {
        assert(fd10 & 0x3fu8 <= 0x3f) by (bit_vector);
    }
    assert(((current & 0xc0u8) | f) & 0x3fu8 == f) by (bit_vector)
        requires
            f <= 0x3f,
    ;
    assert(((current & 0xc0u8) | f) & 0xc0u8 == current & 0xc0u8) by (bit_vector)
        requires
            f <= 0x3f,
    ;
}

/// The write of the I2CCR low byte.
pub open spec fn i2ccr_write(byte: u8) -> OutRequest {
    block_write(BLOCK_SYSB, SYS_I2CCR, byte as u16, 1)
}

/// Sets FD10 in SYS_I2CCR by a read-modify-write of its low byte, keeping
/// the reserved bits. The divisor 0 is forbidden; 1 is written instead.
pub fn write_sys_i2c_clock_fd10(dev: &mut RtlDevice, fd10: u8) -> (result: Result<(), rusb::Error>)
    ensures
        final(dev).endpoint_ops() == old(dev).endpoint_ops(),
        extends(old(dev).transfers(), final(dev).transfers()),
        read_modify_write_ran(
            added(old(dev).transfers(), final(dev).transfers()),
            SYS_I2CCR,
            block_read_index(BLOCK_SYSB),
            |current: u8| seq![i2ccr_write(i2ccr_byte(current, fd10))],
            result,
        ),
{
    let mut fd = fd10 & SYS_I2CCR_FD10_MASK;
    if fd == 0 {
        fd = 1;
    }
    let ghost before = dev.transfers();
    let mut buf: Vec<u8> = vec![0u8];
    let n = rtl_read_reg(dev, BLOCK_SYSB, SYS_I2CCR, buf.as_mut_slice());
    let ghost mid = dev.transfers();
    proof {
        assert(mid.drop_last() =~= before);
    }
    if let Err(e) = n {
        proof {
            lemma_extends_refl(mid);
            lemma_first_then_rest(before, mid, mid);
        }
        return Err(e);
    }
    let current = buf[0];
    let new_val: u8 = (current & 0xc0u8) | fd;
    let r = rtl_write_reg(dev, BLOCK_SYSB, SYS_I2CCR, new_val as u16, 1);
    proof {
        lemma_extends_push(mid, dev.transfers().last());
        lemma_first_then_rest(before, mid, dev.transfers());
        assert(dev.transfers() == mid.push(dev.transfers().last()));
    }
    r
}

/// Sets the I2C clock divisor to the datasheet's 10 MHz value (FD10 = 0x13).
pub fn set_sys_i2c_clock_10mhz(dev: &mut RtlDevice) -> (result: Result<(), rusb::Error>)
    ensures
        final(dev).endpoint_ops() == old(dev).endpoint_ops(),
        extends(old(dev).transfers(), final(dev).transfers()),
        read_modify_write_ran(
            added(old(dev).transfers(), final(dev).transfers()),
            SYS_I2CCR,
            block_read_index(BLOCK_SYSB),
            |current: u8| seq![i2ccr_write(i2ccr_byte(current, SYS_I2CCR_FD10_10MHZ))],
            result,
        ),
{
    write_sys_i2c_clock_fd10(dev, SYS_I2CCR_FD10_10MHZ)
}

// ---------------------------------------------------------------------
// I2C master control register (I2CMCR)
// ---------------------------------------------------------------------

/// I2CMCR for single-shot transfers: time-out enabled with the reset
/// time-out value, the three interrupt flags enabled, every other field 0.
pub open spec fn mcr_simple_value() -> u32 {
    I2CMCR_TORE | I2CMCR_TOR_DEFAULT | I2CMCR_TEIE | I2CMCR_MRCIE | I2CMCR_MTCIE
}

/// The two 16-bit writes that store `v` in I2CMCR: low half at 0x3044,
/// high half at 0x3046.
pub open spec fn mcr_write_plan(v: u32) -> Seq<OutRequest> {
    seq![
        block_write(BLOCK_SYSB, SYS_I2CMCR, (v % 65536) as u16, 2),
        block_write(BLOCK_SYSB, (SYS_I2CMCR + 2) as u16, (v / 65536) as u16, 2),
    ]
}

/// The single-shot value is 0x013a_0007, and its two halves give it back.
pub proof fn lemma_mcr_simple_value()
    ensures
        mcr_simple_value() == 0x013a_0007u32,
        (mcr_simple_value() / 65536) * 65536 + mcr_simple_value() % 65536 == mcr_simple_value(),
{
    assert(0x0100_0000u32 | 0x003A_0000u32 | 0x0000_0004u32 | 0x0000_0002u32 | 0x0000_0001u32
        == 0x013a_0007u32) by (bit_vector);
}

fn mcr_halves(dev: &mut RtlDevice, v: u32) -> (result: Result<(), rusb::Error>)
    ensures
        final(dev).endpoint_ops() == old(dev).endpoint_ops(),
        extends(old(dev).transfers(), final(dev).transfers()),
        ran_writes(added(old(dev).transfers(), final(dev).transfers()), mcr_write_plan(v), result),
{
    let low: u16 = (v % 65536) as u16;
    let high: u16 = (v / 65536) as u16;
    let mut plan: Vec<RegWrite> = Vec::new();
    plan.push(RegWrite::Block { block: BLOCK_SYSB, addr: SYS_I2CMCR, val: low, len: 2 });
    plan.push(RegWrite::Block { block: BLOCK_SYSB, addr: SYS_I2CMCR + 2, val: high, len: 2 });
    proof {
        assert(requests_of(plan@) =~= mcr_write_plan(v));
    }
    apply_writes(dev, &plan)
}

/// Sets I2CMCR up for simple single-shot transfers: no repeat starts, ACK
/// checks on, default time-out, interrupt flags enabled, not started.
pub fn init_sys_i2c_master_simple(dev: &mut RtlDevice) -> (result: Result<(), rusb::Error>)
    ensures
        final(dev).endpoint_ops() == old(dev).endpoint_ops(),
        extends(old(dev).transfers(), final(dev).transfers()),
        ran_writes(
            added(old(dev).transfers(), final(dev).transfers()),
            mcr_write_plan(mcr_simple_value()),
            result,
        ),
{
    let val: u32 = I2CMCR_TORE | I2CMCR_TOR_DEFAULT | I2CMCR_TEIE | I2CMCR_MRCIE | I2CMCR_MTCIE;
    mcr_halves(dev, val)
}

/// I2CMCR after starting a transfer of `len` data bytes: the RWL field
/// (bits 29:25) holds `len - 1`, CS (bit 30) is set, the rest is kept.
pub open spec fn mcr_start_value(current: u32, len: u32) -> u32 {
    ((current & !I2CMCR_RWL_MASK) | ((((len - 1) as u32) & 0x1fu32) << I2CMCR_RWL_SHIFT)
        & I2CMCR_RWL_MASK) | I2CMCR_CS
}

/// Starting a transfer of 1 to 24 bytes stores `len - 1` in RWL, sets CS,
/// and keeps every bit outside those two fields.
pub proof fn lemma_mcr_start_value(current: u32, len: u32)
    requires
        1 <= len <= 24,
    ensures
        (mcr_start_value(current, len) & 0x3e00_0000u32) >> 25u32 == len - 1,
        mcr_start_value(current, len) & 0x4000_0000u32 == 0x4000_0000u32,
        mcr_start_value(current, len) & 0x81ff_ffffu32 == current & 0x81ff_ffffu32,
{
    let l = (len - 1) as u32;
    assert(l < 24);
    assert(((((current & !0x3e00_0000u32) | ((l & 0x1fu32) << 25u32) & 0x3e00_0000u32)
        | 0x4000_0000u32) & 0x3e00_0000u32) >> 25u32 == l) by (bit_vector)
        requires
            l < 24,
    ;
    assert((((current & !0x3e00_0000u32) | ((l & 0x1fu32) << 25u32) & 0x3e00_0000u32)
        | 0x4000_0000u32) & 0x4000_0000u32 == 0x4000_0000u32) by (bit_vector);
    assert((((current & !0x3e00_0000u32) | ((l & 0x1fu32) << 25u32) & 0x3e00_0000u32)
        | 0x4000_0000u32) & 0x81ff_ffffu32 == current & 0x81ff_ffffu32) by (bit_vector);
}

/// The little-endian value of four bytes.
pub open spec fn le_u32(b: Seq<u8>) -> u32 {
    (b[0] as int + b[1] as int * 256 + b[2] as int * 65536 + b[3] as int * 16777216) as u32
}

/// The first transfer of `ops` reads the four I2CMCR bytes; when it
/// succeeds, the rest stores the started value for `len` data bytes.
pub open spec fn i2c_kick_ran(ops: Seq<ControlTransfer>, len: u32, result: Result<(), rusb::Error>) -> bool {
    &&& ops.len() >= 1
    &&& is_vendor_read(ops[0], SYS_I2CMCR, block_read_index(BLOCK_SYSB), 4)
    &&& match ops[0].outcome {
        Err(e) => ops.len() == 1 && result == Err::<(), rusb::Error>(e),
        Ok(_) => ran_writes(ops.skip(1), mcr_write_plan(mcr_start_value(le_u32(ops[0].data), len)), result),
    }
}

fn i2c_kick(dev: &mut RtlDevice, len: u32) -> (result: Result<(), rusb::Error>)
    requires
        1 <= len <= 24,
    ensures
        final(dev).endpoint_ops() == old(dev).endpoint_ops(),
        extends(old(dev).transfers(), final(dev).transfers()),
        i2c_kick_ran(added(old(dev).transfers(), final(dev).transfers()), len, result),
{
    let ghost before = dev.transfers();
    let mut bytes: Vec<u8> = vec![0u8, 0u8, 0u8, 0u8];
    let n = rtl_read_reg(dev, BLOCK_SYSB, SYS_I2CMCR, bytes.as_mut_slice());
    let ghost mid = dev.transfers();
    proof {
        assert(mid.drop_last() =~= before);
    }
    if let Err(e) = n {
        proof {
            lemma_extends_refl(mid);
            lemma_first_then_rest(before, mid, mid);
        }
        return Err(e);
    }
    let current: u32 = bytes[0] as u32 + bytes[1] as u32 * 256 + bytes[2] as u32 * 65536
        + bytes[3] as u32 * 16777216;
    let rwl: u32 = (len - 1) & 0x1f;
    let mut v: u32 = current & !I2CMCR_RWL_MASK;
    v = v | ((rwl << I2CMCR_RWL_SHIFT) & I2CMCR_RWL_MASK);
    v = v | I2CMCR_CS;
    let r = mcr_halves(dev, v);
    proof {
        lemma_first_then_rest(before, mid, dev.transfers());
        assert(current == le_u32(mid.last().data));
    }
    r
}

// ---------------------------------------------------------------------
// I2C master status (I2CMSR) and FIFO (I2CMFR)
// ---------------------------------------------------------------------

/// Reads the low byte of I2CMSR (TEIF, MRCIF, MTCIF in bits 2:0).
pub fn read_sys_i2c_status(dev: &mut RtlDevice) -> (result: Result<u8, rusb::Error>)
    ensures
        final(dev).endpoint_ops() == old(dev).endpoint_ops(),
        extends(old(dev).transfers(), final(dev).transfers()),
        read_byte_result(
            added(old(dev).transfers(), final(dev).transfers()),
            SYS_I2CMSR,
            block_read_index(BLOCK_SYSB),
            result,
        ),
{
    let mut buf: Vec<u8> = vec![0u8];
    let n = rtl_read_reg(dev, BLOCK_SYSB, SYS_I2CMSR, buf.as_mut_slice());
    proof {
        lemma_extends_push(old(dev).transfers(), dev.transfers().last());
    }
    match n {
        Ok(_) => Ok(buf[0]),
        Err(e) => Err(e),
    }
}

/// The write that clears the flags of `mask` (bits 2:0 only, write one to
/// clear); nothing when none of them is asked for.
pub open spec fn clear_flags_plan(mask: u8) -> Seq<OutRequest> {
    if mask & I2CMSR_ALL_FLAGS == 0 {
        Seq::empty()
    } else {
        seq![block_write(BLOCK_SYSB, SYS_I2CMSR, (mask & I2CMSR_ALL_FLAGS) as u16, 1)]
    }
}

/// Clearing flags writes ones only in bits 2:0, and exactly the flags of
/// `mask` among them.
pub proof fn lemma_clear_flags_only_status_bits(mask: u8)
    ensures
        (mask & I2CMSR_ALL_FLAGS) & !I2CMSR_ALL_FLAGS == 0,
        (mask & I2CMSR_ALL_FLAGS) & I2CMSR_TEIF == mask & I2CMSR_TEIF,
        (mask & I2CMSR_ALL_FLAGS) & I2CMSR_MRCIF == mask & I2CMSR_MRCIF,
        (mask & I2CMSR_ALL_FLAGS) & I2CMSR_MTCIF == mask & I2CMSR_MTCIF,
{
    assert((mask & 7u8) & !7u8 == 0) by (bit_vector);
    assert((mask & 7u8) & 4u8 == mask & 4u8) by (bit_vector);
    assert((mask & 7u8) & 2u8 == mask & 2u8) by (bit_vector);
    assert((mask & 7u8) & 1u8 == mask & 1u8) by (bit_vector);
}

/// Clears the I2CMSR flags selected by `mask` by writing ones to them.
pub fn clear_sys_i2c_status_flags(dev: &mut RtlDevice, mask: u8) -> (result: Result<(), rusb::Error>)
    ensures
        final(dev).endpoint_ops() == old(dev).endpoint_ops(),
        extends(old(dev).transfers(), final(dev).transfers()),
        ran_writes(added(old(dev).transfers(), final(dev).transfers()), clear_flags_plan(mask), result),
{
    let to_clear = mask & I2CMSR_ALL_FLAGS;
    if to_clear == 0 {
        proof {
            lemma_extends_refl(dev.transfers());
        }
        return Ok(());
    }
    let r = rtl_write_reg(dev, BLOCK_SYSB, SYS_I2CMSR, to_clear as u16, 1);
    proof {
        assert(dev.transfers() == old(dev).transfers().push(dev.transfers().last()));
        lemma_extends_push(old(dev).transfers(), dev.transfers().last());
    }
    r
}

/// The write that queues `byte` in the I2C master FIFO.
pub open spec fn fifo_write(byte: u8) -> OutRequest {
    block_write(BLOCK_SYSB, SYS_I2CMFR, byte as u16, 1)
}

/// Queues one byte for transmission in I2CMFR.
pub fn sys_i2c_write_data_byte(dev: &mut RtlDevice, byte: u8) -> (result: Result<(), rusb::Error>)
    ensures
        final(dev).endpoint_ops() == old(dev).endpoint_ops(),
        extends(old(dev).transfers(), final(dev).transfers()),
        ran_writes(added(old(dev).transfers(), final(dev).transfers()), seq![fifo_write(byte)], result),
{
    let r = rtl_write_reg(dev, BLOCK_SYSB, SYS_I2CMFR, byte as u16, 1);
    proof {
        assert(dev.transfers() == old(dev).transfers().push(dev.transfers().last()));
        lemma_extends_push(old(dev).transfers(), dev.transfers().last());
    }
    r
}

/// Reads one received byte from I2CMFR.
pub fn sys_i2c_read_data_byte(dev: &mut RtlDevice) -> (result: Result<u8, rusb::Error>)
    ensures
        final(dev).endpoint_ops() == old(dev).endpoint_ops(),
        extends(old(dev).transfers(), final(dev).transfers()),
        read_byte_result(
            added(old(dev).transfers(), final(dev).transfers()),
            SYS_I2CMFR,
            block_read_index(BLOCK_SYSB),
            result,
        ),
{
    let mut buf: Vec<u8> = vec![0u8];
    let n = rtl_read_reg(dev, BLOCK_SYSB, SYS_I2CMFR, buf.as_mut_slice());
    proof {
        lemma_extends_push(old(dev).transfers(), dev.transfers().last());
        let b = buf@[0];
        assert(b & 0xffu8 == b) by (bit_vector);
    }
    match n {
        Ok(_) => Ok(buf[0] & I2CMFR_TDD_MASK),
        Err(e) => Err(e),
    }
}

// ---------------------------------------------------------------------
// I2C master write transaction
// ---------------------------------------------------------------------

/// The writes that prepare a transaction: clear every status flag, then
/// queue the address byte and the data bytes.
pub open spec fn i2c_load_plan(addr_8bit: u8, data: Seq<u8>) -> Seq<OutRequest> {
    clear_flags_plan(I2CMSR_ALL_FLAGS) + seq![fifo_write(addr_8bit)] + data.map_values(
        |b: u8| fifo_write(b),
    )
}

/// How many status polls a transaction gets before it times out.
pub const I2C_MAX_POLLS: usize = 1000;

/// `ops` polls I2CMSR with at most `remaining` reads: a transaction error
/// (TEIF) clears all flags and fails with `Other`; a completion (MTCIF or
/// MRCIF) clears those two and succeeds; no flag polls again; no polls left
/// clears all flags and fails with `Timeout`. A failed transfer ends the
/// poll with its error.
pub open spec fn i2c_poll_ran(ops: Seq<ControlTransfer>, remaining: nat, result: Result<(), rusb::Error>) -> bool
    decreases remaining,
{
    if remaining == 0 {
        ran_writes_then(ops, clear_flags_plan(I2CMSR_ALL_FLAGS), Err(rusb::Error::Timeout), result)
    } else {
        &&& ops.len() >= 1
        &&& is_vendor_read(ops[0], SYS_I2CMSR, block_read_index(BLOCK_SYSB), 1)
        &&& match ops[0].outcome {
            Err(e) => ops.len() == 1 && result == Err::<(), rusb::Error>(e),
            Ok(_) => {
                let status = ops[0].data[0];
                if status & I2CMSR_TEIF != 0 {
                    ran_writes_then(
                        ops.skip(1),
                        clear_flags_plan(I2CMSR_ALL_FLAGS),
                        Err(rusb::Error::Other),
                        result,
                    )
                } else if status & (I2CMSR_MTCIF | I2CMSR_MRCIF) != 0 {
                    ran_writes_then(
                        ops.skip(1),
                        clear_flags_plan(I2CMSR_MTCIF | I2CMSR_MRCIF),
                        Ok(()),
                        result,
                    )
                } else {
                    i2c_poll_ran(ops.skip(1), (remaining - 1) as nat, result)
                }
            },
        }
    }
}

fn clear_then(dev: &mut RtlDevice, mask: u8, then: Result<(), rusb::Error>) -> (result: Result<
    (),
    rusb::Error,
>)
    ensures
        final(dev).endpoint_ops() == old(dev).endpoint_ops(),
        extends(old(dev).transfers(), final(dev).transfers()),
        ran_writes_then(
            added(old(dev).transfers(), final(dev).transfers()),
            clear_flags_plan(mask),
            then,
            result,
        ),
{
    match clear_sys_i2c_status_flags(dev, mask) {
        Ok(()) => then,
        Err(e) => Err(e),
    }
}

fn i2c_poll(dev: &mut RtlDevice, remaining: usize) -> (result: Result<(), rusb::Error>)
    ensures
        final(dev).endpoint_ops() == old(dev).endpoint_ops(),
        extends(old(dev).transfers(), final(dev).transfers()),
        i2c_poll_ran(added(old(dev).transfers(), final(dev).transfers()), remaining as nat, result),
    decreases remaining,
{
    if remaining == 0 {
        return clear_then(dev, I2CMSR_ALL_FLAGS, Err(rusb::Error::Timeout));
    }
    let ghost before = dev.transfers();
    let status = read_sys_i2c_status(dev);
    let ghost mid = dev.transfers();
    proof {
        assert(added(before, mid).len() == 1);
        assert(mid == before.push(added(before, mid)[0])) by {
            assert(mid =~= before.push(added(before, mid)[0]));
        }
        assert(mid.drop_last() =~= before);
    }
    let status = match status {
        Ok(s) => s,
        Err(e) => {
            proof {
                lemma_extends_refl(mid);
                lemma_first_then_rest(before, mid, mid);
            }
            return Err(e);
        },
    };
    let r = if status & I2CMSR_TEIF != 0 {
        clear_then(dev, I2CMSR_ALL_FLAGS, Err(rusb::Error::Other))
    } else if status & (I2CMSR_MTCIF | I2CMSR_MRCIF) != 0 {
        clear_then(dev, I2CMSR_MTCIF | I2CMSR_MRCIF, Ok(()))
    } else {
        i2c_poll(dev, remaining - 1)
    };
    proof {
        lemma_first_then_rest(before, mid, dev.transfers());
    }
    r
}

/// `ops` is the I2C master write of `data` to `addr_8bit`: nothing for no
/// data, nothing and `Other` for more than 24 bytes; otherwise the load
/// writes, the I2CMCR start, and the status poll, each ending the run at
/// its first failed transfer.
pub open spec fn i2c_write_ran(
    addr_8bit: u8,
    data: Seq<u8>,
    ops: Seq<ControlTransfer>,
    result: Result<(), rusb::Error>,
) -> bool {
    if data.len() == 0 {
        ops.len() == 0 && result == Ok::<(), rusb::Error>(())
    } else if data.len() > 24 {
        ops.len() == 0 && result == Err::<(), rusb::Error>(rusb::Error::Other)
    } else {
        let load = i2c_load_plan(addr_8bit, data);
        let n = load.len() as int;
        ||| result is Err && ran_writes(ops, load, result)
        ||| {
            &&& ops.len() >= n
            &&& ran_writes(ops.take(n), load, Ok(()))
            &&& {
                ||| result is Err && i2c_kick_ran(ops.skip(n), data.len() as u32, result)
                ||| {
                    &&& ops.len() >= n + 3
                    &&& i2c_kick_ran(ops.subrange(n, n + 3), data.len() as u32, Ok(()))
                    &&& i2c_poll_ran(ops.skip(n + 3), I2C_MAX_POLLS as nat, result)
                }
            }
        }
    }
}

/// An I2C master write of 1 to 24 bytes addresses the device exactly as
/// asked and sends the data in order: after the write of 0x07 that clears
/// every status flag (SYS block I2CMSR), the FIFO (SYS block I2CMFR) gets
/// the byte `addr_8bit` unchanged, then `data[0]`, `data[1]`, ..., each
/// loading write present as far as the run got; a run that succeeds made
/// all of them.
pub proof fn lemma_i2c_write_loads_address_then_data(
    addr_8bit: u8,
    data: Seq<u8>,
    ops: Seq<ControlTransfer>,
    result: Result<(), rusb::Error>,
)
    requires
        1 <= data.len() <= 24,
        i2c_write_ran(addr_8bit, data, ops, result),
    ensures
        ops.len() >= 1,
        ops[0].request_type == 0x40,
        ops[0].request == 0,
        ops[0].value == 0x304c,
        ops[0].index == 0x0210,
        ops[0].data == seq![0x07u8],
        ops.len() >= 2 ==> {
            &&& ops[1].request_type == 0x40
            &&& ops[1].request == 0
            &&& ops[1].value == 0x3050
            &&& ops[1].index == 0x0210
            &&& ops[1].data == seq![addr_8bit]
        },
        forall|k: int|
            0 <= k < data.len() && 2 + k < ops.len() ==> {
                &&& (#[trigger] ops[2 + k]).request_type == 0x40
                &&& ops[2 + k].request == 0
                &&& ops[2 + k].value == 0x3050
                &&& ops[2 + k].index == 0x0210
                &&& ops[2 + k].data == seq![data[k]]
            },
        result is Ok ==> ops.len() >= 2 + data.len(),
{
    let load = i2c_load_plan(addr_8bit, data);
    let n = load.len() as int;
    assert(7u8 & 7u8 == 7u8) by (bit_vector);
    assert(clear_flags_plan(I2CMSR_ALL_FLAGS).len() == 1);
    assert(n == 2 + data.len());
    assert(load[0] == block_write(BLOCK_SYSB, SYS_I2CMSR, 7u16, 1));
    assert(load[1] == fifo_write(addr_8bit));
    assert forall|k: int| 0 <= k < data.len() implies #[trigger] load[2 + k] == fifo_write(data[k]) by {
    }
    assert((addr_8bit as u16 % 256) as u8 == addr_8bit);
    assert forall|k: int| 0 <= k < data.len() implies ((data[k] as u16 % 256) as u8) == data[k] by {
    }
    // Whichever way the run went, each transfer it made below `n` is the
    // load write of the same position.
    let in_load = forall|k: int| 0 <= k < ops.len() && k < n ==> is_vendor_write(#[trigger] ops[k], load[k]);
    if result is Err && ran_writes(ops, load, result) {
        assert(ops.len() >= 1);
        assert(in_load);
    } else {
        assert(ops.len() >= n);
        assert(ran_writes(ops.take(n), load, Ok(())));
        assert forall|k: int| 0 <= k < ops.len() && k < n implies is_vendor_write(#[trigger] ops[k], load[k]) by {
            assert(ops.take(n)[k] == ops[k]);
        }
        assert(in_load);
    }
    assert(is_vendor_write(ops[0], load[0]));
    if ops.len() >= 2 {
        assert(is_vendor_write(ops[1], load[1]));
    }
    assert forall|k: int| 0 <= k < data.len() && 2 + k < ops.len() implies {
        &&& (#[trigger] ops[2 + k]).request_type == 0x40
        &&& ops[2 + k].request == 0
        &&& ops[2 + k].value == 0x3050
        &&& ops[2 + k].index == 0x0210
        &&& ops[2 + k].data == seq![data[k]]
    } by {
        assert(is_vendor_write(ops[2 + k], load[2 + k]));
        assert(load[2 + k] == fifo_write(data[k]));
        assert(((data[k] as u16 % 256) as u8) == data[k]);
    }
}

fn i2c_load(dev: &mut RtlDevice, addr_8bit: u8, data: &[u8]) -> (result: Result<(), rusb::Error>)
    ensures
        final(dev).endpoint_ops() == old(dev).endpoint_ops(),
        extends(old(dev).transfers(), final(dev).transfers()),
        ran_writes(
            added(old(dev).transfers(), final(dev).transfers()),
            i2c_load_plan(addr_8bit, data@),
            result,
        ),
{
    let mut plan: Vec<RegWrite> = Vec::new();
    plan.push(RegWrite::Block { block: BLOCK_SYSB, addr: SYS_I2CMSR, val: 0x0007, len: 1 });
    plan.push(RegWrite::Block { block: BLOCK_SYSB, addr: SYS_I2CMFR, val: addr_8bit as u16, len: 1 });
    let ghost head = seq![
        RegWrite::Block { block: BLOCK_SYSB, addr: SYS_I2CMSR, val: 0x0007, len: 1 },
        RegWrite::Block { block: BLOCK_SYSB, addr: SYS_I2CMFR, val: addr_8bit as u16, len: 1 },
    ];
    assert(plan@ =~= head);
    let mut i: usize = 0;
    while i < data.len()
        invariant
            i <= data@.len(),
            plan@.len() == 2 + i,
            forall|k: int| 0 <= k < plan@.len() ==> (#[trigger] plan@[k]).valid(),
            plan@[0] == head[0],
            plan@[1] == head[1],
            forall|k: int|
                0 <= k < i ==> #[trigger] plan@[2 + k] == (RegWrite::Block {
                    block: BLOCK_SYSB,
                    addr: SYS_I2CMFR,
                    val: data@[k] as u16,
                    len: 1,
                }),
        decreases data@.len() - i,
    {
        plan.push(RegWrite::Block { block: BLOCK_SYSB, addr: SYS_I2CMFR, val: data[i] as u16, len: 1 });
        i = i + 1;
    }
    proof {
        assert(7u8 & 7u8 == 7u8) by (bit_vector);
        assert forall|k: int| 0 <= k < plan@.len() implies requests_of(plan@)[k]
            == i2c_load_plan(addr_8bit, data@)[k] by {
            if k >= 2 {
                assert(plan@[2 + (k - 2)] == plan@[k]);
            }
        }
        assert(requests_of(plan@) =~= i2c_load_plan(addr_8bit, data@));
    }
    apply_writes(dev, &plan)
}

/// Writes `data` to the I2C device at `addr_8bit` (address byte including
/// the R/W bit) through the I2C master: clears the status flags, queues the
/// address and the data in the FIFO, stores RWL = len - 1 and CS in I2CMCR,
/// then polls I2CMSR up to 1000 times. Needs 1 to 24 data bytes (none is a
/// no-op, more is refused with `Other`); a transaction error answers
/// `Other`, running out of polls `Timeout`.
pub fn rtl_i2c_write(dev: &mut RtlDevice, addr_8bit: u8, data: &[u8]) -> (result: Result<
    (),
    rusb::Error,
>)
    ensures
        final(dev).endpoint_ops() == old(dev).endpoint_ops(),
        extends(old(dev).transfers(), final(dev).transfers()),
        i2c_write_ran(addr_8bit, data@, added(old(dev).transfers(), final(dev).transfers()), result),
{
    let ghost t0 = dev.transfers();
    if data.len() == 0 {
        proof {
            lemma_extends_refl(t0);
        }
        return Ok(());
    }
    if data.len() > 24 {
        proof {
            lemma_extends_refl(t0);
        }
        return Err(rusb::Error::Other);
    }
    let ghost load = i2c_load_plan(addr_8bit, data@);
    let r1 = i2c_load(dev, addr_8bit, data);
    let ghost t1 = dev.transfers();
    if let Err(e) = r1 {
        return Err(e);
    }
    proof {
        assert(added(t0, t1).len() == load.len());
    }
    let r2 = i2c_kick(dev, data.len() as u32);
    let ghost t2 = dev.transfers();
    proof {
        lemma_extends_trans(t0, t1, t2);
        let all = added(t0, t2);
        let n = load.len() as int;
        assert(all.take(n) =~= added(t0, t1));
        assert(all.skip(n) =~= added(t1, t2));
    }
    if let Err(e) = r2 {
        return Err(e);
    }
    proof {
        assert(added(t1, t2).len() == 3);
    }
    let r3 = i2c_poll(dev, I2C_MAX_POLLS);
    proof {
        let t3 = dev.transfers();
        lemma_extends_trans(t0, t2, t3);
        let all = added(t0, t3);
        let n = load.len() as int;
        assert(all.take(n) =~= added(t0, t1));
        assert(all.subrange(n, n + 3) =~= added(t1, t2));
        assert(all.skip(n + 3) =~= added(t2, t3));
    }
    r3
}

/// Writes `value` to tuner register `reg` through the I2C master: the bytes
/// `reg`, `value` go to the tuner's write address.
pub fn tuner_write_reg_i2c_master(dev: &mut RtlDevice, reg: u8, value: u8) -> (result: Result<
    (),
    rusb::Error,
>)
    ensures
        final(dev).endpoint_ops() == old(dev).endpoint_ops(),
        extends(old(dev).transfers(), final(dev).transfers()),
        i2c_write_ran(
            TUNER_I2C_ADDR,
            seq![reg, value],
            added(old(dev).transfers(), final(dev).transfers()),
            result,
        ),
{
    let data: Vec<u8> = vec![reg, value];
    proof {
        assert(data@ =~= seq![reg, value]);
    }
    rtl_i2c_write(dev, TUNER_I2C_ADDR, data.as_slice())
}

} // verus!
