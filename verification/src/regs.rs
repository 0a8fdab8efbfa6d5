//! Register access through the RTL2832U vendor command table: the USB,
//! system, tuner and I2C blocks, and the demodulator pages.
use vstd::prelude::*;
use crate::constants::BLOCK_IICB;
use crate::usb::{
    added, completion, extends, is_vendor_read, is_vendor_write, lemma_extends_push, lemma_extends_refl, lemma_extends_trans,
    lemma_ran_writes_concat, lemma_ran_writes_failed_prefix, ran_writes, ControlTransfer,
    OutRequest, RtlDevice, CTRL_IN, CTRL_OUT, CTRL_TIMEOUT_MS,
};

verus! {

/// wValue of a demodulator register access: the register offset in the
/// high byte, 0x20 in the low byte.
pub open spec fn demod_value(addr: u16) -> u16 {
    ((addr << 8u16) | 0x20u16) as u16
}

/// wIndex of a demodulator read.
pub open spec fn demod_read_index(page: u8) -> u16 {
    page as u16
}

/// wIndex of a demodulator write.
pub open spec fn demod_write_index(page: u8) -> u16 {
    (0x10u16 | page as u16) as u16
}

/// wIndex of a block read (GetUSBReg, GetSysReg, GetTunReg, ...).
pub open spec fn block_read_index(block: u8) -> u16 {
    (block as int * 256) as u16
}

/// wIndex of a block write (SetUSBReg, SetSysReg, SetTunReg, ...).
pub open spec fn block_write_index(block: u8) -> u16 {
    (block as int * 256 + 0x10) as u16
}

/// wValue of a tuner register access: register offset in the high byte,
/// I2C address in the low byte.
pub open spec fn tuner_value(i2c_addr: u8, reg: u8) -> u16 {
    (reg as int * 256 + i2c_addr as int) as u16
}

/// The payload of a 1- or 2-byte register write of `val`: one byte holds
/// the low byte, two bytes hold the value high byte first.
pub open spec fn reg_bytes(val: u16, len: u8) -> Seq<u8> {
    if len == 0 {
        Seq::empty()
    } else if len == 1 {
        seq![(val % 256) as u8]
    } else {
        seq![(val / 256) as u8, (val % 256) as u8]
    }
}

/// The vendor write made by `rtl_write_reg(block, addr, val, len)`.
pub open spec fn block_write(block: u8, addr: u16, val: u16, len: u8) -> OutRequest {
    OutRequest { value: addr, index: block_write_index(block), data: reg_bytes(val, len) }
}

/// The vendor write made by `rtl_demod_write_reg(page, addr, val, len)`.
pub open spec fn demod_write(page: u8, addr: u16, val: u16, len: u8) -> OutRequest {
    OutRequest { value: demod_value(addr), index: demod_write_index(page), data: reg_bytes(val, len) }
}

/// The last transfer is a one-byte read at `value`/`index`, and `result`
/// is its byte when it succeeded, its error otherwise.
pub open spec fn read_byte_result(
    ops: Seq<ControlTransfer>,
    value: u16,
    index: u16,
    result: Result<u8, rusb::Error>,
) -> bool {
    &&& ops.len() == 1
    &&& is_vendor_read(ops[0], value, index, 1)
    &&& result == match ops[0].outcome {
        Ok(_) => Ok::<u8, rusb::Error>(ops[0].data[0]),
        Err(e) => Err(e),
    }
}

/// The demodulator wValue keeps the low byte of the offset in its high
/// byte and carries 0x20 in its low byte.
pub proof fn lemma_demod_value_fields(addr: u16)
    ensures
        demod_value(addr) == (addr % 256) * 256 + 0x20,
        demod_value(addr) / 256 == addr % 256,
        demod_value(addr) % 256 == 0x20,
{
    assert(((addr << 8u16) | 0x20u16) as u16 == (addr % 256) * 256 + 0x20) by (bit_vector);
}

/// A two-byte register payload gives back the value it encodes, and a
/// one-byte payload the value's low byte.
pub proof fn lemma_reg_bytes_roundtrip(val: u16)
    ensures
        reg_bytes(val, 2).len() == 2,
        reg_bytes(val, 2)[0] as int * 256 + reg_bytes(val, 2)[1] as int == val,
        reg_bytes(val, 1).len() == 1,
        reg_bytes(val, 1)[0] as int == val % 256,
{
}

/// The wValue of a demodulator register access.
pub fn demod_value_of(addr: u16) -> (value: u16)
    ensures
        value == demod_value(addr),
{
    (addr << 8u16) | 0x20u16
}

/// Packs `val` into the payload of a 1- or 2-byte register write.
pub fn pack_reg_value(val: u16, len: u8) -> (data: Vec<u8>)
    requires
        len <= 2,
    ensures
        data@ == reg_bytes(val, len),
{
    let mut data: Vec<u8> = Vec::new();
    if len == 1 {
        data.push((val % 256) as u8);
    } else if len == 2 {
        data.push((val / 256) as u8);
        data.push((val % 256) as u8);
    }
    assert(data@ =~= reg_bytes(val, len));
    data
}

/// GetUSBReg: reads `buf.len()` bytes of the USB block at `addr`.
/// At most 65535 bytes travel: wLength is 16 bits.
pub fn rtl_get_usb_reg(dev: &mut RtlDevice, addr: u16, buf: &mut [u8]) -> (result: Result<
    usize,
    rusb::Error,
>)
    requires
        old(buf)@.len() <= 0xFFFF,
    ensures
        final(buf)@.len() == old(buf)@.len(),
        final(dev).endpoint_ops() == old(dev).endpoint_ops(),
        final(dev).transfers() == old(dev).transfers().push(
            ControlTransfer {
                request_type: CTRL_IN,
                request: 0,
                value: addr,
                index: 0x0100,
                data: final(buf)@,
                timeout_ms: CTRL_TIMEOUT_MS,
                outcome: result,
            },
        ),
{
    dev.read_control(CTRL_IN, 0, addr, 0x0100, buf, CTRL_TIMEOUT_MS)
}

/// SetUSBReg: writes `data` to the USB block at `addr`.
/// At most 65535 bytes travel: wLength is 16 bits.
pub fn rtl_set_usb_reg(dev: &mut RtlDevice, addr: u16, data: &[u8]) -> (result: Result<
    usize,
    rusb::Error,
>)
    requires
        data@.len() <= 0xFFFF,
    ensures
        final(dev).endpoint_ops() == old(dev).endpoint_ops(),
        final(dev).transfers() == old(dev).transfers().push(
            ControlTransfer {
                request_type: CTRL_OUT,
                request: 0,
                value: addr,
                index: 0x0110,
                data: data@,
                timeout_ms: CTRL_TIMEOUT_MS,
                outcome: result,
            },
        ),
{
    dev.write_control(CTRL_OUT, 0, addr, 0x0110, data, CTRL_TIMEOUT_MS)
}

/// Reads `buf.len()` bytes from demodulator register `addr` of `page`.
/// At most 65535 bytes travel: wLength is 16 bits.
pub fn rtl_get_demod_reg(dev: &mut RtlDevice, page: u8, addr: u16, buf: &mut [u8]) -> (result:
    Result<usize, rusb::Error>)
    requires
        old(buf)@.len() <= 0xFFFF,
    ensures
        final(buf)@.len() == old(buf)@.len(),
        final(dev).endpoint_ops() == old(dev).endpoint_ops(),
        final(dev).transfers() == old(dev).transfers().push(
            ControlTransfer {
                request_type: CTRL_IN,
                request: 0,
                value: demod_value(addr),
                index: demod_read_index(page),
                data: final(buf)@,
                timeout_ms: CTRL_TIMEOUT_MS,
                outcome: result,
            },
        ),
{
    let index: u16 = page as u16;
    let value = demod_value_of(addr);
    dev.read_control(CTRL_IN, 0, value, index, buf, CTRL_TIMEOUT_MS)
}

/// Writes `data` to demodulator register `addr` of `page`.
/// At most 65535 bytes travel: wLength is 16 bits.
pub fn rtl_set_demod_reg(dev: &mut RtlDevice, page: u8, addr: u16, data: &[u8]) -> (result:
    Result<usize, rusb::Error>)
    requires
        data@.len() <= 0xFFFF,
    ensures
        final(dev).endpoint_ops() == old(dev).endpoint_ops(),
        final(dev).transfers() == old(dev).transfers().push(
            ControlTransfer {
                request_type: CTRL_OUT,
                request: 0,
                value: demod_value(addr),
                index: demod_write_index(page),
                data: data@,
                timeout_ms: CTRL_TIMEOUT_MS,
                outcome: result,
            },
        ),
{
    let index: u16 = 0x10u16 | (page as u16);
    let value = demod_value_of(addr);
    dev.write_control(CTRL_OUT, 0, value, index, data, CTRL_TIMEOUT_MS)
}

/// Reads `buf.len()` bytes of `block` at `addr`.
/// At most 65535 bytes travel: wLength is 16 bits.
pub fn rtl_read_reg(dev: &mut RtlDevice, block: u8, addr: u16, buf: &mut [u8]) -> (result: Result<
    usize,
    rusb::Error,
>)
    requires
        old(buf)@.len() <= 0xFFFF,
    ensures
        final(buf)@.len() == old(buf)@.len(),
        final(dev).endpoint_ops() == old(dev).endpoint_ops(),
        final(dev).transfers() == old(dev).transfers().push(
            ControlTransfer {
                request_type: CTRL_IN,
                request: 0,
                value: addr,
                index: block_read_index(block),
                data: final(buf)@,
                timeout_ms: CTRL_TIMEOUT_MS,
                outcome: result,
            },
        ),
{
    let index: u16 = (block as u16) * 256;
    dev.read_control(CTRL_IN, 0, addr, index, buf, CTRL_TIMEOUT_MS)
}

/// Writes the 1- or 2-byte value `val` to `block` at `addr`. A short
/// write still counts as done.
pub fn rtl_write_reg(dev: &mut RtlDevice, block: u8, addr: u16, val: u16, len: u8) -> (result:
    Result<(), rusb::Error>)
    requires
        len <= 2,
    ensures
        final(dev).endpoint_ops() == old(dev).endpoint_ops(),
        final(dev).transfers().len() == old(dev).transfers().len() + 1,
        final(dev).transfers().drop_last() == old(dev).transfers(),
        is_vendor_write(final(dev).transfers().last(), block_write(block, addr, val, len)),
        result == completion(final(dev).transfers().last().outcome),
{
    let data = pack_reg_value(val, len);
    let index: u16 = (block as u16) * 256 + 0x10;
    let written = dev.write_control(CTRL_OUT, 0, addr, index, data.as_slice(), CTRL_TIMEOUT_MS);
    proof {
        assert(final(dev).transfers().drop_last() =~= old(dev).transfers());
    }
    match written {
        Ok(_) => Ok(()),
        Err(e) => Err(e),
    }
}

/// Writes the 1- or 2-byte value `val` to demodulator register `addr` of
/// `page`; any other length is refused with `InvalidParam` and nothing is
/// sent.
pub fn rtl_demod_write_reg(dev: &mut RtlDevice, page: u8, addr: u16, val: u16, len: u8) -> (result:
    Result<usize, rusb::Error>)
    ensures
        final(dev).endpoint_ops() == old(dev).endpoint_ops(),
        len != 1 && len != 2 ==> {
            &&& result matches Err(rusb::Error::InvalidParam)
            &&& final(dev).transfers() == old(dev).transfers()
        },
        len == 1 || len == 2 ==> {
            &&& final(dev).transfers().len() == old(dev).transfers().len() + 1
            &&& final(dev).transfers().drop_last() == old(dev).transfers()
            &&& is_vendor_write(final(dev).transfers().last(), demod_write(page, addr, val, len))
            &&& result == final(dev).transfers().last().outcome
        },
{
    if len != 1 && len != 2 {
        return Err(rusb::Error::InvalidParam);
    }
    let data = pack_reg_value(val, len);
    let r = rtl_set_demod_reg(dev, page, addr, data.as_slice());
    proof {
        assert(final(dev).transfers().drop_last() =~= old(dev).transfers());
    }
    r
}

/// Reads one byte from demodulator register `addr` of `page`.
pub fn rtl_read_demod_reg_byte(dev: &mut RtlDevice, page: u8, addr: u16) -> (result: Result<
    u8,
    rusb::Error,
>)
    ensures
        final(dev).endpoint_ops() == old(dev).endpoint_ops(),
        extends(old(dev).transfers(), final(dev).transfers()),
        read_byte_result(
            added(old(dev).transfers(), final(dev).transfers()),
            demod_value(addr),
            demod_read_index(page),
            result,
        ),
{
    let mut buf: Vec<u8> = vec![0u8];
    let r = rtl_get_demod_reg(dev, page, addr, buf.as_mut_slice());
    proof {
        lemma_extends_push(old(dev).transfers(), final(dev).transfers().last());
        assert(final(dev).transfers() == old(dev).transfers().push(final(dev).transfers().last()));
    }
    match r {
        Ok(_) => Ok(buf[0]),
        Err(e) => Err(e),
    }
}

/// GetTunReg: reads `buf.len()` bytes of tuner register `reg` at I2C
/// address `i2c_addr`.
/// At most 65535 bytes travel: wLength is 16 bits.
pub fn rtl_get_tuner_reg(dev: &mut RtlDevice, i2c_addr: u8, reg: u8, buf: &mut [u8]) -> (result:
    Result<usize, rusb::Error>)
    requires
        old(buf)@.len() <= 0xFFFF,
    ensures
        final(buf)@.len() == old(buf)@.len(),
        final(dev).endpoint_ops() == old(dev).endpoint_ops(),
        final(dev).transfers() == old(dev).transfers().push(
            ControlTransfer {
                request_type: CTRL_IN,
                request: 0,
                value: tuner_value(i2c_addr, reg),
                index: 0x0300,
                data: final(buf)@,
                timeout_ms: CTRL_TIMEOUT_MS,
                outcome: result,
            },
        ),
{
    let value: u16 = (reg as u16) * 256 + (i2c_addr as u16);
    dev.read_control(CTRL_IN, 0, value, 0x0300, buf, CTRL_TIMEOUT_MS)
}

/// Reads one tuner register byte through GetTunReg.
pub fn rtl_read_tuner_reg_byte(dev: &mut RtlDevice, i2c_addr: u8, reg: u8) -> (result: Result<
    u8,
    rusb::Error,
>)
    ensures
        final(dev).endpoint_ops() == old(dev).endpoint_ops(),
        extends(old(dev).transfers(), final(dev).transfers()),
        read_byte_result(
            added(old(dev).transfers(), final(dev).transfers()),
            tuner_value(i2c_addr, reg),
            0x0300,
            result,
        ),
{
    let mut buf: Vec<u8> = vec![0u8];
    let r = rtl_get_tuner_reg(dev, i2c_addr, reg, buf.as_mut_slice());
    proof {
        lemma_extends_push(old(dev).transfers(), final(dev).transfers().last());
    }
    match r {
        Ok(_) => Ok(buf[0]),
        Err(e) => Err(e),
    }
}

/// SetTunReg: writes `data` to tuner register `reg` at I2C address
/// `i2c_addr`.
/// At most 65535 bytes travel: wLength is 16 bits.
pub fn rtl_set_tuner_reg(dev: &mut RtlDevice, i2c_addr: u8, reg: u8, data: &[u8]) -> (result:
    Result<usize, rusb::Error>)
    requires
        data@.len() <= 0xFFFF,
    ensures
        final(dev).endpoint_ops() == old(dev).endpoint_ops(),
        final(dev).transfers() == old(dev).transfers().push(
            ControlTransfer {
                request_type: CTRL_OUT,
                request: 0,
                value: tuner_value(i2c_addr, reg),
                index: 0x0310,
                data: data@,
                timeout_ms: CTRL_TIMEOUT_MS,
                outcome: result,
            },
        ),
{
    let value: u16 = (reg as u16) * 256 + (i2c_addr as u16);
    dev.write_control(CTRL_OUT, 0, value, 0x0310, data, CTRL_TIMEOUT_MS)
}

/// The SetTunReg write of the single byte `value`.
pub open spec fn tuner_byte_write(i2c_addr: u8, reg: u8, value: u8) -> OutRequest {
    OutRequest { value: tuner_value(i2c_addr, reg), index: 0x0310, data: seq![value] }
}

/// Writes one tuner register byte through SetTunReg. A short write still
/// counts as done.
pub fn rtl_write_tuner_reg_byte(dev: &mut RtlDevice, i2c_addr: u8, reg: u8, value: u8) -> (result:
    Result<(), rusb::Error>)
    ensures
        final(dev).endpoint_ops() == old(dev).endpoint_ops(),
        final(dev).transfers().len() == old(dev).transfers().len() + 1,
        final(dev).transfers().drop_last() == old(dev).transfers(),
        is_vendor_write(final(dev).transfers().last(), tuner_byte_write(i2c_addr, reg, value)),
        result == completion(final(dev).transfers().last().outcome),
{
    let data: Vec<u8> = vec![value];
    let r = rtl_set_tuner_reg(dev, i2c_addr, reg, data.as_slice());
    proof {
        assert(final(dev).transfers().drop_last() =~= old(dev).transfers());
        assert(data@ =~= seq![value]);
    }
    match r {
        Ok(_) => Ok(()),
        Err(e) => Err(e),
    }
}

/// Reads `buf.len()` bytes from `block` with wValue `addr` (for the I2C
/// block, the slave address).
/// At most 65535 bytes travel: wLength is 16 bits.
pub fn rtl_read_array(dev: &mut RtlDevice, block: u8, addr: u16, buf: &mut [u8]) -> (result:
    Result<usize, rusb::Error>)
    requires
        old(buf)@.len() <= 0xFFFF,
    ensures
        final(buf)@.len() == old(buf)@.len(),
        final(dev).endpoint_ops() == old(dev).endpoint_ops(),
        final(dev).transfers() == old(dev).transfers().push(
            ControlTransfer {
                request_type: CTRL_IN,
                request: 0,
                value: addr,
                index: block_read_index(block),
                data: final(buf)@,
                timeout_ms: CTRL_TIMEOUT_MS,
                outcome: result,
            },
        ),
{
    rtl_read_reg(dev, block, addr, buf)
}

/// Writes `data` to `block` with wValue `addr`.
/// At most 65535 bytes travel: wLength is 16 bits.
pub fn rtl_write_array(dev: &mut RtlDevice, block: u8, addr: u16, data: &[u8]) -> (result: Result<
    usize,
    rusb::Error,
>)
    requires
        data@.len() <= 0xFFFF,
    ensures
        final(dev).endpoint_ops() == old(dev).endpoint_ops(),
        final(dev).transfers() == old(dev).transfers().push(
            ControlTransfer {
                request_type: CTRL_OUT,
                request: 0,
                value: addr,
                index: block_write_index(block),
                data: data@,
                timeout_ms: CTRL_TIMEOUT_MS,
                outcome: result,
            },
        ),
{
    let index: u16 = (block as u16) * 256 + 0x10;
    dev.write_control(CTRL_OUT, 0, addr, index, data, CTRL_TIMEOUT_MS)
}

/// Writes `val` to tuner register `reg` through the I2C block: one
/// transfer carrying the register index and the value. A short write still
/// counts as done.
pub fn rtl_tuner_i2c_write_reg_iicb(dev: &mut RtlDevice, i2c_addr: u8, reg: u8, val: u8) -> (result:
    Result<(), rusb::Error>)
    ensures
        final(dev).endpoint_ops() == old(dev).endpoint_ops(),
        extends(old(dev).transfers(), final(dev).transfers()),
        ran_writes(
            added(old(dev).transfers(), final(dev).transfers()),
            seq![
                OutRequest {
                    value: i2c_addr as u16,
                    index: block_write_index(BLOCK_IICB),
                    data: seq![reg, val],
                },
            ],
            result,
        ),
{
    let data: Vec<u8> = vec![reg, val];
    let r = rtl_write_array(dev, BLOCK_IICB, i2c_addr as u16, data.as_slice());
    proof {
        lemma_extends_push(old(dev).transfers(), final(dev).transfers().last());
        assert(data@ =~= seq![reg, val]);
    }
    match r {
        Ok(_) => Ok(()),
        Err(e) => Err(e),
    }
}

/// Reads tuner register `reg` through the I2C block: a write of the
/// register index, then a one-byte read. A short transfer still counts as
/// done.
pub fn rtl_tuner_i2c_read_reg_iicb(dev: &mut RtlDevice, i2c_addr: u8, reg: u8) -> (result: Result<
    u8,
    rusb::Error,
>)
    ensures
        final(dev).endpoint_ops() == old(dev).endpoint_ops(),
        extends(old(dev).transfers(), final(dev).transfers()),
        ({
            let ops = added(old(dev).transfers(), final(dev).transfers());
            let select = OutRequest {
                value: i2c_addr as u16,
                index: block_write_index(BLOCK_IICB),
                data: seq![reg],
            };
            &&& ops.len() >= 1
            &&& is_vendor_write(ops[0], select)
            &&& match ops[0].outcome {
                Err(e) => ops.len() == 1 && result == Err::<u8, rusb::Error>(e),
                Ok(_) => read_byte_result(
                    ops.skip(1),
                    i2c_addr as u16,
                    block_read_index(BLOCK_IICB),
                    result,
                ),
            }
        }),
{
    let ghost before = dev.transfers();
    let reg_buf: Vec<u8> = vec![reg];
    let w = rtl_write_array(dev, BLOCK_IICB, i2c_addr as u16, reg_buf.as_slice());
    let ghost mid = dev.transfers();
    proof {
        lemma_extends_push(before, mid.last());
        assert(reg_buf@ =~= seq![reg]);
    }
    if let Err(e) = w {
        return Err(e);
    }
    let mut data: Vec<u8> = vec![0u8];
    let r = rtl_read_array(dev, BLOCK_IICB, i2c_addr as u16, data.as_mut_slice());
    proof {
        lemma_extends_push(mid, dev.transfers().last());
        lemma_extends_trans(before, mid, dev.transfers());
        assert(added(before, dev.transfers()).skip(1) =~= added(mid, dev.transfers()));
    }
    match r {
        Ok(_) => Ok(data[0]),
        Err(e) => Err(e),
    }
}

/// One register write of a fixed sequence: to a block of the vendor
/// command table, or to a demodulator page.
pub enum RegWrite {
    Block { block: u8, addr: u16, val: u16, len: u8 },
    Demod { page: u8, addr: u16, val: u16, len: u8 },
    Tuner { i2c_addr: u8, reg: u8, value: u8 },
}

impl RegWrite {
    /// The transfer this write makes.
    pub open spec fn request(self) -> OutRequest {
        match self {
            RegWrite::Block { block, addr, val, len } => block_write(block, addr, val, len),
            RegWrite::Demod { page, addr, val, len } => demod_write(page, addr, val, len),
            RegWrite::Tuner { i2c_addr, reg, value } => tuner_byte_write(i2c_addr, reg, value),
        }
    }

    /// The write has a length of one or two bytes.
    pub open spec fn valid(self) -> bool {
        match self {
            RegWrite::Block { len, .. } => len == 1 || len == 2,
            RegWrite::Demod { len, .. } => len == 1 || len == 2,
            RegWrite::Tuner { .. } => true,
        }
    }
}

/// The transfers of a sequence of register writes.
pub open spec fn requests_of(plan: Seq<RegWrite>) -> Seq<OutRequest> {
    plan.map_values(|w: RegWrite| w.request())
}

/// Makes the writes of `plan` in order, stopping at the first failed
/// transfer.
pub fn apply_writes(dev: &mut RtlDevice, plan: &Vec<RegWrite>) -> (result: Result<(), rusb::Error>)
    requires
        forall|i: int| 0 <= i < plan@.len() ==> (#[trigger] plan@[i]).valid(),
    ensures
        final(dev).endpoint_ops() == old(dev).endpoint_ops(),
        extends(old(dev).transfers(), final(dev).transfers()),
        ran_writes(added(old(dev).transfers(), final(dev).transfers()), requests_of(plan@), result),
{
    let ghost before = dev.transfers();
    let ghost reqs = requests_of(plan@);
    proof {
        lemma_extends_refl(before);
        assert(reqs.take(0) =~= Seq::<OutRequest>::empty());
    }
    let mut i: usize = 0;
    while i < plan.len()
        invariant
            i <= plan@.len(),
            reqs == requests_of(plan@),
            before == old(dev).transfers(),
            dev.endpoint_ops() == old(dev).endpoint_ops(),
            forall|k: int| 0 <= k < plan@.len() ==> (#[trigger] plan@[k]).valid(),
            extends(before, dev.transfers()),
            ran_writes(added(before, dev.transfers()), reqs.take(i as int), Ok(())),
        decreases plan@.len() - i,
    {
        let ghost cur = dev.transfers();
        let r = match &plan[i] {
            RegWrite::Block { block, addr, val, len } => rtl_write_reg(dev, *block, *addr, *val, *len),
            RegWrite::Demod { page, addr, val, len } => match rtl_demod_write_reg(
                dev,
                *page,
                *addr,
                *val,
                *len,
            ) {
                Ok(_) => Ok(()),
                Err(e) => Err(e),
            },
            RegWrite::Tuner { i2c_addr, reg, value } => rtl_write_tuner_reg_byte(
                dev,
                *i2c_addr,
                *reg,
                *value,
            ),
        };
        proof {
            let t = dev.transfers().last();
            assert(dev.transfers() == cur.push(t));
            lemma_extends_push(cur, t);
            lemma_extends_trans(before, cur, dev.transfers());
            assert(reqs[i as int] == plan@[i as int].request());
            assert(ran_writes(seq![t], seq![reqs[i as int]], r));
            lemma_ran_writes_concat(
                added(before, cur),
                reqs.take(i as int),
                seq![t],
                seq![reqs[i as int]],
                r,
            );
            assert(reqs.take(i as int) + seq![reqs[i as int]] =~= reqs.take(i + 1));
        }
        if let Err(e) = r {
            proof {
                lemma_ran_writes_failed_prefix(
                    added(before, dev.transfers()),
                    reqs.take(i + 1),
                    reqs.skip(i + 1),
                    e,
                );
                assert(reqs.take(i + 1) + reqs.skip(i + 1) =~= reqs);
            }
            return Err(e);
        }
        i = i + 1;
    }
    proof {
        assert(reqs.take(i as int) =~= reqs);
    }
    Ok(())
}

} // verus!
