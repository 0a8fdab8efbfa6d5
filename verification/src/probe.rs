//! Register self-tests and tuner probing: read, write-back and read-again
//! checks of known registers, register dumps, and the tuner ID probe.
use vstd::prelude::*;
use crate::constants::{
    r82xx_1090mhz_profile, r82xx_1090mhz_profile_spec, BLOCK_IICB, DEMOD_PAGE_SYS, DEMOD_REG_SYS_TEST,
    TUNER_I2C_ADDR, USB_SYSCTL_0,
};
use crate::i2c::{i2c_write_ran, le_u32, tuner_write_reg_i2c_master};
use crate::regs::{
    apply_writes, block_read_index, block_write_index, demod_read_index, demod_value,
    demod_write_index, requests_of, rtl_get_demod_reg, rtl_get_tuner_reg,
    rtl_get_usb_reg, rtl_read_demod_reg_byte, rtl_read_tuner_reg_byte, rtl_set_demod_reg,
    rtl_set_usb_reg, rtl_tuner_i2c_read_reg_iicb, rtl_write_tuner_reg_byte, tuner_byte_write,
    tuner_value, RegWrite,
};
use crate::usb::{
    added, extends, is_vendor_read, is_vendor_write, lemma_extends_push, lemma_extends_refl,
    lemma_extends_trans, ran_writes, ControlTransfer, OutRequest, RtlDevice,
};

verus! {

proof fn lemma_unit_ok(r: Result<(), rusb::Error>)
    requires
        r is Ok,
    ensures
        r == Ok::<(), rusb::Error>(()),
{
    match r {
        Ok(u) => {
            assert(u == ());
        },
        Err(_) => {},
    }
}

/// The byte a one-byte read brought back, or its error.
pub open spec fn byte_of(t: ControlTransfer) -> Result<u8, rusb::Error> {
    match t.outcome {
        Ok(_) => Ok(t.data[0]),
        Err(e) => Err(e),
    }
}

/// `ops` reads one byte at `rv`/`ri`; when that succeeds, writes the same
/// byte back at `wv`/`wi`; when that succeeds, reads the byte again. A
/// failed transfer ends the run.
pub open spec fn write_back_ops(ops: Seq<ControlTransfer>, rv: u16, ri: u16, wv: u16, wi: u16) -> bool {
    &&& 1 <= ops.len() <= 3
    &&& is_vendor_read(ops[0], rv, ri, 1)
    &&& ops.len() >= 2 ==> {
        &&& ops[0].outcome is Ok
        &&& is_vendor_write(ops[1], OutRequest { value: wv, index: wi, data: seq![ops[0].data[0]] })
    }
    &&& ops.len() == 3 ==> ops[1].outcome is Ok && is_vendor_read(ops[2], rv, ri, 1)
    &&& ops.len() < 3 ==> ops.last().outcome is Err
}

/// What a write-back check saw.
pub struct RegisterRoundtrip {
    /// The byte first read.
    pub initial: u8,
    /// How many bytes the first read reported.
    pub read_len: usize,
    /// How many bytes the write-back reported.
    pub written: usize,
    /// The byte read after the write-back.
    pub readback: u8,
    /// How many bytes the second read reported.
    pub readback_len: usize,
}

/// The report of a write-back check whose transfers are `ops`: the three
/// transfers' bytes and counts when all succeeded, else the failed one's
/// error.
pub open spec fn write_back_report(ops: Seq<ControlTransfer>) -> Result<RegisterRoundtrip, rusb::Error> {
    if ops.len() == 3 && ops[0].outcome is Ok && ops[1].outcome is Ok && ops[2].outcome is Ok {
        Ok(
            RegisterRoundtrip {
                initial: ops[0].data[0],
                read_len: ops[0].outcome->Ok_0,
                written: ops[1].outcome->Ok_0,
                readback: ops[2].data[0],
                readback_len: ops[2].outcome->Ok_0,
            },
        )
    } else {
        Err(ops.last().outcome->Err_0)
    }
}

/// The report of a write-back check that confirms the readback: as
/// `write_back_report`, except that when all three transfers went through
/// but the byte read back differs from the byte first read, the check fails
/// with `Other`.
pub open spec fn confirmed_write_back_report(ops: Seq<ControlTransfer>) -> Result<
    RegisterRoundtrip,
    rusb::Error,
> {
    match write_back_report(ops) {
        Ok(r) => if r.readback == r.initial {
            Ok(r)
        } else {
            Err(rusb::Error::Other)
        },
        Err(e) => Err(e),
    }
}

proof fn lemma_three_pushes(
    t0: Seq<ControlTransfer>,
    t1: Seq<ControlTransfer>,
    t2: Seq<ControlTransfer>,
    t3: Seq<ControlTransfer>,
)
    requires
        t1 == t0.push(t1.last()),
        t2 == t1.push(t2.last()),
        t3 == t2.push(t3.last()),
    ensures
        extends(t0, t3),
        added(t0, t3) == seq![t1.last(), t2.last(), t3.last()],
{
    lemma_extends_push(t0, t1.last());
    lemma_extends_push(t1, t2.last());
    lemma_extends_push(t2, t3.last());
    lemma_extends_trans(t0, t1, t2);
    lemma_extends_trans(t0, t2, t3);
    assert(added(t0, t3) =~= seq![t1.last(), t2.last(), t3.last()]);
}

proof fn lemma_two_pushes(t0: Seq<ControlTransfer>, t1: Seq<ControlTransfer>, t2: Seq<ControlTransfer>)
    requires
        t1 == t0.push(t1.last()),
        t2 == t1.push(t2.last()),
    ensures
        extends(t0, t2),
        added(t0, t2) == seq![t1.last(), t2.last()],
{
    lemma_extends_push(t0, t1.last());
    lemma_extends_push(t1, t2.last());
    lemma_extends_trans(t0, t1, t2);
    assert(added(t0, t2) =~= seq![t1.last(), t2.last()]);
}

/// Checks USB register access on USB_SYSCTL (0x2000): reads its low byte,
/// writes the same byte back, and reads it again.
pub fn test_usb_sysctl_register(dev: &mut RtlDevice) -> (result: Result<RegisterRoundtrip, rusb::Error>)
    ensures
        final(dev).endpoint_ops() == old(dev).endpoint_ops(),
        extends(old(dev).transfers(), final(dev).transfers()),
        write_back_ops(
            added(old(dev).transfers(), final(dev).transfers()),
            USB_SYSCTL_0,
            0x0100,
            USB_SYSCTL_0,
            0x0110,
        ),
        result == write_back_report(added(old(dev).transfers(), final(dev).transfers())),
{
    let ghost t0 = dev.transfers();
    let mut buf: Vec<u8> = vec![0u8];
    let n = rtl_get_usb_reg(dev, USB_SYSCTL_0, buf.as_mut_slice());
    let ghost t1 = dev.transfers();
    proof {
        lemma_extends_push(t0, t1.last());
    }
    let n = match n {
        Ok(n) => n,
        Err(e) => {
            return Err(e);
        },
    };
    let initial = buf[0];
    let data: Vec<u8> = vec![initial];
    let written = rtl_set_usb_reg(dev, USB_SYSCTL_0, data.as_slice());
    let ghost t2 = dev.transfers();
    proof {
        lemma_two_pushes(t0, t1, t2);
        assert(data@ =~= seq![initial]);
    }
    let written = match written {
        Ok(w) => w,
        Err(e) => {
            return Err(e);
        },
    };
    let n2 = rtl_get_usb_reg(dev, USB_SYSCTL_0, buf.as_mut_slice());
    proof {
        lemma_three_pushes(t0, t1, t2, dev.transfers());
    }
    match n2 {
        Ok(n2) => Ok(
            RegisterRoundtrip {
                initial,
                read_len: n,
                written,
                readback: buf[0],
                readback_len: n2,
            },
        ),
        Err(e) => Err(e),
    }
}

/// Checks demodulator register access on page 0x0a, register 0x01: reads
/// it, writes the same byte back, reads it again, and confirms that the
/// byte read back matches; a mismatch fails with `Other`.
pub fn test_demod_register(dev: &mut RtlDevice) -> (result: Result<RegisterRoundtrip, rusb::Error>)
    ensures
        final(dev).endpoint_ops() == old(dev).endpoint_ops(),
        extends(old(dev).transfers(), final(dev).transfers()),
        write_back_ops(
            added(old(dev).transfers(), final(dev).transfers()),
            demod_value(DEMOD_REG_SYS_TEST),
            demod_read_index(DEMOD_PAGE_SYS),
            demod_value(DEMOD_REG_SYS_TEST),
            demod_write_index(DEMOD_PAGE_SYS),
        ),
        result == confirmed_write_back_report(added(old(dev).transfers(), final(dev).transfers())),
        result matches Ok(r) ==> r.readback == r.initial,
{
    let ghost t0 = dev.transfers();
    let mut buf: Vec<u8> = vec![0u8];
    let n = rtl_get_demod_reg(dev, DEMOD_PAGE_SYS, DEMOD_REG_SYS_TEST, buf.as_mut_slice());
    let ghost t1 = dev.transfers();
    proof {
        lemma_extends_push(t0, t1.last());
    }
    let n = match n {
        Ok(n) => n,
        Err(e) => {
            return Err(e);
        },
    };
    let initial = buf[0];
    let data: Vec<u8> = vec![initial];
    let written = rtl_set_demod_reg(dev, DEMOD_PAGE_SYS, DEMOD_REG_SYS_TEST, data.as_slice());
    let ghost t2 = dev.transfers();
    proof {
        lemma_two_pushes(t0, t1, t2);
        assert(data@ =~= seq![initial]);
    }
    let written = match written {
        Ok(w) => w,
        Err(e) => {
            return Err(e);
        },
    };
    let n2 = rtl_get_demod_reg(dev, DEMOD_PAGE_SYS, DEMOD_REG_SYS_TEST, buf.as_mut_slice());
    proof {
        lemma_three_pushes(t0, t1, t2, dev.transfers());
    }
    match n2 {
        Ok(n2) => {
            let readback = buf[0];
            if readback != initial {
                return Err(rusb::Error::Other);
            }
            Ok(RegisterRoundtrip { initial, read_len: n, written, readback, readback_len: n2 })
        },
        Err(e) => Err(e),
    }
}

/// `ops` reads the demodulator's copy of I2CMCR byte by byte (page 1,
/// registers 0x44..0x47), ending at the first failed read; `result` is the
/// little-endian value of the four bytes, or that read's error.
pub open spec fn i2cmcr_page1_read(ops: Seq<ControlTransfer>, result: Result<u32, rusb::Error>) -> bool {
    &&& 1 <= ops.len() <= 4
    &&& forall|k: int|
        0 <= k < ops.len() ==> is_vendor_read(
            #[trigger] ops[k],
            demod_value((0x44 + k) as u16),
            demod_read_index(1),
            1,
        )
    &&& forall|k: int| 0 <= k < ops.len() - 1 ==> (#[trigger] ops[k]).outcome is Ok
    &&& match ops.last().outcome {
        Err(e) => result == Err::<u32, rusb::Error>(e),
        Ok(_) => ops.len() == 4 && result == Ok::<u32, rusb::Error>(
            le_u32(seq![ops[0].data[0], ops[1].data[0], ops[2].data[0], ops[3].data[0]]),
        ),
    }
}

/// Reads the 32-bit I2C master control register as the demodulator's
/// register map shows it: page 1, bytes 0x44..0x47, little-endian.
pub fn read_demod_i2cmcr_page1(dev: &mut RtlDevice) -> (result: Result<u32, rusb::Error>)
    ensures
        final(dev).endpoint_ops() == old(dev).endpoint_ops(),
        extends(old(dev).transfers(), final(dev).transfers()),
        i2cmcr_page1_read(added(old(dev).transfers(), final(dev).transfers()), result),
{
    let ghost before = dev.transfers();
    proof {
        lemma_extends_refl(before);
    }
    let mut bytes: Vec<u8> = Vec::new();
    let mut i: u16 = 0;
    while i < 4
        invariant
            i <= 4,
            before == old(dev).transfers(),
            dev.endpoint_ops() == old(dev).endpoint_ops(),
            extends(before, dev.transfers()),
            added(before, dev.transfers()).len() == i,
            bytes@.len() == i,
            forall|k: int|
                0 <= k < i ==> {
                    let t = #[trigger] added(before, dev.transfers())[k];
                    &&& is_vendor_read(t, demod_value((0x44 + k) as u16), demod_read_index(1), 1)
                    &&& t.outcome is Ok
                    &&& bytes@[k] == t.data[0]
                },
        decreases 4 - i,
    {
        let ghost cur = dev.transfers();
        let r = rtl_read_demod_reg_byte(dev, 1, 0x0044 + i);
        proof {
            lemma_extends_trans(before, cur, dev.transfers());
            let ops = added(before, dev.transfers());
            assert(ops =~= added(before, cur) + added(cur, dev.transfers()));
            assert(ops[i as int] == added(cur, dev.transfers())[0]);
            assert forall|k: int| 0 <= k < i implies ops[k] == added(before, cur)[k] by {}
        }
        match r {
            Ok(b) => {
                bytes.push(b);
            },
            Err(e) => {
                proof {
                    let ops = added(before, dev.transfers());
                    assert(ops.last() == ops[i as int]);
                }
                return Err(e);
            },
        }
        i = i + 1;
    }
    let v: u32 = bytes[0] as u32 + bytes[1] as u32 * 256 + bytes[2] as u32 * 65536 + bytes[3] as u32
        * 16777216;
    proof {
        let ops = added(before, dev.transfers());
        assert(ops.last() == ops[3]);
        assert(seq![ops[0].data[0], ops[1].data[0], ops[2].data[0], ops[3].data[0]] =~= bytes@);
    }
    Ok(v)
}

/// How many registers a dump from `first` to `last` reads: counting up
/// from `first`, wrapping after 0xff, until `last`.
pub open spec fn dump_count(first: u8, last: u8) -> nat {
    ((last as int - first as int) % 256 + 1) as nat
}

/// `ops` reads the tuner registers `first`, `first + 1`, ... (wrapping) up
/// to `last` at `i2c_addr` through GetTunReg, one byte each, whatever each
/// read returns, and `regs` lists each register with its byte or error.
pub open spec fn tuner_dump_ran(
    ops: Seq<ControlTransfer>,
    i2c_addr: u8,
    first: u8,
    last: u8,
    regs: Seq<(u8, Result<u8, rusb::Error>)>,
) -> bool {
    &&& regs.len() == dump_count(first, last)
    &&& ops.len() == regs.len()
    &&& forall|k: int|
        0 <= k < regs.len() ==> {
            &&& (#[trigger] regs[k]).0 == ((first as int + k) % 256) as u8
            &&& is_vendor_read(ops[k], tuner_value(i2c_addr, regs[k].0), 0x0300, 1)
            &&& regs[k].1 == byte_of(ops[k])
        }
}

/// Reads the tuner registers `first` to `last` (wrapping after 0xff) at
/// `i2c_addr`; a failed read is recorded and the dump goes on.
pub fn read_tuner_registers(dev: &mut RtlDevice, i2c_addr: u8, first: u8, last: u8) -> (regs: Vec<
    (u8, Result<u8, rusb::Error>),
>)
    ensures
        final(dev).endpoint_ops() == old(dev).endpoint_ops(),
        extends(old(dev).transfers(), final(dev).transfers()),
        tuner_dump_ran(
            added(old(dev).transfers(), final(dev).transfers()),
            i2c_addr,
            first,
            last,
            regs@,
        ),
{
    let ghost before = dev.transfers();
    proof {
        lemma_extends_refl(before);
    }
    let count: u16 = if last >= first {
        (last - first) as u16 + 1
    } else {
        (256 - first as u16) + last as u16 + 1
    };
    assert(count == dump_count(first, last));
    let mut regs: Vec<(u8, Result<u8, rusb::Error>)> = Vec::new();
    let mut k: u16 = 0;
    while k < count
        invariant
            k <= count,
            count == dump_count(first, last),
            before == old(dev).transfers(),
            dev.endpoint_ops() == old(dev).endpoint_ops(),
            extends(before, dev.transfers()),
            added(before, dev.transfers()).len() == k,
            regs@.len() == k,
            forall|j: int|
                0 <= j < k ==> {
                    let t = added(before, dev.transfers())[j];
                    &&& (#[trigger] regs@[j]).0 == ((first as int + j) % 256) as u8
                    &&& is_vendor_read(t, tuner_value(i2c_addr, regs@[j].0), 0x0300, 1)
                    &&& regs@[j].1 == byte_of(t)
                },
        decreases count - k,
    {
        let reg: u8 = ((first as u16 + k) % 256) as u8;
        let ghost cur = dev.transfers();
        let r = rtl_read_tuner_reg_byte(dev, i2c_addr, reg);
        regs.push((reg, r));
        proof {
            lemma_extends_trans(before, cur, dev.transfers());
            let ops = added(before, dev.transfers());
            assert(ops =~= added(before, cur) + added(cur, dev.transfers()));
            assert(ops[k as int] == added(cur, dev.transfers())[0]);
        }
        k = k + 1;
    }
    regs
}

/// The result of a check that reads a byte, writes it back and reads it
/// again: both bytes when all transfers of `ops` succeeded, else the failed
/// one's error.
pub open spec fn readback_pair(ops: Seq<ControlTransfer>) -> Result<(u8, u8), rusb::Error> {
    if ops.len() == 3 && ops[2].outcome is Ok {
        Ok((ops[0].data[0], ops[2].data[0]))
    } else {
        Err(ops.last().outcome->Err_0)
    }
}

/// Checks tuner register access through GetTunReg/SetTunReg: reads `reg`,
/// writes the same byte back, reads it again, and returns both bytes.
pub fn test_tuner_reg_roundtrip(dev: &mut RtlDevice, i2c_addr: u8, reg: u8) -> (result: Result<
    (u8, u8),
    rusb::Error,
>)
    ensures
        final(dev).endpoint_ops() == old(dev).endpoint_ops(),
        extends(old(dev).transfers(), final(dev).transfers()),
        write_back_ops(
            added(old(dev).transfers(), final(dev).transfers()),
            tuner_value(i2c_addr, reg),
            0x0300,
            tuner_value(i2c_addr, reg),
            0x0310,
        ),
        result == readback_pair(added(old(dev).transfers(), final(dev).transfers())),
{
    let ghost t0 = dev.transfers();
    let v1 = rtl_read_tuner_reg_byte(dev, i2c_addr, reg);
    let ghost t1 = dev.transfers();
    proof {
        assert(t1 =~= t0.push(added(t0, t1)[0]));
    }
    let v1 = match v1 {
        Ok(v) => v,
        Err(e) => {
            return Err(e);
        },
    };
    let w = rtl_write_tuner_reg_byte(dev, i2c_addr, reg, v1);
    let ghost t2 = dev.transfers();
    proof {
        assert(t2 =~= t1.push(t2.last()));
        lemma_two_pushes(t0, t1, t2);
    }
    if let Err(e) = w {
        return Err(e);
    }
    let v2 = rtl_read_tuner_reg_byte(dev, i2c_addr, reg);
    proof {
        let t3 = dev.transfers();
        assert(t3 =~= t2.push(added(t2, t3)[0]));
        lemma_three_pushes(t0, t1, t2, t3);
    }
    match v2 {
        Ok(v2) => Ok((v1, v2)),
        Err(e) => Err(e),
    }
}

/// `ops` reads tuner register `reg` at the tuner's address through
/// GetTunReg; when that succeeds, writes the byte back through the I2C
/// master, and when that succeeds, reads the register again. `result` is
/// both bytes, or the first failure's error.
pub open spec fn i2c_master_write_back_ran(
    ops: Seq<ControlTransfer>,
    reg: u8,
    result: Result<(u8, u8), rusb::Error>,
) -> bool {
    &&& ops.len() >= 1
    &&& is_vendor_read(ops[0], tuner_value(TUNER_I2C_ADDR, reg), 0x0300, 1)
    &&& match ops[0].outcome {
        Err(e) => ops.len() == 1 && result == Err::<(u8, u8), rusb::Error>(e),
        Ok(_) => exists|k: int|
            #![trigger ops.subrange(1, k)]
            1 <= k <= ops.len() && {
                let v1 = ops[0].data[0];
                let mid = ops.subrange(1, k);
                ||| {
                    &&& k == ops.len()
                    &&& result is Err
                    &&& i2c_write_ran(TUNER_I2C_ADDR, seq![reg, v1], mid, match result {
                        Err(e) => Err(e),
                        Ok(_) => Ok(()),
                    })
                }
                ||| {
                    &&& i2c_write_ran(TUNER_I2C_ADDR, seq![reg, v1], mid, Ok(()))
                    &&& ops.len() == k + 1
                    &&& is_vendor_read(ops[k], tuner_value(TUNER_I2C_ADDR, reg), 0x0300, 1)
                    &&& result == match ops[k].outcome {
                        Ok(_) => Ok::<(u8, u8), rusb::Error>((v1, ops[k].data[0])),
                        Err(e) => Err(e),
                    }
                }
            },
    }
}

/// Checks the I2C master path to the tuner: reads register `reg` through
/// GetTunReg, writes the same byte back through the I2C master, reads the
/// register again, and returns both bytes.
pub fn test_tuner_write_via_i2c_master(dev: &mut RtlDevice, reg: u8) -> (result: Result<
    (u8, u8),
    rusb::Error,
>)
    ensures
        final(dev).endpoint_ops() == old(dev).endpoint_ops(),
        extends(old(dev).transfers(), final(dev).transfers()),
        i2c_master_write_back_ran(added(old(dev).transfers(), final(dev).transfers()), reg, result),
{
    let ghost t0 = dev.transfers();
    let v1 = rtl_read_tuner_reg_byte(dev, TUNER_I2C_ADDR, reg);
    let ghost t1 = dev.transfers();
    let v1 = match v1 {
        Ok(v) => v,
        Err(e) => {
            return Err(e);
        },
    };
    let w = tuner_write_reg_i2c_master(dev, reg, v1);
    let ghost t2 = dev.transfers();
    proof {
        lemma_extends_trans(t0, t1, t2);
        let ops = added(t0, t2);
        assert(ops =~= added(t0, t1) + added(t1, t2));
        assert(ops.subrange(1, ops.len() as int) =~= added(t1, t2));
    }
    if let Err(e) = w {
        proof {
            let ops = added(t0, t2);
            let k = ops.len() as int;
            assert(ops.subrange(1, k) == added(t1, t2));
        }
        return Err(e);
    }
    let v2 = rtl_read_tuner_reg_byte(dev, TUNER_I2C_ADDR, reg);
    proof {
        let t3 = dev.transfers();
        lemma_extends_trans(t0, t2, t3);
        let ops = added(t0, t3);
        let k = added(t0, t2).len() as int;
        assert(ops =~= added(t0, t2) + added(t2, t3));
        assert(ops.subrange(1, k) =~= added(t1, t2));
        assert(ops[k] == added(t2, t3)[0]);
        assert(ops[0] == added(t0, t1)[0]);
        assert(v1 == ops[0].data[0]);
        lemma_unit_ok(w);
        assert(ops.subrange(1, k) == added(t1, t2));
        assert(i2c_write_ran(TUNER_I2C_ADDR, seq![reg, v1], added(t1, t2), w));
        assert(i2c_write_ran(TUNER_I2C_ADDR, seq![reg, v1], ops.subrange(1, k), Ok(())));
        assert(ops.len() == k + 1);
    }
    match v2 {
        Ok(v2) => Ok((v1, v2)),
        Err(e) => Err(e),
    }
}

/// What the I2C block check saw: the byte read through the I2C block, the
/// byte count of the GetTunReg read, and the byte it brought.
pub struct BlockPathReport {
    pub iicb_value: u8,
    pub vendor_len: usize,
    pub vendor_value: u8,
}

/// `ops` reads tuner register 0x00 at `tuner_addr` through the I2C block
/// (a write of the register index, then a one-byte read), and when that
/// works, through GetTunReg; each failure ends the run with its error.
pub open spec fn block_path_ran(
    ops: Seq<ControlTransfer>,
    tuner_addr: u8,
    result: Result<BlockPathReport, rusb::Error>,
) -> bool {
    &&& ops.len() >= 1
    &&& is_vendor_write(
        ops[0],
        OutRequest {
            value: tuner_addr as u16,
            index: block_write_index(BLOCK_IICB),
            data: seq![0u8],
        },
    )
    &&& match ops[0].outcome {
        Err(e) => ops.len() == 1 && result == Err::<BlockPathReport, rusb::Error>(e),
        Ok(_) => {
            &&& ops.len() >= 2
            &&& is_vendor_read(ops[1], tuner_addr as u16, block_read_index(BLOCK_IICB), 1)
            &&& match ops[1].outcome {
                Err(e) => ops.len() == 2 && result == Err::<BlockPathReport, rusb::Error>(e),
                Ok(_) => {
                    &&& ops.len() == 3
                    &&& is_vendor_read(ops[2], tuner_value(tuner_addr, 0), 0x0300, 1)
                    &&& result == match ops[2].outcome {
                        Ok(n) => Ok::<BlockPathReport, rusb::Error>(
                            BlockPathReport {
                                iicb_value: ops[1].data[0],
                                vendor_len: n,
                                vendor_value: ops[2].data[0],
                            },
                        ),
                        Err(e) => Err(e),
                    }
                },
            }
        },
    }
}

/// Checks the I2C block path to the tuner at `tuner_addr`: reads register
/// 0x00 through the I2C block, then through GetTunReg.
pub fn test_tuner_i2c_block_path(dev: &mut RtlDevice, tuner_addr: u8) -> (result: Result<
    BlockPathReport,
    rusb::Error,
>)
    ensures
        final(dev).endpoint_ops() == old(dev).endpoint_ops(),
        extends(old(dev).transfers(), final(dev).transfers()),
        block_path_ran(added(old(dev).transfers(), final(dev).transfers()), tuner_addr, result),
{
    let ghost t0 = dev.transfers();
    let v0 = rtl_tuner_i2c_read_reg_iicb(dev, tuner_addr, 0x00);
    let ghost t1 = dev.transfers();
    let v0 = match v0 {
        Ok(v) => v,
        Err(e) => {
            return Err(e);
        },
    };
    let mut buf: Vec<u8> = vec![0u8];
    let n = rtl_get_tuner_reg(dev, tuner_addr, 0x00, buf.as_mut_slice());
    proof {
        let t2 = dev.transfers();
        lemma_extends_push(t1, t2.last());
        lemma_extends_trans(t0, t1, t2);
        let ops = added(t0, t2);
        assert(ops =~= added(t0, t1) + added(t1, t2));
        assert(added(t0, t1).skip(1).len() == 1);
        assert(ops[1] == added(t0, t1).skip(1)[0]);
    }
    match n {
        Ok(n) => Ok(BlockPathReport { iicb_value: v0, vendor_len: n, vendor_value: buf[0] }),
        Err(e) => Err(e),
    }
}

/// The SetTunReg writes of the 1090 MHz tuner profile, in order.
pub open spec fn tuner_profile_plan() -> Seq<OutRequest> {
    r82xx_1090mhz_profile_spec().map_values(
        |p: (u8, u8)| tuner_byte_write(TUNER_I2C_ADDR, p.0, p.1),
    )
}

/// Programs the 1090 MHz tuner profile register by register through
/// SetTunReg, stopping at the first failure. An empty profile sends nothing.
pub fn tuner_set_1090mhz(dev: &mut RtlDevice) -> (result: Result<(), rusb::Error>)
    ensures
        final(dev).endpoint_ops() == old(dev).endpoint_ops(),
        extends(old(dev).transfers(), final(dev).transfers()),
        ran_writes(added(old(dev).transfers(), final(dev).transfers()), tuner_profile_plan(), result),
{
    let profile = r82xx_1090mhz_profile();
    let mut plan: Vec<RegWrite> = Vec::new();
    let mut i: usize = 0;
    while i < profile.len()
        invariant
            profile@ == r82xx_1090mhz_profile_spec(),
            i <= profile@.len(),
            plan@.len() == i,
            forall|k: int| 0 <= k < i ==> (#[trigger] plan@[k]).valid(),
            forall|k: int| 0 <= k < i ==> (#[trigger] plan@[k]).request() == tuner_profile_plan()[k],
        decreases profile@.len() - i,
    {
        let (reg, val) = profile[i];
        plan.push(RegWrite::Tuner { i2c_addr: TUNER_I2C_ADDR, reg, value: val });
        i = i + 1;
    }
    proof {
        assert(requests_of(plan@) =~= tuner_profile_plan());
    }
    apply_writes(dev, &plan)
}

/// The I2C addresses probed for a tuner: the R820T/R828D write and read
/// addresses and two others.
pub open spec fn tuner_candidates() -> Seq<u8> {
    seq![0x34u8, 0x35u8, 0x36u8, 0x38u8]
}

/// `ops` reads register 0x00 at each candidate address in turn through
/// GetTunReg, whatever each read returns, and `probes` lists each address
/// with its byte or error.
pub open spec fn probes_ran(
    ops: Seq<ControlTransfer>,
    probes: Seq<(u8, Result<u8, rusb::Error>)>,
) -> bool {
    &&& probes.len() == 4
    &&& ops.len() == 4
    &&& forall|k: int|
        0 <= k < 4 ==> {
            &&& (#[trigger] probes[k]).0 == tuner_candidates()[k]
            &&& is_vendor_read(ops[k], tuner_value(tuner_candidates()[k], 0), 0x0300, 1)
            &&& probes[k].1 == byte_of(ops[k])
        }
}

/// Reads register 0x00 (the chip ID) at each candidate address through
/// GetTunReg and lists each address with its byte or error.
pub fn probe_tuner_addresses(dev: &mut RtlDevice) -> (probes: Vec<(u8, Result<u8, rusb::Error>)>)
    ensures
        final(dev).endpoint_ops() == old(dev).endpoint_ops(),
        extends(old(dev).transfers(), final(dev).transfers()),
        probes_ran(added(old(dev).transfers(), final(dev).transfers()), probes@),
{
    let ghost before = dev.transfers();
    proof {
        lemma_extends_refl(before);
    }
    let candidates: Vec<u8> = vec![0x34u8, 0x35u8, 0x36u8, 0x38u8];
    assert(candidates@ =~= tuner_candidates());
    let mut probes: Vec<(u8, Result<u8, rusb::Error>)> = Vec::new();
    let mut i: usize = 0;
    while i < 4
        invariant
            i <= 4,
            candidates@ == tuner_candidates(),
            before == old(dev).transfers(),
            dev.endpoint_ops() == old(dev).endpoint_ops(),
            extends(before, dev.transfers()),
            added(before, dev.transfers()).len() == i,
            probes@.len() == i,
            forall|j: int|
                0 <= j < i ==> {
                    let t = added(before, dev.transfers())[j];
                    &&& (#[trigger] probes@[j]).0 == tuner_candidates()[j]
                    &&& is_vendor_read(t, tuner_value(tuner_candidates()[j], 0), 0x0300, 1)
                    &&& probes@[j].1 == byte_of(t)
                },
        decreases 4 - i,
    {
        let addr = candidates[i];
        let ghost cur = dev.transfers();
        let r = rtl_read_tuner_reg_byte(dev, addr, 0x00);
        probes.push((addr, r));
        proof {
            lemma_extends_trans(before, cur, dev.transfers());
            let ops = added(before, dev.transfers());
            assert(ops =~= added(before, cur) + added(cur, dev.transfers()));
            assert(ops[i as int] == added(cur, dev.transfers())[0]);
        }
        i = i + 1;
    }
    probes
}

/// Whether some probe got an answer.
pub fn any_probe_succeeded(probes: &Vec<(u8, Result<u8, rusb::Error>)>) -> (found: bool)
    ensures
        found <==> exists|k: int| 0 <= k < probes@.len() && (#[trigger] probes@[k]).1 is Ok,
{
    let mut i: usize = 0;
    while i < probes.len()
        invariant
            i <= probes@.len(),
            forall|k: int| 0 <= k < i ==> (#[trigger] probes@[k]).1 is Err,
        decreases probes@.len() - i,
    {
        if probes[i].1.is_ok() {
            return true;
        }
        i = i + 1;
    }
    false
}

} // verus!
