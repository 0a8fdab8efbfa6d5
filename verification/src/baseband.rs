//! Baseband bring-up: USB block and demodulator initialisation, the FIR
//! filter, the resampler ratio, test mode and the USB FIFO reset.
use vstd::prelude::*;
use crate::constants::{
    fir_default, fir_default_spec, BLOCK_SYSB, BLOCK_USBB, DEMOD_CTL, DEMOD_CTL_1, USB_EPA_CTL,
    USB_EPA_MAXPKT, USB_SYSCTL_0,
};
use crate::regs::{apply_writes, demod_write, requests_of, RegWrite};
use crate::usb::{
    added, extends, lemma_extends_refl, lemma_extends_trans, lemma_ran_writes_concat, lemma_ran_writes_failed_prefix,
    is_vendor_write, ran_writes, ControlTransfer, OutRequest, RtlDevice,
};

verus! {

// ---------------------------------------------------------------------
// FIR filter coefficients
// ---------------------------------------------------------------------

/// The first eight taps fit a signed byte, the last eight twelve signed bits.
pub open spec fn fir_taps_in_range(taps: Seq<i16>) -> bool {
    &&& forall|i: int| 0 <= i < 8 ==> -128 <= #[trigger] taps[i] <= 127
    &&& forall|i: int| 8 <= i < 16 ==> -2048 <= #[trigger] taps[i] <= 2047
}

/// `v` as an 8-bit two's complement byte.
pub open spec fn twos_complement8(v: int) -> int {
    if v < 0 { v + 256 } else { v }
}

/// `v` as a 12-bit two's complement field.
pub open spec fn twos_complement12(v: int) -> int {
    if v < 0 { v + 4096 } else { v }
}

/// Byte `k` of the 20-byte FIR register image: eight one-byte taps, then
/// four pairs of 12-bit taps, each pair packed high nibbles first into three
/// bytes.
pub open spec fn fir_byte(taps: Seq<i16>, k: int) -> u8 {
    if k < 8 {
        twos_complement8(taps[k] as int) as u8
    } else {
        let j = (k - 8) / 3;
        let u0 = twos_complement12(taps[8 + 2 * j] as int);
        let u1 = twos_complement12(taps[9 + 2 * j] as int);
        let r = (k - 8) % 3;
        if r == 0 {
            (u0 / 16) as u8
        } else if r == 1 {
            ((u0 % 16) * 16 + u1 / 256) as u8
        } else {
            (u1 % 256) as u8
        }
    }
}

/// The 20-byte FIR register image of `taps`.
pub open spec fn fir_bytes(taps: Seq<i16>) -> Seq<u8> {
    Seq::new(20, |k: int| fir_byte(taps, k))
}

/// Reads a 12-bit two's complement field back as a signed value.
pub open spec fn from_twos_complement12(u: int) -> int {
    if u >= 2048 { u - 4096 } else { u }
}

/// Reads a byte back as a signed 8-bit value.
pub open spec fn from_twos_complement8(u: int) -> int {
    if u >= 128 { u - 256 } else { u }
}

/// An in-range 8-bit tap can be read back from its byte of the FIR
/// register image.
pub proof fn lemma_fir_byte_tap_roundtrip(taps: Seq<i16>, i: int)
    requires
        taps.len() == 16,
        fir_taps_in_range(taps),
        0 <= i < 8,
    ensures
        from_twos_complement8(fir_bytes(taps)[i] as int) == taps[i],
{
    assert(-128 <= taps[i] <= 127);
}

/// Both 12-bit taps of the pair `j` of an in-range set can be read back
/// from the pair's three bytes of the FIR register image: the first from
/// the first byte and the high nibble of the second, the other from the low
/// nibble of the second byte and the third.
pub proof fn lemma_fir_pair_roundtrip(taps: Seq<i16>, j: int)
    requires
        taps.len() == 16,
        fir_taps_in_range(taps),
        0 <= j < 4,
    ensures
        ({
            let b0 = fir_bytes(taps)[8 + 3 * j] as int;
            let b1 = fir_bytes(taps)[9 + 3 * j] as int;
            let b2 = fir_bytes(taps)[10 + 3 * j] as int;
            &&& from_twos_complement12(b0 * 16 + b1 / 16) == taps[8 + 2 * j]
            &&& from_twos_complement12((b1 % 16) * 256 + b2) == taps[9 + 2 * j]
        }),
{
    assert((8 + 3 * j - 8) / 3 == j);
    assert((9 + 3 * j - 8) / 3 == j);
    assert((10 + 3 * j - 8) / 3 == j);
    assert((8 + 3 * j - 8) % 3 == 0);
    assert((9 + 3 * j - 8) % 3 == 1);
    assert((10 + 3 * j - 8) % 3 == 2);
    let v0 = taps[8 + 2 * j] as int;
    let v1 = taps[9 + 2 * j] as int;
    assert(-2048 <= v0 <= 2047);
    assert(-2048 <= v1 <= 2047);
    let u0 = twos_complement12(v0);
    let u1 = twos_complement12(v1);
    assert((u0 / 16) * 16 + ((u0 % 16) * 16 + u1 / 256) / 16 == u0) by (nonlinear_arith)
        requires
            0 <= u0 < 4096,
            0 <= u1 < 4096,
    ;
    assert((((u0 % 16) * 16 + u1 / 256) % 16) * 256 + u1 % 256 == u1) by (nonlinear_arith)
        requires
            0 <= u0 < 4096,
            0 <= u1 < 4096,
    ;
}

fn twos_complement12_of(v: i16) -> (u: u16)
    requires
        -2048 <= v <= 2047,
    ensures
        u as int == twos_complement12(v as int),
        u < 4096,
{
    if v < 0 {
        (v as i32 + 4096) as u16
    } else {
        v as u16
    }
}

/// Packs 16 FIR taps into the 20-byte register image, or `None` when a tap
/// does not fit its field.
pub fn fir_coefficient_bytes(taps: &Vec<i16>) -> (result: Option<Vec<u8>>)
    requires
        taps@.len() == 16,
    ensures
        result is None <==> !fir_taps_in_range(taps@),
        result matches Some(bytes) ==> bytes@ == fir_bytes(taps@),
{
    let mut i: usize = 0;
    while i < 16
        invariant
            taps@.len() == 16,
            i <= 16,
            forall|k: int| 0 <= k < i && k < 8 ==> -128 <= #[trigger] taps@[k] <= 127,
            forall|k: int| 8 <= k < i ==> -2048 <= #[trigger] taps@[k] <= 2047,
        decreases 16 - i,
    {
        let v = taps[i];
        if i < 8 {
            if v < -128 || v > 127 {
                return None;
            }
        } else {
            if v < -2048 || v > 2047 {
                return None;
            }
        }
        i = i + 1;
    }
    let mut bytes: Vec<u8> = Vec::new();
    let mut i: usize = 0;
    while i < 8
        invariant
            taps@.len() == 16,
            fir_taps_in_range(taps@),
            i <= 8,
            bytes@ == fir_bytes(taps@).take(i as int),
        decreases 8 - i,
    {
        let v = taps[i];
        assert(-128 <= taps@[i as int] <= 127);
        let b: u8 = if v < 0 {
            (v + 256) as u8
        } else {
            v as u8
        };
        bytes.push(b);
        assert(bytes@ =~= fir_bytes(taps@).take(i + 1));
        i = i + 1;
    }
    let mut j: usize = 0;
    while j < 4
        invariant
            taps@.len() == 16,
            fir_taps_in_range(taps@),
            j <= 4,
            bytes@ == fir_bytes(taps@).take(8 + 3 * j),
        decreases 4 - j,
    {
        let v0 = taps[8 + 2 * j];
        let v1 = taps[9 + 2 * j];
        assert(-2048 <= taps@[8 + 2 * j] <= 2047);
        assert(-2048 <= taps@[9 + 2 * j] <= 2047);
        let u0 = twos_complement12_of(v0);
        let u1 = twos_complement12_of(v1);
        bytes.push((u0 / 16) as u8);
        bytes.push(((u0 % 16) * 16 + u1 / 256) as u8);
        bytes.push((u1 % 256) as u8);
        proof {
            let k = 8 + 3 * j;
            assert((k - 8) / 3 == j && (k - 8) % 3 == 0);
            assert((k + 1 - 8) / 3 == j && (k + 1 - 8) % 3 == 1);
            assert((k + 2 - 8) / 3 == j && (k + 2 - 8) % 3 == 2);
            assert(bytes@ =~= fir_bytes(taps@).take(8 + 3 * (j + 1)));
        }
        j = j + 1;
    }
    assert(bytes@ =~= fir_bytes(taps@));
    Some(bytes)
}

/// The demodulator writes that load a FIR register image: byte `i` goes to
/// page 1, register 0x1c + i.
pub open spec fn fir_plan(bytes: Seq<u8>) -> Seq<OutRequest> {
    Seq::new(bytes.len(), |i: int| demod_write(1, (0x1c + i) as u16, bytes[i] as u16, 1))
}

/// Loads the default FIR taps into demodulator page 1, registers 0x1c..0x2f.
pub fn rtl_set_fir(dev: &mut RtlDevice) -> (result: Result<(), rusb::Error>)
    ensures
        final(dev).endpoint_ops() == old(dev).endpoint_ops(),
        extends(old(dev).transfers(), final(dev).transfers()),
        ran_writes(
            added(old(dev).transfers(), final(dev).transfers()),
            fir_plan(fir_bytes(fir_default_spec())),
            result,
        ),
{
    let taps = fir_default();
    proof {
        assert(fir_taps_in_range(taps@));
    }
    let bytes = match fir_coefficient_bytes(&taps) {
        Some(b) => b,
        None => {
            return Ok(());
        },
    };
    let mut plan: Vec<RegWrite> = Vec::new();
    let mut i: usize = 0;
    while i < bytes.len()
        invariant
            bytes@.len() == 20,
            i <= 20,
            plan@.len() == i,
            forall|k: int| 0 <= k < i ==> (#[trigger] plan@[k]).valid(),
            forall|k: int|
                0 <= k < i ==> (#[trigger] plan@[k]).request() == fir_plan(bytes@)[k],
        decreases 20 - i,
    {
        plan.push(RegWrite::Demod { page: 1, addr: 0x001c + i as u16, val: bytes[i] as u16, len: 1 });
        i = i + 1;
    }
    proof {
        assert(requests_of(plan@) =~= fir_plan(bytes@));
    }
    apply_writes(dev, &plan)
}

// ---------------------------------------------------------------------
// Baseband initialisation
// ---------------------------------------------------------------------

/// USB block set-up, demodulator power-on and soft reset, and clearing of
/// the spectrum inversion, adjacent channel rejection, DDC shift and IF
/// frequency registers: the writes that come before the FIR image.
pub open spec fn baseband_head() -> Seq<RegWrite> {
    seq![
        RegWrite::Block { block: BLOCK_USBB, addr: USB_SYSCTL_0, val: 0x0009, len: 1 },
        RegWrite::Block { block: BLOCK_USBB, addr: USB_EPA_MAXPKT, val: 0x0002, len: 2 },
        RegWrite::Block { block: BLOCK_USBB, addr: USB_EPA_CTL, val: 0x1002, len: 2 },
        RegWrite::Block { block: BLOCK_SYSB, addr: DEMOD_CTL_1, val: 0x0022, len: 1 },
        RegWrite::Block { block: BLOCK_SYSB, addr: DEMOD_CTL, val: 0x00e8, len: 1 },
        RegWrite::Demod { page: 1, addr: 0x0001, val: 0x0014, len: 1 },
        RegWrite::Demod { page: 1, addr: 0x0001, val: 0x0010, len: 1 },
        RegWrite::Demod { page: 1, addr: 0x0015, val: 0x0000, len: 1 },
        RegWrite::Demod { page: 1, addr: 0x0016, val: 0x0000, len: 2 },
        RegWrite::Demod { page: 1, addr: 0x0016, val: 0x0000, len: 1 },
        RegWrite::Demod { page: 1, addr: 0x0017, val: 0x0000, len: 1 },
        RegWrite::Demod { page: 1, addr: 0x0018, val: 0x0000, len: 1 },
        RegWrite::Demod { page: 1, addr: 0x0019, val: 0x0000, len: 1 },
        RegWrite::Demod { page: 1, addr: 0x001a, val: 0x0000, len: 1 },
        RegWrite::Demod { page: 1, addr: 0x001b, val: 0x0000, len: 1 },
    ]
}

/// SDR mode, FSM state-holding registers, AGC and PID filter off, default
/// ADC datapath, zero-IF with DC and IQ compensation, TP_CK0 clock output
/// off: the writes that come after the FIR image.
pub open spec fn baseband_tail() -> Seq<RegWrite> {
    seq![
        RegWrite::Demod { page: 0, addr: 0x0019, val: 0x0005, len: 1 },
        RegWrite::Demod { page: 1, addr: 0x0093, val: 0x00f0, len: 1 },
        RegWrite::Demod { page: 1, addr: 0x0094, val: 0x000f, len: 1 },
        RegWrite::Demod { page: 1, addr: 0x0011, val: 0x0000, len: 1 },
        RegWrite::Demod { page: 1, addr: 0x0004, val: 0x0000, len: 1 },
        RegWrite::Demod { page: 0, addr: 0x0061, val: 0x0060, len: 1 },
        RegWrite::Demod { page: 0, addr: 0x0006, val: 0x0080, len: 1 },
        RegWrite::Demod { page: 1, addr: 0x00b1, val: 0x001b, len: 1 },
        RegWrite::Demod { page: 0, addr: 0x000d, val: 0x0083, len: 1 },
    ]
}

/// The baseband initialisation leaves the demodulator in SDR mode with the
/// internal counter stream off: its write of page 0 register 0x19 is the
/// one that switching test mode off makes, and no later write of the
/// initialisation touches that register.
pub proof fn lemma_baseband_leaves_test_mode_off()
    ensures
        requests_of(baseband_tail())[0] == demod_write(0, 0x0019, 0x05, 1),
        forall|i: int|
            1 <= i < baseband_tail().len() ==> (#[trigger] requests_of(baseband_tail())[i]).value
                != demod_write(0, 0x0019, 0x05, 1).value || requests_of(baseband_tail())[i].index
                != demod_write(0, 0x0019, 0x05, 1).index,
{
    crate::regs::lemma_demod_value_fields(0x0019);
    crate::regs::lemma_demod_value_fields(0x0093);
    crate::regs::lemma_demod_value_fields(0x0094);
    crate::regs::lemma_demod_value_fields(0x0011);
    crate::regs::lemma_demod_value_fields(0x0004);
    crate::regs::lemma_demod_value_fields(0x0061);
    crate::regs::lemma_demod_value_fields(0x0006);
    crate::regs::lemma_demod_value_fields(0x00b1);
    crate::regs::lemma_demod_value_fields(0x000d);
}

/// Every register write of the baseband initialisation, in order.
pub open spec fn baseband_init_plan() -> Seq<OutRequest> {
    requests_of(baseband_head()) + fir_plan(fir_bytes(fir_default_spec())) + requests_of(
        baseband_tail(),
    )
}

/// A complete baseband initialisation takes the demodulator through its
/// soft reset and leaves it out of it: page 1 register 0x01 is written 0x14
/// (soft reset held) and later 0x10 (soft reset released), and no transfer
/// after that second write touches the register again.
pub proof fn lemma_baseband_init_releases_soft_reset(ops: Seq<ControlTransfer>)
    requires
        ran_writes(ops, baseband_init_plan(), Ok(())),
    ensures
        exists|i: int, j: int|
            0 <= i < j < ops.len() && {
                &&& (#[trigger] ops[i]).request_type == 0x40
                &&& ops[i].value == 0x0120
                &&& ops[i].index == 0x0011
                &&& ops[i].data == seq![0x14u8]
                &&& (#[trigger] ops[j]).request_type == 0x40
                &&& ops[j].value == 0x0120
                &&& ops[j].index == 0x0011
                &&& ops[j].data == seq![0x10u8]
                &&& forall|k: int|
                    j < k < ops.len() ==> !((#[trigger] ops[k]).value == 0x0120 && ops[k].index
                        == 0x0011)
            },
{
    let head = requests_of(baseband_head());
    let fir = fir_plan(fir_bytes(fir_default_spec()));
    let tail = requests_of(baseband_tail());
    let plan = baseband_init_plan();
    assert(head.len() == 15);
    assert(fir.len() == 20);
    assert(tail.len() == 9);
    assert(plan.len() == 44);
    assert((0x10u16 | (1u8 as u16)) as u16 == 0x11u16) by (bit_vector);
    assert((0x10u16 | (0u8 as u16)) as u16 == 0x10u16) by (bit_vector);
    crate::regs::lemma_demod_value_fields(0x0001);
    assert(plan[5] == head[5]);
    assert(plan[6] == head[6]);
    assert(is_vendor_write(ops[5], plan[5]));
    assert(is_vendor_write(ops[6], plan[6]));
    assert forall|k: int| 6 < k < ops.len() implies !((#[trigger] ops[k]).value == 0x0120
        && ops[k].index == 0x0011) by {
        assert(is_vendor_write(ops[k], plan[k]));
        if k < 15 {
            assert(plan[k] == head[k]);
            assert(head[k] == baseband_head()[k].request());
            if k == 7 {
                crate::regs::lemma_demod_value_fields(0x0015);
            } else if k <= 9 {
                crate::regs::lemma_demod_value_fields(0x0016);
            } else if k == 10 {
                crate::regs::lemma_demod_value_fields(0x0017);
            } else if k == 11 {
                crate::regs::lemma_demod_value_fields(0x0018);
            } else if k == 12 {
                crate::regs::lemma_demod_value_fields(0x0019);
            } else if k == 13 {
                crate::regs::lemma_demod_value_fields(0x001a);
            } else {
                crate::regs::lemma_demod_value_fields(0x001b);
            }
        } else if k < 35 {
            let i = k - 15;
            assert(plan[k] == fir[i]);
            crate::regs::lemma_demod_value_fields((0x1c + i) as u16);
        } else {
            let i = k - 35;
            assert(plan[k] == tail[i]);
            assert(tail[i] == baseband_tail()[i].request());
            if i == 0 {
                crate::regs::lemma_demod_value_fields(0x0019);
            } else if i == 1 {
                crate::regs::lemma_demod_value_fields(0x0093);
            } else if i == 2 {
                crate::regs::lemma_demod_value_fields(0x0094);
            } else if i == 3 {
                crate::regs::lemma_demod_value_fields(0x0011);
            } else if i == 4 {
                crate::regs::lemma_demod_value_fields(0x0004);
            } else if i == 5 {
                crate::regs::lemma_demod_value_fields(0x0061);
            } else if i == 6 {
                crate::regs::lemma_demod_value_fields(0x0006);
            } else if i == 7 {
                crate::regs::lemma_demod_value_fields(0x00b1);
            } else {
                crate::regs::lemma_demod_value_fields(0x000d);
            }
        }
    }
    assert(ops[5].data == seq![0x14u8]);
    assert(ops[6].data == seq![0x10u8]);
}

fn baseband_head_writes() -> (plan: Vec<RegWrite>)
    ensures
        plan@ == baseband_head(),
        forall|i: int| 0 <= i < plan@.len() ==> (#[trigger] plan@[i]).valid(),
{
    let mut plan: Vec<RegWrite> = Vec::new();
    plan.push(RegWrite::Block { block: BLOCK_USBB, addr: USB_SYSCTL_0, val: 0x0009, len: 1 });
    plan.push(RegWrite::Block { block: BLOCK_USBB, addr: USB_EPA_MAXPKT, val: 0x0002, len: 2 });
    plan.push(RegWrite::Block { block: BLOCK_USBB, addr: USB_EPA_CTL, val: 0x1002, len: 2 });
    plan.push(RegWrite::Block { block: BLOCK_SYSB, addr: DEMOD_CTL_1, val: 0x0022, len: 1 });
    plan.push(RegWrite::Block { block: BLOCK_SYSB, addr: DEMOD_CTL, val: 0x00e8, len: 1 });
    plan.push(RegWrite::Demod { page: 1, addr: 0x0001, val: 0x0014, len: 1 });
    plan.push(RegWrite::Demod { page: 1, addr: 0x0001, val: 0x0010, len: 1 });
    plan.push(RegWrite::Demod { page: 1, addr: 0x0015, val: 0x0000, len: 1 });
    plan.push(RegWrite::Demod { page: 1, addr: 0x0016, val: 0x0000, len: 2 });
    let mut offset: u16 = 0;
    while offset < 6
        invariant
            offset <= 6,
            plan@.len() == 9 + offset,
            forall|i: int| 0 <= i < plan@.len() ==> plan@[i] == baseband_head()[i],
        decreases 6 - offset,
    {
        plan.push(RegWrite::Demod { page: 1, addr: 0x0016 + offset, val: 0x0000, len: 1 });
        offset = offset + 1;
    }
    assert(plan@ =~= baseband_head());
    plan
}

fn baseband_tail_writes() -> (plan: Vec<RegWrite>)
    ensures
        plan@ == baseband_tail(),
        forall|i: int| 0 <= i < plan@.len() ==> (#[trigger] plan@[i]).valid(),
{
    let mut plan: Vec<RegWrite> = Vec::new();
    plan.push(RegWrite::Demod { page: 0, addr: 0x0019, val: 0x0005, len: 1 });
    plan.push(RegWrite::Demod { page: 1, addr: 0x0093, val: 0x00f0, len: 1 });
    plan.push(RegWrite::Demod { page: 1, addr: 0x0094, val: 0x000f, len: 1 });
    plan.push(RegWrite::Demod { page: 1, addr: 0x0011, val: 0x0000, len: 1 });
    plan.push(RegWrite::Demod { page: 1, addr: 0x0004, val: 0x0000, len: 1 });
    plan.push(RegWrite::Demod { page: 0, addr: 0x0061, val: 0x0060, len: 1 });
    plan.push(RegWrite::Demod { page: 0, addr: 0x0006, val: 0x0080, len: 1 });
    plan.push(RegWrite::Demod { page: 1, addr: 0x00b1, val: 0x001b, len: 1 });
    plan.push(RegWrite::Demod { page: 0, addr: 0x000d, val: 0x0083, len: 1 });
    assert(plan@ =~= baseband_tail());
    plan
}

/// Powers up and initialises the USB block and the demodulator, with the
/// default FIR taps, SDR mode and zero-IF: the writes of
/// `baseband_init_plan`, in order, stopping at the first failure.
pub fn init_baseband(dev: &mut RtlDevice) -> (result: Result<(), rusb::Error>)
    ensures
        final(dev).endpoint_ops() == old(dev).endpoint_ops(),
        extends(old(dev).transfers(), final(dev).transfers()),
        ran_writes(added(old(dev).transfers(), final(dev).transfers()), baseband_init_plan(), result),
{
    let ghost t0 = dev.transfers();
    let head = baseband_head_writes();
    let r1 = apply_writes(dev, &head);
    let ghost t1 = dev.transfers();
    let ghost p1 = requests_of(baseband_head());
    let ghost p2 = fir_plan(fir_bytes(fir_default_spec()));
    let ghost p3 = requests_of(baseband_tail());
    if let Err(e) = r1 {
        proof {
            lemma_ran_writes_failed_prefix(added(t0, t1), p1, p2 + p3, e);
            assert(p1 + (p2 + p3) =~= baseband_init_plan());
        }
        return Err(e);
    }
    let r2 = rtl_set_fir(dev);
    let ghost t2 = dev.transfers();
    proof {
        lemma_extends_trans(t0, t1, t2);
        lemma_ran_writes_concat(added(t0, t1), p1, added(t1, t2), p2, r2);
    }
    if let Err(e) = r2 {
        proof {
            lemma_ran_writes_failed_prefix(added(t0, t2), p1 + p2, p3, e);
        }
        return Err(e);
    }
    let tail = baseband_tail_writes();
    let r3 = apply_writes(dev, &tail);
    proof {
        let t3 = dev.transfers();
        lemma_extends_trans(t0, t2, t3);
        lemma_ran_writes_concat(added(t0, t2), p1 + p2, added(t2, t3), p3, r3);
    }
    r3
}

// ---------------------------------------------------------------------
// Resampler ratio and sample rate
// ---------------------------------------------------------------------

/// Reference crystal of the RTL2832U, in Hz.
pub const RTL_XTAL_HZ: u32 = 28_800_000;

/// The crystal frequency times 2^22, the numerator of the resampler ratio.
pub const XTAL_SCALED: u64 = 120_795_955_200_000;

/// The sample rates the resampler can produce: above 225 kHz, at most
/// 3.2 MHz, and outside the gap (300 kHz, 900 kHz].
pub open spec fn valid_sample_rate(samp_rate: u32) -> bool {
    !(samp_rate <= 225_000 || samp_rate > 3_200_000 || (samp_rate > 300_000 && samp_rate
        <= 900_000))
}

/// Whether the resampler can produce `samp_rate`.
pub fn is_valid_sample_rate(samp_rate: u32) -> (valid: bool)
    ensures
        valid == valid_sample_rate(samp_rate),
{
    !(samp_rate <= 225_000 || samp_rate > 3_200_000 || (samp_rate > 300_000 && samp_rate <= 900_000))
}

/// The resampler ratio register value for `samp_rate`: crystal * 2^22 /
/// rate, with the two low bits and everything from bit 28 up cleared.
pub open spec fn rsamp_ratio(samp_rate: u32) -> u32 {
    ((XTAL_SCALED / (samp_rate as u64)) & 0x0fff_fffcu64) as u32
}

/// The ratio the resampler actually uses: bit 27 of the register value is
/// repeated into bit 28.
pub open spec fn real_rsamp_ratio(ratio: u32) -> u32 {
    if ratio & 0x0800_0000u32 != 0 {
        ratio | 0x1000_0000u32
    } else {
        ratio
    }
}

/// The sample rate the resampler produces for a requested `samp_rate`,
/// rounded down to a whole Hz.
pub open spec fn real_sample_rate(samp_rate: u32) -> u32 {
    (XTAL_SCALED / (real_rsamp_ratio(rsamp_ratio(samp_rate)) as u64)) as u32
}

/// The writes that program the resampler ratio for `samp_rate` (high word
/// to 0x9f, low word to 0xa1 of page 1) and soft-reset the demodulator.
pub open spec fn sample_rate_plan(samp_rate: u32) -> Seq<RegWrite> {
    let ratio = rsamp_ratio(samp_rate);
    seq![
        RegWrite::Demod { page: 1, addr: 0x009f, val: (ratio / 65536) as u16, len: 2 },
        RegWrite::Demod { page: 1, addr: 0x00a1, val: (ratio % 65536) as u16, len: 2 },
        RegWrite::Demod { page: 1, addr: 0x0001, val: 0x0014, len: 1 },
        RegWrite::Demod { page: 1, addr: 0x0001, val: 0x0010, len: 1 },
    ]
}

proof fn lemma_quotient_bands(samp_rate: u32)
    requires
        valid_sample_rate(samp_rate),
    ensures
        ({
            let q = XTAL_SCALED / (samp_rate as u64);
            ||| 37_748_736 <= q < 134_217_728
            ||| 402_653_184 <= q < 536_870_912
        }),
        (XTAL_SCALED / (samp_rate as u64)) * samp_rate <= XTAL_SCALED,
        XTAL_SCALED < (XTAL_SCALED / (samp_rate as u64) + 1) * samp_rate,
{
    let x = XTAL_SCALED as int;
    let r = samp_rate as int;
    let q = x / r;
    vstd::arithmetic::div_mod::lemma_fundamental_div_mod(x, r);
    assert(0 <= x % r < r) by {
        vstd::arithmetic::div_mod::lemma_mod_bound(x, r);
    }
    if r > 900_000 {
        vstd::arithmetic::div_mod::lemma_div_is_ordered_by_denominator(x, r, 3_200_000);
        vstd::arithmetic::div_mod::lemma_div_is_ordered_by_denominator(x, 900_001, r);
        assert(x / 3_200_000 == 37_748_736);
        assert(x / 900_001 < 134_217_728);
    } else {
        vstd::arithmetic::div_mod::lemma_div_is_ordered_by_denominator(x, r, 300_000);
        vstd::arithmetic::div_mod::lemma_div_is_ordered_by_denominator(x, 225_001, r);
        assert(x / 300_000 == 402_653_184);
        assert(x / 225_001 < 536_870_912);
    }
    assert(q * r <= x) by (nonlinear_arith)
        requires
            x == r * q + x % r,
            0 <= x % r,
    ;
    assert(x < (q + 1) * r) by (nonlinear_arith)
        requires
            x == r * q + x % r,
            x % r < r,
    ;
}

/// For every valid rate: the ratio register value is a multiple of four
/// below 2^28; the ratio the resampler uses is the exact quotient
/// crystal * 2^22 / rate with only its two low bits cleared; and the
/// produced rate, rounded down to a whole Hz, is the requested one.
pub proof fn lemma_sample_rate_exact(samp_rate: u32)
    requires
        valid_sample_rate(samp_rate),
    ensures
        rsamp_ratio(samp_rate) % 4 == 0,
        rsamp_ratio(samp_rate) < 0x1000_0000,
        rsamp_ratio(samp_rate) >= 37_748_736,
        real_rsamp_ratio(rsamp_ratio(samp_rate)) == (XTAL_SCALED / (samp_rate as u64))
            & 0x1fff_fffcu64,
        real_rsamp_ratio(rsamp_ratio(samp_rate)) >= 37_748_736,
        real_sample_rate(samp_rate) == samp_rate,
        (rsamp_ratio(samp_rate) / 65536) * 65536 + rsamp_ratio(samp_rate) % 65536 == rsamp_ratio(
            samp_rate,
        ),
        rsamp_ratio(samp_rate) / 65536 < 0x1000,
{
    lemma_quotient_bands(samp_rate);
    let q: u64 = XTAL_SCALED / (samp_rate as u64);
    let ratio: u32 = rsamp_ratio(samp_rate);
    assert(ratio == (q & 0x0fff_fffcu64) as u32);
    assert((q & 0x0fff_fffcu64) % 4 == 0 && (q & 0x0fff_fffcu64) < 0x1000_0000) by (bit_vector);
    assert(37_748_736 <= q < 134_217_728 ==> {
        &&& (q & 0x0fff_fffcu64) >= 37_748_736
        &&& (q & 0x0fff_fffcu64) & 0x0800_0000u64 == 0
        &&& (q & 0x0fff_fffcu64) == q & 0x1fff_fffcu64
        &&& q - 3 <= (q & 0x0fff_fffcu64) <= q
    }) by (bit_vector);
    assert(402_653_184 <= q < 536_870_912 ==> {
        &&& (q & 0x0fff_fffcu64) >= 134_217_728
        &&& (q & 0x0fff_fffcu64) & 0x0800_0000u64 != 0
        &&& ((q & 0x0fff_fffcu64) | 0x1000_0000u64) == q & 0x1fff_fffcu64
        &&& q - 3 <= (q & 0x1fff_fffcu64) <= q
    }) by (bit_vector);
    let r64: u64 = q & 0x0fff_fffcu64;
    assert(r64 < 0x1000_0000);
    assert((r64 as u32) & 0x0800_0000u32 == (r64 & 0x0800_0000u64) as u32) by (bit_vector)
        requires
            r64 < 0x1000_0000,
    ;
    assert(((r64 as u32) | 0x1000_0000u32) as u64 == r64 | 0x1000_0000u64) by (bit_vector)
        requires
            r64 < 0x1000_0000,
    ;
    let m: u64 = q & 0x1fff_fffcu64;
    assert(real_rsamp_ratio(ratio) as u64 == m);
    let x = XTAL_SCALED as int;
    let r = samp_rate as int;
    assert(r <= 3_200_000);
    assert(q >= 37_748_736);
    assert(r * (m as int) <= x && x < (r + 1) * (m as int)) by (nonlinear_arith)
        requires
            (q as int) * r <= x,
            x < (q as int + 1) * r,
            q as int - 3 <= m as int <= q as int,
            0 < r <= 3_200_000,
            q as int >= 37_748_736,
    ;
    assert(0 <= x - r * (m as int) < m as int) by (nonlinear_arith)
        requires
            r * (m as int) <= x,
            x < (r + 1) * (m as int),
    ;
    assert(x / (m as int) == r) by {
        vstd::arithmetic::div_mod::lemma_fundamental_div_mod_converse_div(
            x,
            m as int,
            r,
            x - r * (m as int),
        );
        assert(x == r * (m as int) + (x - r * (m as int)));
    }
}

/// The resampler settings for one sample rate.
pub struct RsampRatio {
    /// The value of the ratio registers.
    pub ratio: u32,
    /// The ratio the resampler uses.
    pub real_ratio: u32,
    /// The produced rate, rounded down to a whole Hz.
    pub real_rate: u32,
}

/// Computes the resampler settings for a valid sample rate.
pub fn compute_rsamp_ratio(samp_rate: u32) -> (settings: RsampRatio)
    requires
        valid_sample_rate(samp_rate),
    ensures
        settings.ratio == rsamp_ratio(samp_rate),
        settings.real_ratio == real_rsamp_ratio(settings.ratio),
        settings.real_rate == real_sample_rate(samp_rate),
        settings.real_rate == samp_rate,
{
    proof {
        lemma_sample_rate_exact(samp_rate);
    }
    let ratio: u32 = ((XTAL_SCALED / (samp_rate as u64)) & 0x0fff_fffcu64) as u32;
    let real_ratio: u32 = if ratio & 0x0800_0000u32 != 0 {
        ratio | 0x1000_0000u32
    } else {
        ratio
    };
    assert(real_ratio == real_rsamp_ratio(rsamp_ratio(samp_rate)));
    let real_rate: u32 = (XTAL_SCALED / (real_ratio as u64)) as u32;
    RsampRatio { ratio, real_ratio, real_rate }
}

/// Forgets the value of a result, keeping success or the error.
pub open spec fn outcome_of<T>(result: Result<T, rusb::Error>) -> Result<(), rusb::Error> {
    match result {
        Ok(_) => Ok(()),
        Err(e) => Err(e),
    }
}

/// `ops` and `result` are a sample rate change to `samp_rate`: nothing and
/// `Ok(0)` for a rate the resampler cannot produce; otherwise the writes of
/// `sample_rate_plan`, stopping at the first failure, answered with the
/// produced rate when they all went through.
pub open spec fn sample_rate_ran(
    ops: Seq<ControlTransfer>,
    samp_rate: u32,
    result: Result<u32, rusb::Error>,
) -> bool {
    if !valid_sample_rate(samp_rate) {
        ops.len() == 0 && result == Ok::<u32, rusb::Error>(0)
    } else {
        &&& ran_writes(ops, requests_of(sample_rate_plan(samp_rate)), outcome_of(result))
        &&& result matches Ok(rate) ==> rate == real_sample_rate(samp_rate)
    }
}

/// Programs the resampler for `samp_rate` and soft-resets the demodulator,
/// returning the rate produced. A rate the resampler cannot produce is
/// answered with `Ok(0)` and nothing is sent.
pub fn rtl_set_sample_rate(dev: &mut RtlDevice, samp_rate: u32) -> (result: Result<u32, rusb::Error>)
    ensures
        final(dev).endpoint_ops() == old(dev).endpoint_ops(),
        extends(old(dev).transfers(), final(dev).transfers()),
        !valid_sample_rate(samp_rate) ==> {
            &&& result == Ok::<u32, rusb::Error>(0)
            &&& final(dev).transfers() == old(dev).transfers()
        },
        valid_sample_rate(samp_rate) ==> {
            &&& ran_writes(
                added(old(dev).transfers(), final(dev).transfers()),
                requests_of(sample_rate_plan(samp_rate)),
                outcome_of(result),
            )
            &&& result matches Ok(rate) ==> rate == real_sample_rate(samp_rate)
        },
        sample_rate_ran(added(old(dev).transfers(), final(dev).transfers()), samp_rate, result),
{
    if !is_valid_sample_rate(samp_rate) {
        proof {
            lemma_extends_refl(dev.transfers());
        }
        return Ok(0);
    }
    let settings = compute_rsamp_ratio(samp_rate);
    let tmp_hi: u16 = (settings.ratio / 65536) as u16;
    let tmp_lo: u16 = (settings.ratio % 65536) as u16;
    let mut plan: Vec<RegWrite> = Vec::new();
    plan.push(RegWrite::Demod { page: 1, addr: 0x009f, val: tmp_hi, len: 2 });
    plan.push(RegWrite::Demod { page: 1, addr: 0x00a1, val: tmp_lo, len: 2 });
    plan.push(RegWrite::Demod { page: 1, addr: 0x0001, val: 0x0014, len: 1 });
    plan.push(RegWrite::Demod { page: 1, addr: 0x0001, val: 0x0010, len: 1 });
    assert(plan@ =~= sample_rate_plan(samp_rate));
    match apply_writes(dev, &plan) {
        Ok(()) => Ok(settings.real_rate),
        Err(e) => Err(e),
    }
}

/// For every rate the resampler can produce, the sample rate change writes
/// the resampler ratio as two 16-bit words, high word first: its first
/// transfer writes two bytes (high byte first) to page 1 register 0x9f, and
/// when that write goes through, the next one writes two bytes to page 1
/// register 0xa1; the first word times 65536 plus the second is the ratio
/// register value crystal * 2^22 / rate (two low bits cleared). A reported
/// rate is the one asked for.
pub proof fn lemma_sample_rate_words(
    ops: Seq<ControlTransfer>,
    samp_rate: u32,
    result: Result<u32, rusb::Error>,
)
    requires
        valid_sample_rate(samp_rate),
        sample_rate_ran(ops, samp_rate, result),
    ensures
        ops.len() >= 1,
        ops[0].request_type == 0x40,
        ops[0].request == 0,
        ops[0].value == 0x9f20,
        ops[0].index == 0x0011,
        ops[0].data.len() == 2,
        ops[0].outcome is Ok ==> {
            &&& ops.len() >= 2
            &&& ops[1].request_type == 0x40
            &&& ops[1].request == 0
            &&& ops[1].value == 0xa120
            &&& ops[1].index == 0x0011
            &&& ops[1].data.len() == 2
            &&& (ops[0].data[0] as int * 256 + ops[0].data[1] as int) * 65536 + ops[1].data[0] as int
                * 256 + ops[1].data[1] as int == rsamp_ratio(samp_rate)
        },
        result matches Ok(rate) ==> rate == samp_rate,
{
    lemma_sample_rate_exact(samp_rate);
    let ratio = rsamp_ratio(samp_rate);
    let plan = requests_of(sample_rate_plan(samp_rate));
    let hi = (ratio / 65536) as u16;
    let lo = (ratio % 65536) as u16;
    assert(hi as int == ratio / 65536);
    assert(lo as int == ratio % 65536);
    crate::regs::lemma_demod_value_fields(0x009f);
    crate::regs::lemma_demod_value_fields(0x00a1);
    crate::regs::lemma_reg_bytes_roundtrip(hi);
    crate::regs::lemma_reg_bytes_roundtrip(lo);
    assert((0x10u16 | (1u8 as u16)) as u16 == 0x11u16) by (bit_vector);
    assert(plan.len() == 4);
    assert(plan[0] == demod_write(1, 0x009f, hi, 2));
    assert(plan[1] == demod_write(1, 0x00a1, lo, 2));
    assert(ops.len() >= 1);
    assert(is_vendor_write(ops[0], plan[0]));
    if ops[0].outcome is Ok {
        assert(ops.len() >= 2);
        assert(is_vendor_write(ops[1], plan[1]));
        assert(ops[0].data[0] as int * 256 + ops[0].data[1] as int == hi);
        assert(ops[1].data[0] as int * 256 + ops[1].data[1] as int == lo);
    }
}

/// Switches the demodulator's internal 8-bit counter stream on or off:
/// page 0 register 0x19 gets 0x03 for on, 0x05 (SDR mode) for off.
pub fn rtl_set_testmode(dev: &mut RtlDevice, on: bool) -> (result: Result<(), rusb::Error>)
    ensures
        final(dev).endpoint_ops() == old(dev).endpoint_ops(),
        extends(old(dev).transfers(), final(dev).transfers()),
        ran_writes(
            added(old(dev).transfers(), final(dev).transfers()),
            seq![demod_write(0, 0x0019, if on { 0x03 } else { 0x05 }, 1)],
            result,
        ),
{
    let value: u16 = if on {
        0x03
    } else {
        0x05
    };
    let mut plan: Vec<RegWrite> = Vec::new();
    plan.push(RegWrite::Demod { page: 0, addr: 0x0019, val: value, len: 1 });
    proof {
        assert(requests_of(plan@) =~= seq![demod_write(0, 0x0019, value, 1)]);
    }
    apply_writes(dev, &plan)
}

/// The two writes of USB_EPA_CTL that flush the endpoint FIFO.
pub open spec fn reset_buffer_plan() -> Seq<RegWrite> {
    seq![
        RegWrite::Block { block: BLOCK_USBB, addr: USB_EPA_CTL, val: 0x1002, len: 2 },
        RegWrite::Block { block: BLOCK_USBB, addr: USB_EPA_CTL, val: 0x0000, len: 2 },
    ]
}

/// Resets the USB endpoint FIFO: USB_EPA_CTL is set to 0x1002, then to 0.
pub fn rtl_reset_buffer(dev: &mut RtlDevice) -> (result: Result<(), rusb::Error>)
    ensures
        final(dev).endpoint_ops() == old(dev).endpoint_ops(),
        extends(old(dev).transfers(), final(dev).transfers()),
        ran_writes(
            added(old(dev).transfers(), final(dev).transfers()),
            requests_of(reset_buffer_plan()),
            result,
        ),
{
    let mut plan: Vec<RegWrite> = Vec::new();
    plan.push(RegWrite::Block { block: BLOCK_USBB, addr: USB_EPA_CTL, val: 0x1002, len: 2 });
    plan.push(RegWrite::Block { block: BLOCK_USBB, addr: USB_EPA_CTL, val: 0x0000, len: 2 });
    assert(plan@ =~= reset_buffer_plan());
    apply_writes(dev, &plan)
}

} // verus!
