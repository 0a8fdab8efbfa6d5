//! Front-end set-up for ADS-B at 1090 MHz: I2C repeater and master
//! bring-up, the tuner probe, and the tuner checks that follow a find.
use vstd::prelude::*;
use crate::constants::{BLOCK_SYSB, SYS_I2CCR, SYS_I2CCR_FD10_10MHZ, TUNER_I2C_ADDR};
use crate::i2c::{
    i2ccr_byte, i2ccr_write, iic_repeat_byte, iic_repeat_write, init_sys_i2c_master_simple,
    mcr_simple_value, mcr_write_plan, read_sys_i2c_clock_fd10, set_iic_repeat,
    set_sys_i2c_clock_10mhz,
};
use crate::probe::{
    any_probe_succeeded, block_path_ran, i2c_master_write_back_ran, i2cmcr_page1_read,
    probe_tuner_addresses, probes_ran, read_demod_i2cmcr_page1, read_tuner_registers, readback_pair,
    test_tuner_i2c_block_path, test_tuner_reg_roundtrip, test_tuner_write_via_i2c_master,
    tuner_dump_ran, tuner_profile_plan, tuner_set_1090mhz, write_back_ops, BlockPathReport,
};
use crate::regs::{block_read_index, demod_read_index, demod_value, tuner_value};
use crate::usb::{
    added, extends, is_vendor_read, lemma_extends_refl, lemma_extends_trans, ran_writes,
    read_modify_write_ran, ControlTransfer, RtlDevice,
};

verus! {

/// `c` cuts a run of `n` transfers into consecutive segments.
pub open spec fn valid_cuts(c: Seq<int>, n: int) -> bool {
    &&& c.len() >= 1
    &&& c[0] == 0
    &&& c.last() == n
    &&& forall|i: int| 0 < i < c.len() ==> c[i - 1] <= #[trigger] c[i]
}

/// Segment `i` of `ops` under the cuts `c`.
pub open spec fn segment(ops: Seq<ControlTransfer>, c: Seq<int>, i: int) -> Seq<ControlTransfer> {
    ops.subrange(c[i], c[i + 1])
}

/// Appending a segment `q` to a run `p` cut by `c0` adds one cut at the
/// end and leaves the earlier segments as they were.
proof fn lemma_cuts_push(c0: Seq<int>, p: Seq<ControlTransfer>, q: Seq<ControlTransfer>)
    requires
        valid_cuts(c0, p.len() as int),
    ensures
        valid_cuts(c0.push((p + q).len() as int), (p + q).len() as int),
        forall|i: int|
            0 <= i < c0.len() - 1 ==> #[trigger] segment(p + q, c0.push((p + q).len() as int), i)
                == segment(p, c0, i),
        segment(p + q, c0.push((p + q).len() as int), c0.len() - 1) == q,
{
    let c = c0.push((p + q).len() as int);
    assert forall|i: int| 0 < i < c.len() implies c[i - 1] <= #[trigger] c[i] by {
        if i < c0.len() {
            assert(c0[i - 1] <= c0[i]);
        } else {
            assert(c[i - 1] == c0.last());
        }
    }
    assert forall|i: int| 0 <= i < c0.len() - 1 implies #[trigger] segment(p + q, c, i) == segment(
        p,
        c0,
        i,
    ) by {
        lemma_cuts_bounded(c0, p.len() as int, i);
        assert(segment(p + q, c, i) =~= segment(p, c0, i));
    }
    assert(segment(p + q, c, c0.len() - 1) =~= q);
}

/// A chain of snapshots of the record, each extending the one before, cuts
/// everything added since the first snapshot into the steps between them.
pub proof fn lemma_cuts(ts: Seq<Seq<ControlTransfer>>) -> (c: Seq<int>)
    requires
        ts.len() >= 1,
        forall|i: int| 0 < i < ts.len() ==> extends(ts[i - 1], #[trigger] ts[i]),
    ensures
        extends(ts[0], ts.last()),
        c.len() == ts.len(),
        valid_cuts(c, added(ts[0], ts.last()).len() as int),
        forall|i: int|
            0 <= i < ts.len() - 1 ==> segment(added(ts[0], ts.last()), c, i) == added(
                ts[i],
                #[trigger] ts[i + 1],
            ),
    decreases ts.len(),
{
    if ts.len() == 1 {
        lemma_extends_refl(ts[0]);
        seq![0int]
    } else {
        let init = ts.drop_last();
        assert forall|i: int| 0 < i < init.len() implies extends(init[i - 1], #[trigger] init[i]) by {
            assert(extends(ts[i - 1], ts[i]));
        }
        let c0 = lemma_cuts(init);
        let a = ts[0];
        let m = init.last();
        let z = ts.last();
        assert(m == ts[ts.len() - 2]);
        assert(z == ts[ts.len() - 1]);
        assert(extends(ts[ts.len() - 2], ts[ts.len() - 1]));
        lemma_extends_trans(a, m, z);
        let p = added(a, m);
        let q = added(m, z);
        lemma_cuts_push(c0, p, q);
        let c = c0.push((p + q).len() as int);
        assert forall|i: int| 0 <= i < ts.len() - 1 implies segment(p + q, c, i) == added(
            ts[i],
            #[trigger] ts[i + 1],
        ) by {
            if i < ts.len() - 2 {
                assert(segment(p, c0, i) == added(init[i], init[i + 1]));
                assert(segment(p + q, c, i) == segment(p, c0, i));
            }
        }
        assert(added(a, z) == p + q);
        c
    }
}

pub proof fn lemma_cuts_bounded(c: Seq<int>, n: int, i: int)
    requires
        valid_cuts(c, n),
        0 <= i < c.len() - 1,
    ensures
        0 <= c[i] <= c[i + 1] <= n,
    decreases c.len() - i,
{
    assert(c[i] <= c[i + 1]);
    if i + 1 < c.len() - 1 {
        lemma_cuts_bounded(c, n, i + 1);
    }
    lemma_cuts_lower(c, n, i);
}

proof fn lemma_cuts_lower(c: Seq<int>, n: int, i: int)
    requires
        valid_cuts(c, n),
        0 <= i < c.len(),
    ensures
        0 <= c[i],
    decreases i,
{
    if i > 0 {
        lemma_cuts_lower(c, n, i - 1);
        assert(c[i - 1] <= c[i]);
    }
}

/// What the checks run after a tuner answered saw.
pub struct TunerChecks {
    /// Register 0x05 read, written back through SetTunReg, read again.
    pub roundtrip: Result<(u8, u8), rusb::Error>,
    /// Register 0x05 read, written back through the I2C master, read again.
    pub i2c_master: Result<(u8, u8), rusb::Error>,
    /// Register 0x00 through the I2C block and through GetTunReg.
    pub block_path: Result<BlockPathReport, rusb::Error>,
    /// Programming the 1090 MHz tuner profile.
    pub profile: Result<(), rusb::Error>,
    /// Tuner registers 0x00..0x1f.
    pub dump: Vec<(u8, Result<u8, rusb::Error>)>,
}

/// `ops` runs the tuner checks at the tuner's address, in order, whatever
/// each one returns: write-back of register 0x05 through SetTunReg, then
/// through the I2C master, the I2C block path, the 1090 MHz profile, and the
/// dump of registers 0x00..0x1f.
pub open spec fn tuner_checks_ran(ops: Seq<ControlTransfer>, checks: TunerChecks) -> bool {
    exists|c: Seq<int>|
        #![trigger valid_cuts(c, ops.len() as int)]
        {
            &&& c.len() == 6
            &&& valid_cuts(c, ops.len() as int)
            &&& write_back_ops(
                segment(ops, c, 0),
                tuner_value(TUNER_I2C_ADDR, 0x05),
                0x0300,
                tuner_value(TUNER_I2C_ADDR, 0x05),
                0x0310,
            )
            &&& checks.roundtrip == readback_pair(segment(ops, c, 0))
            &&& i2c_master_write_back_ran(segment(ops, c, 1), 0x05, checks.i2c_master)
            &&& block_path_ran(segment(ops, c, 2), TUNER_I2C_ADDR, checks.block_path)
            &&& ran_writes(segment(ops, c, 3), tuner_profile_plan(), checks.profile)
            &&& tuner_dump_ran(segment(ops, c, 4), TUNER_I2C_ADDR, 0x00, 0x1f, checks.dump@)
        }
}

/// Runs the tuner checks at the tuner's address; each one runs whatever the
/// earlier ones returned.
pub fn run_tuner_checks(dev: &mut RtlDevice) -> (checks: TunerChecks)
    ensures
        final(dev).endpoint_ops() == old(dev).endpoint_ops(),
        extends(old(dev).transfers(), final(dev).transfers()),
        tuner_checks_ran(added(old(dev).transfers(), final(dev).transfers()), checks),
{
    let ghost t0 = dev.transfers();
    let roundtrip = test_tuner_reg_roundtrip(dev, TUNER_I2C_ADDR, 0x05);
    let ghost t1 = dev.transfers();
    let i2c_master = test_tuner_write_via_i2c_master(dev, 0x05);
    let ghost t2 = dev.transfers();
    let block_path = test_tuner_i2c_block_path(dev, TUNER_I2C_ADDR);
    let ghost t3 = dev.transfers();
    let profile = tuner_set_1090mhz(dev);
    let ghost t4 = dev.transfers();
    let dump = read_tuner_registers(dev, TUNER_I2C_ADDR, 0x00, 0x1f);
    let ghost t5 = dev.transfers();
    let checks = TunerChecks { roundtrip, i2c_master, block_path, profile, dump };
    proof {
        let ts = seq![t0, t1, t2, t3, t4, t5];
        let c = lemma_cuts(ts);
        let ops = added(t0, t5);
        assert(ts.last() == t5);
        assert(segment(ops, c, 0) == added(t0, t1)) by { assert(ts[1] == t1); }
        assert(segment(ops, c, 1) == added(t1, t2)) by { assert(ts[2] == t2); }
        assert(segment(ops, c, 2) == added(t2, t3)) by { assert(ts[3] == t3); }
        assert(segment(ops, c, 3) == added(t3, t4)) by { assert(ts[4] == t4); }
        assert(segment(ops, c, 4) == added(t4, t5)) by { assert(ts[5] == t5); }
    }
    checks
}

/// What setting up the front end for 1090 MHz saw, step by step.
pub struct AdsbSetupReport {
    /// Enabling the I2C repeater.
    pub repeater: Result<(), rusb::Error>,
    /// Setting the I2C clock divisor to the 10 MHz value.
    pub clock: Result<(), rusb::Error>,
    /// After a successful clock set-up, the divisor read back (0xff when
    /// that read failed).
    pub fd10: Option<u8>,
    /// The demodulator's view of I2CMCR before the master set-up.
    pub mcr_before: Result<u32, rusb::Error>,
    /// Setting I2CMCR up for single-shot transfers.
    pub master_init: Result<(), rusb::Error>,
    /// The demodulator's view of I2CMCR after the master set-up.
    pub mcr_after: Result<u32, rusb::Error>,
    /// The chip ID probe at each candidate address.
    pub probes: Vec<(u8, Result<u8, rusb::Error>)>,
    /// Whether some candidate answered.
    pub tuner_found: bool,
    /// The tuner checks, run only when a tuner answered.
    pub checks: Option<TunerChecks>,
}

/// `ops` and `report` are a front-end set-up for 1090 MHz: repeater on,
/// I2C clock divisor 0x13 (read back only when set), I2CMCR read, set up
/// for single-shot transfers and read again, the tuner probe, and the tuner
/// checks exactly when some candidate answered. Every step runs whatever
/// the earlier ones returned.
pub open spec fn adsb_setup_ran(ops: Seq<ControlTransfer>, report: AdsbSetupReport) -> bool {
    &&& report.tuner_found <==> exists|k: int|
        0 <= k < report.probes@.len() && (#[trigger] report.probes@[k]).1 is Ok
    &&& report.checks is Some <==> report.tuner_found
    &&& exists|c: Seq<int>|
        #![trigger valid_cuts(c, ops.len() as int)]
        {
            &&& c.len() == 9
            &&& valid_cuts(c, ops.len() as int)
            &&& read_modify_write_ran(
                segment(ops, c, 0),
                demod_value(0x0001),
                demod_read_index(1),
                |current: u8| seq![iic_repeat_write(iic_repeat_byte(current, true))],
                report.repeater,
            )
            &&& read_modify_write_ran(
                segment(ops, c, 1),
                SYS_I2CCR,
                block_read_index(BLOCK_SYSB),
                |current: u8| seq![i2ccr_write(i2ccr_byte(current, SYS_I2CCR_FD10_10MHZ))],
                report.clock,
            )
            &&& if report.clock is Ok {
                let s = segment(ops, c, 2);
                &&& s.len() == 1
                &&& is_vendor_read(s[0], SYS_I2CCR, block_read_index(BLOCK_SYSB), 1)
                &&& report.fd10 == Some(
                    match s[0].outcome {
                        Ok(_) => s[0].data[0] & 0x3fu8,
                        Err(_) => 0xffu8,
                    },
                )
            } else {
                segment(ops, c, 2).len() == 0 && report.fd10 is None
            }
            &&& i2cmcr_page1_read(segment(ops, c, 3), report.mcr_before)
            &&& ran_writes(segment(ops, c, 4), mcr_write_plan(mcr_simple_value()), report.master_init)
            &&& i2cmcr_page1_read(segment(ops, c, 5), report.mcr_after)
            &&& probes_ran(segment(ops, c, 6), report.probes@)
            &&& match report.checks {
                Some(checks) => tuner_checks_ran(segment(ops, c, 7), checks),
                None => segment(ops, c, 7).len() == 0,
            }
        }
}

/// The front-end set-up switches the I2C repeater on before anything else:
/// its first transfer reads one byte of demodulator page 1 register 0x01,
/// and when that read succeeds the next transfer writes that register back
/// as one byte with bit 3 set (the tuner then hears I2C traffic) and every
/// other bit as read. The repeater step reports success exactly when both
/// transfers went through.
pub proof fn lemma_adsb_setup_enables_repeater(ops: Seq<ControlTransfer>, report: AdsbSetupReport)
    requires
        adsb_setup_ran(ops, report),
    ensures
        ops.len() >= 1,
        ops[0].request_type == 0xc0,
        ops[0].request == 0,
        ops[0].value == 0x0120,
        ops[0].index == 0x0001,
        ops[0].data.len() == 1,
        ops[0].outcome is Ok ==> {
            &&& ops.len() >= 2
            &&& ops[1].request_type == 0x40
            &&& ops[1].request == 0
            &&& ops[1].value == 0x0120
            &&& ops[1].index == 0x0011
            &&& ops[1].data.len() == 1
            &&& ops[1].data[0] & 0x08u8 == 0x08u8
            &&& ops[1].data[0] & 0xf7u8 == ops[0].data[0] & 0xf7u8
        },
        report.repeater is Ok <==> (ops[0].outcome is Ok && ops[1].outcome is Ok),
{
    let repeater_on = |current: u8| seq![iic_repeat_write(iic_repeat_byte(current, true))];
    let c = choose|c: Seq<int>|
        #![trigger valid_cuts(c, ops.len() as int)]
        {
            &&& c.len() == 9
            &&& valid_cuts(c, ops.len() as int)
            &&& read_modify_write_ran(
                segment(ops, c, 0),
                demod_value(0x0001),
                demod_read_index(1),
                repeater_on,
                report.repeater,
            )
        };
    lemma_cuts_bounded(c, ops.len() as int, 0);
    let s = segment(ops, c, 0);
    crate::regs::lemma_demod_value_fields(0x0001);
    assert((0x10u16 | (1u8 as u16)) as u16 == 0x11u16) by (bit_vector);
    assert(s.len() >= 1);
    assert(s[0] == ops[0]);
    if ops[0].outcome is Ok {
        let b = ops[0].data[0];
        let rest = s.skip(1);
        assert(ran_writes(rest, seq![iic_repeat_write(iic_repeat_byte(b, true))], report.repeater));
        assert(rest.len() == 1);
        assert(rest[0] == ops[1]);
        crate::i2c::lemma_iic_repeat_byte(b, true);
    }
}

/// Sets the RF front end up for ADS-B at 1090 MHz as far as it goes:
/// enables the I2C repeater, sets the I2C clock to 10 MHz, sets the I2C
/// master up for single-shot transfers (reading I2CMCR before and after),
/// probes the tuner's chip ID, and when a tuner answers, runs the tuner
/// checks. Failures are reported, not fatal.
#[verifier::rlimit(60)]
pub fn configure_for_adsb_1090mhz(dev: &mut RtlDevice) -> (report: AdsbSetupReport)
    ensures
        final(dev).endpoint_ops() == old(dev).endpoint_ops(),
        extends(old(dev).transfers(), final(dev).transfers()),
        adsb_setup_ran(added(old(dev).transfers(), final(dev).transfers()), report),
{
    let ghost t0 = dev.transfers();
    let repeater = set_iic_repeat(dev, true);
    let ghost t1 = dev.transfers();
    let clock = set_sys_i2c_clock_10mhz(dev);
    let ghost t2 = dev.transfers();
    let fd10 = match clock {
        Ok(()) => Some(
            match read_sys_i2c_clock_fd10(dev) {
                Ok(v) => v,
                Err(_) => 0xffu8,
            },
        ),
        Err(_) => {
            proof {
                lemma_extends_refl(t2);
            }
            None
        },
    };
    let ghost t3 = dev.transfers();
    let mcr_before = read_demod_i2cmcr_page1(dev);
    let ghost t4 = dev.transfers();
    let master_init = init_sys_i2c_master_simple(dev);
    let ghost t5 = dev.transfers();
    let mcr_after = read_demod_i2cmcr_page1(dev);
    let ghost t6 = dev.transfers();
    let probes = probe_tuner_addresses(dev);
    let ghost t7 = dev.transfers();
    let tuner_found = any_probe_succeeded(&probes);
    let checks = if tuner_found {
        Some(run_tuner_checks(dev))
    } else {
        proof {
            lemma_extends_refl(t7);
        }
        None
    };
    let ghost t8 = dev.transfers();
    let report = AdsbSetupReport {
        repeater,
        clock,
        fd10,
        mcr_before,
        master_init,
        mcr_after,
        probes,
        tuner_found,
        checks,
    };
    proof {
        let ts = seq![t0, t1, t2, t3, t4, t5, t6, t7, t8];
        let c = lemma_cuts(ts);
        let ops = added(t0, t8);
        assert(ts.last() == t8);
        assert(segment(ops, c, 0) == added(t0, t1)) by { assert(ts[1] == t1); }
        assert(segment(ops, c, 1) == added(t1, t2)) by { assert(ts[2] == t2); }
        assert(segment(ops, c, 2) == added(t2, t3)) by { assert(ts[3] == t3); }
        assert(segment(ops, c, 3) == added(t3, t4)) by { assert(ts[4] == t4); }
        assert(segment(ops, c, 4) == added(t4, t5)) by { assert(ts[5] == t5); }
        assert(segment(ops, c, 5) == added(t5, t6)) by { assert(ts[6] == t6); }
        assert(segment(ops, c, 6) == added(t6, t7)) by { assert(ts[7] == t7); }
        assert(segment(ops, c, 7) == added(t7, t8)) by { assert(ts[8] == t8); }
    }
    report
}

} // verus!
