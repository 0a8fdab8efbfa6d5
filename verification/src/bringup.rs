//! The bring-up sequence that prepares the dongle for streaming: register
//! checks, baseband initialisation, sample rate, 1090 MHz front end, test
//! mode and FIFO reset, in that order.
use vstd::prelude::*;
use crate::adsb::{
    adsb_setup_ran, configure_for_adsb_1090mhz, lemma_cuts, lemma_cuts_bounded, segment,
    valid_cuts, AdsbSetupReport,
};
use crate::baseband::{
    baseband_init_plan, baseband_tail, init_baseband, lemma_baseband_leaves_test_mode_off,
    reset_buffer_plan, rtl_reset_buffer, rtl_set_sample_rate,
    rtl_set_testmode, sample_rate_ran,
};
use crate::constants::{DEMOD_PAGE_SYS, DEMOD_REG_SYS_TEST, TEST_MODE, USB_EPA_CTL, USB_SYSCTL_0};
use crate::probe::{
    confirmed_write_back_report, test_demod_register, test_usb_sysctl_register, write_back_ops,
    write_back_report, RegisterRoundtrip,
};
use crate::regs::{demod_read_index, demod_value, demod_write, demod_write_index, requests_of};
use crate::usb::{added, extends, is_vendor_write, ran_writes, ControlTransfer, RtlDevice};

verus! {

/// What each step of the bring-up returned.
pub struct BringUpReport {
    /// USB_SYSCTL write-back check.
    pub usb_test: Result<RegisterRoundtrip, rusb::Error>,
    /// Baseband initialisation.
    pub baseband: Result<(), rusb::Error>,
    /// Demodulator write-back check.
    pub demod_test: Result<RegisterRoundtrip, rusb::Error>,
    /// Sample rate change: the produced rate, 0 for an impossible rate.
    pub sample_rate: Result<u32, rusb::Error>,
    /// Front-end set-up for 1090 MHz.
    pub adsb: AdsbSetupReport,
    /// Switching the internal test mode to `TEST_MODE`.
    pub test_mode: Result<(), rusb::Error>,
    /// USB FIFO reset.
    pub fifo_reset: Result<(), rusb::Error>,
}

/// `ops` and `report` are a bring-up at `samp_rate`: the USB_SYSCTL
/// write-back check, the baseband initialisation, the demodulator
/// write-back check, the sample rate change, the 1090 MHz front-end set-up,
/// the test mode switch and the FIFO reset, in that order, each run whatever
/// the earlier ones returned.
pub open spec fn bring_up_ran(ops: Seq<ControlTransfer>, samp_rate: u32, report: BringUpReport) -> bool {
    exists|c: Seq<int>|
        #![trigger valid_cuts(c, ops.len() as int)]
        {
            &&& c.len() == 8
            &&& valid_cuts(c, ops.len() as int)
            &&& write_back_ops(segment(ops, c, 0), USB_SYSCTL_0, 0x0100, USB_SYSCTL_0, 0x0110)
            &&& report.usb_test == write_back_report(segment(ops, c, 0))
            &&& ran_writes(segment(ops, c, 1), baseband_init_plan(), report.baseband)
            &&& write_back_ops(
                segment(ops, c, 2),
                demod_value(DEMOD_REG_SYS_TEST),
                demod_read_index(DEMOD_PAGE_SYS),
                demod_value(DEMOD_REG_SYS_TEST),
                demod_write_index(DEMOD_PAGE_SYS),
            )
            &&& report.demod_test == confirmed_write_back_report(segment(ops, c, 2))
            &&& sample_rate_ran(segment(ops, c, 3), samp_rate, report.sample_rate)
            &&& adsb_setup_ran(segment(ops, c, 4), report.adsb)
            &&& ran_writes(
                segment(ops, c, 5),
                seq![demod_write(0, 0x0019, if TEST_MODE { 0x03 } else { 0x05 }, 1)],
                report.test_mode,
            )
            &&& ran_writes(segment(ops, c, 6), requests_of(reset_buffer_plan()), report.fifo_reset)
        }
}

/// A bring-up leaves the demodulator's test-mode register as `TEST_MODE`
/// asks: some transfer writes the single byte 0x05 (SDR mode, internal
/// counter stream off; 0x03, counter stream on, only when `TEST_MODE` is
/// set) to demodulator page 0 register 0x19, the value the baseband
/// initialisation writes there too, and no later transfer touches that
/// register.
pub proof fn lemma_bring_up_test_mode_write(ops: Seq<ControlTransfer>, samp_rate: u32, report: BringUpReport)
    requires
        bring_up_ran(ops, samp_rate, report),
    ensures
        exists|j: int|
            0 <= j < ops.len() && {
                &&& (#[trigger] ops[j]).request_type == 0x40
                &&& ops[j].request == 0
                &&& ops[j].value == 0x1920
                &&& ops[j].index == 0x0010
                &&& ops[j].data == seq![if TEST_MODE { 0x03u8 } else { 0x05u8 }]
                &&& forall|k: int|
                    j < k < ops.len() ==> !((#[trigger] ops[k]).value == 0x1920 && ops[k].index
                        == 0x0010)
            },
        !TEST_MODE ==> requests_of(baseband_tail())[0] == demod_write(0, 0x0019, 0x05, 1),
{
    let n = ops.len() as int;
    let test_mode_plan = seq![demod_write(0, 0x0019, if TEST_MODE { 0x03 } else { 0x05 }, 1)];
    let c = choose|c: Seq<int>|
        #![trigger valid_cuts(c, n)]
        {
            &&& c.len() == 8
            &&& valid_cuts(c, n)
            &&& ran_writes(segment(ops, c, 5), test_mode_plan, report.test_mode)
            &&& ran_writes(segment(ops, c, 6), requests_of(reset_buffer_plan()), report.fifo_reset)
        };
    lemma_cuts_bounded(c, n, 5);
    lemma_cuts_bounded(c, n, 6);
    assert(c[7] == n);
    lemma_baseband_leaves_test_mode_off();
    crate::regs::lemma_demod_value_fields(0x0019);
    assert((0x10u16 | (0u8 as u16)) as u16 == 0x10u16) by (bit_vector);
    let s5 = segment(ops, c, 5);
    let s6 = segment(ops, c, 6);
    assert(s5.len() == 1);
    let j = c[5];
    assert(s5[0] == ops[j]);
    assert(c[6] == j + 1);
    let reset = requests_of(reset_buffer_plan());
    assert(reset.len() == 2);
    assert(reset[0].value == USB_EPA_CTL && reset[1].value == USB_EPA_CTL);
    assert forall|k: int| j < k < ops.len() implies !((#[trigger] ops[k]).value == 0x1920
        && ops[k].index == 0x0010) by {
        assert(s6[k - c[6]] == ops[k]);
        assert(is_vendor_write(s6[k - c[6]], reset[k - c[6]]));
    }
    assert(ops[j].request_type == 0x40);
}

/// Brings the dongle up for streaming at `samp_rate`: checks USB register
/// access, initialises the baseband, checks demodulator register access,
/// sets the sample rate, sets the front end up for 1090 MHz, switches test
/// mode to `TEST_MODE` and resets the USB FIFO. Each step runs whatever the
/// earlier ones returned; the report says how each went.
#[verifier::rlimit(60)]
pub fn bring_up(dev: &mut RtlDevice, samp_rate: u32) -> (report: BringUpReport)
    ensures
        final(dev).endpoint_ops() == old(dev).endpoint_ops(),
        extends(old(dev).transfers(), final(dev).transfers()),
        bring_up_ran(added(old(dev).transfers(), final(dev).transfers()), samp_rate, report),
{
    let ghost t0 = dev.transfers();
    let usb_test = test_usb_sysctl_register(dev);
    let ghost t1 = dev.transfers();
    let baseband = init_baseband(dev);
    let ghost t2 = dev.transfers();
    let demod_test = test_demod_register(dev);
    let ghost t3 = dev.transfers();
    let sample_rate = rtl_set_sample_rate(dev, samp_rate);
    let ghost t4 = dev.transfers();
    let adsb = configure_for_adsb_1090mhz(dev);
    let ghost t5 = dev.transfers();
    let test_mode = rtl_set_testmode(dev, TEST_MODE);
    let ghost t6 = dev.transfers();
    let fifo_reset = rtl_reset_buffer(dev);
    let ghost t7 = dev.transfers();
    let report = BringUpReport {
        usb_test,
        baseband,
        demod_test,
        sample_rate,
        adsb,
        test_mode,
        fifo_reset,
    };
    proof {
        let ts = seq![t0, t1, t2, t3, t4, t5, t6, t7];
        let c = lemma_cuts(ts);
        let ops = added(t0, t7);
        assert(ts.last() == t7);
        assert(segment(ops, c, 0) == added(t0, t1)) by {
            assert(ts[1] == t1);
        }
        assert(segment(ops, c, 1) == added(t1, t2)) by {
            assert(ts[2] == t2);
        }
        assert(segment(ops, c, 2) == added(t2, t3)) by {
            assert(ts[3] == t3);
        }
        assert(segment(ops, c, 3) == added(t3, t4)) by {
            assert(ts[4] == t4);
        }
        assert(segment(ops, c, 4) == added(t4, t5)) by {
            assert(ts[5] == t5);
        }
        assert(segment(ops, c, 5) == added(t5, t6)) by {
            assert(ts[6] == t6);
        }
        assert(segment(ops, c, 6) == added(t6, t7)) by {
            assert(ts[7] == t7);
        }
    }
    report
}

} // verus!
