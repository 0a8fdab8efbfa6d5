//! Register addresses, block numbers and bit fields of the RTL2832U, from
//! the chip's datasheet and vendor command table.
use vstd::prelude::*;

verus! {

/// Realtek's USB vendor id.
pub const RTL_VID: u16 = 0x0bda;

/// RTL2832U, the common DVB-T dongle product id.
pub const RTL_PID_RTL2832U: u16 = 0x2832;

/// ADS-B centre frequency in Hz.
pub const ADSB_CENTER_FREQ_HZ: u32 = 1_090_000_000;

/// R820T/R828D base (write) I2C address.
pub const TUNER_I2C_ADDR: u8 = 0x34;

/// Whether the demodulator's internal counter stream is switched on at start.
pub const TEST_MODE: bool = false;

// USB block registers.
pub const USB_SYSCTL_0: u16 = 0x2000;
pub const USB_SYSCTL: u16 = 0x2000;
pub const USB_EPA_CTL: u16 = 0x2148;
pub const USB_EPA_MAXPKT: u16 = 0x2158;

// System block I2C master registers.
pub const SYS_I2CCR: u16 = 0x3040;
pub const SYS_I2CCR_FD10_MASK: u8 = 0x3F;
pub const SYS_I2CCR_FD10_10MHZ: u8 = 0x13;
pub const SYS_I2CMCR: u16 = 0x3044;
pub const SYS_I2CMSTR: u16 = 0x3048;
pub const SYS_I2CMSR: u16 = 0x304C;
pub const SYS_I2CMFR: u16 = 0x3050;

// Demodulator pages and registers.
pub const DEMOD_PAGE_0: u8 = 0;
pub const DEMOD_PAGE_1: u8 = 1;
pub const DEMOD_PAGE_SYS: u8 = 0x0a;
pub const DEMOD_REG_SYS_TEST: u16 = 0x0001;
pub const DEMOD_CTL: u16 = 0x3000;
pub const DEMOD_CTL_1: u16 = 0x300b;

/// IIC_repeat lives in page 1, offset 0x01, bit 3.
pub const DEMOD_REG_IIC_REPEAT: u16 = 0x0001;
pub const IIC_REPEAT_BIT: u8 = 0x08;

// Blocks of the vendor command table.
pub const BLOCK_DEMODB: u8 = 0;
pub const BLOCK_USBB: u8 = 1;
pub const BLOCK_SYSB: u8 = 2;
pub const BLOCK_TUNB: u8 = 3;
pub const BLOCK_IICB: u8 = 6;

// I2C Master Control Register (I2CMCR) fields.
pub const I2CMCR_IMUR: u32 = 0x8000_0000;
pub const I2CMCR_CS: u32 = 0x4000_0000;
pub const I2CMCR_RWL_SHIFT: u32 = 25;
pub const I2CMCR_RWL_MASK: u32 = 0x3E00_0000;
pub const I2CMCR_TORE: u32 = 0x0100_0000;
pub const I2CMCR_TOR_SHIFT: u32 = 16;
pub const I2CMCR_TOR_MASK: u32 = 0x00FF_0000;
pub const I2CMCR_TOR_DEFAULT: u32 = 0x003A_0000;
pub const I2CMCR_SBAIFD: u32 = 0x0000_0400;
pub const I2CMCR_FBAIFD: u32 = 0x0000_0200;
pub const I2CMCR_SRSIB_SHIFT: u32 = 7;
pub const I2CMCR_SRSIB_MASK: u32 = 0x0000_0180;
pub const I2CMCR_FRSIB_SHIFT: u32 = 5;
pub const I2CMCR_FRSIB_MASK: u32 = 0x0000_0060;
pub const I2CMCR_RSC_SHIFT: u32 = 3;
pub const I2CMCR_RSC_MASK: u32 = 0x0000_0018;
pub const I2CMCR_TEIE: u32 = 0x0000_0004;
pub const I2CMCR_MRCIE: u32 = 0x0000_0002;
pub const I2CMCR_MTCIE: u32 = 0x0000_0001;

// I2C Master Status Register (I2CMSR) flags, write one to clear.
pub const I2CMSR_TEIF: u8 = 0x04;
pub const I2CMSR_MRCIF: u8 = 0x02;
pub const I2CMSR_MTCIF: u8 = 0x01;
pub const I2CMSR_ALL_FLAGS: u8 = 0x07;

/// I2C Master FIFO register: bits 7:0 hold the target device data.
pub const I2CMFR_TDD_MASK: u8 = 0xFF;

/// The product ids accepted as RTL2832U dongles.
pub open spec fn is_rtl_pid_spec(pid: u16) -> bool {
    pid == RTL_PID_RTL2832U
}

/// Default FIR taps: eight 8-bit taps, then eight 12-bit taps.
pub open spec fn fir_default_spec() -> Seq<i16> {
    seq![
        -54i16, -36i16, -41i16, -40i16, -32i16, -14i16, 14i16, 53i16,
        101i16, 156i16, 215i16, 273i16, 327i16, 372i16, 404i16, 421i16,
    ]
}

pub fn fir_default() -> (taps: Vec<i16>)
    ensures
        taps@ == fir_default_spec(),
{
    let taps: Vec<i16> = vec![-54i16, -36, -41, -40, -32, -14, 14, 53, 101, 156, 215, 273, 327, 372, 404, 421];
    assert(taps@ =~= fir_default_spec());
    taps
}

/// Tuner register values that retune an R82xx to 1090 MHz, as
/// (register, value) pairs. None are known yet.
pub open spec fn r82xx_1090mhz_profile_spec() -> Seq<(u8, u8)> {
    Seq::empty()
}

pub fn r82xx_1090mhz_profile() -> (profile: Vec<(u8, u8)>)
    ensures
        profile@ == r82xx_1090mhz_profile_spec(),
{
    let profile: Vec<(u8, u8)> = Vec::new();
    assert(profile@ =~= r82xx_1090mhz_profile_spec());
    profile
}

} // verus!
