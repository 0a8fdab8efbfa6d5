//! Register-level driver logic for the RTL2832U USB SDR baseband chip.
pub mod adsb;
pub mod baseband;
pub mod bringup;
pub mod capture;
pub mod constants;
pub mod i2c;
pub mod probe;
pub mod regs;
pub mod usb;
