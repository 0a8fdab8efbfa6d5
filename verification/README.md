# rust1090_raw

Register-level driver logic for the RTL2832U USB SDR baseband chip (RTL-SDR
dongles, `0bda:2832`), with machine-checked contracts, and a small program around it
that finds the dongle, brings it up and streams raw 8-bit I/Q samples.

## Layout

- `src/usb.rs`: the device handle, the ghost record of every control
  transfer and endpoint operation made through it, and the trusted calls
  into `rusb` (`read_control`, `write_control`, `read_bulk`, `clear_halt`).
- `src/regs.rs`: the vendor command table (USB, system, tuner and I2C
  blocks, demodulator pages), register payload encoding, and the executor
  of fixed register write sequences.
- `src/baseband.rs`: baseband initialisation, FIR image packing, the
  resampler ratio and sample rate, test mode, FIFO reset.
- `src/i2c.rs`: the I2C repeater and the system block's I2C master (clock,
  control, status, FIFO, and the write transaction with its status poll).
- `src/probe.rs`: register write-back checks, register dumps, the tuner
  probe and tuner checks.
- `src/adsb.rs`: the 1090 MHz front-end set-up sequence.
- `src/bringup.rs`: the whole bring-up before streaming, step by step.
- `src/capture.rs`: device and endpoint selection, and the decisions of the
  capture loop.
- `app/main.rs`: enumeration, opening, printing, file output and the loop.

Every device function states, over the ghost record, exactly which
transfers it makes for every possible device answer, and what it returns.
