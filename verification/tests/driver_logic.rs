use rust1090_raw::baseband::{compute_rsamp_ratio, fir_coefficient_bytes, is_valid_sample_rate};
use rust1090_raw::capture::{
    continue_after_clear_halt, find_bulk_in_endpoint, find_rtl_device, is_rtl_device_id,
    CaptureAction, CaptureState, EndpointInfo,
};
use rust1090_raw::constants::{fir_default, r82xx_1090mhz_profile};
use rust1090_raw::probe::any_probe_succeeded;
use rust1090_raw::regs::{demod_value_of, pack_reg_value};

const DEFAULT_FIR_IMAGE: [u8; 20] = [
    0xca, 0xdc, 0xd7, 0xd8, 0xe0, 0xf2, 0x0e, 0x35, 0x06, 0x50, 0x9c, 0x0d, 0x71, 0x11, 0x14,
    0x71, 0x74, 0x19, 0x41, 0xa5,
];

#[test]
fn register_payload_one_byte_is_low_byte() {
    assert_eq!(pack_reg_value(0x1234, 1), vec![0x34]);
    assert_eq!(pack_reg_value(0x0009, 1), vec![0x09]);
}

#[test]
fn register_payload_two_bytes_is_high_byte_first() {
    assert_eq!(pack_reg_value(0x1002, 2), vec![0x10, 0x02]);
    assert_eq!(pack_reg_value(0xffff, 2), vec![0xff, 0xff]);
}

#[test]
fn register_payload_zero_length_is_empty() {
    assert_eq!(pack_reg_value(0x1234, 0), Vec::<u8>::new());
}

#[test]
fn register_payload_roundtrip() {
    for val in [0u16, 1, 0x00ff, 0x0100, 0x1002, 0xabcd, 0xffff] {
        let b = pack_reg_value(val, 2);
        assert_eq!((b[0] as u16) * 256 + b[1] as u16, val);
    }
}

#[test]
fn demod_wvalue_puts_offset_in_high_byte() {
    assert_eq!(demod_value_of(0x0019), 0x1920);
    assert_eq!(demod_value_of(0x0001), 0x0120);
    assert_eq!(demod_value_of(0x00a1), 0xa120);
}

#[test]
fn demod_wvalue_drops_offset_high_byte() {
    assert_eq!(demod_value_of(0x01ff), 0xff20);
}

#[test]
fn default_fir_register_image() {
    let taps = fir_default();
    assert_eq!(taps.len(), 16);
    let bytes = fir_coefficient_bytes(&taps).expect("default taps are in range");
    assert_eq!(bytes, DEFAULT_FIR_IMAGE.to_vec());
}

#[test]
fn fir_twelve_bit_pairs_roundtrip() {
    let taps = fir_default();
    let bytes = fir_coefficient_bytes(&taps).unwrap();
    for j in 0..4 {
        let b0 = bytes[8 + 3 * j] as i32;
        let b1 = bytes[9 + 3 * j] as i32;
        let b2 = bytes[10 + 3 * j] as i32;
        let u0 = b0 * 16 + b1 / 16;
        let u1 = (b1 % 16) * 256 + b2;
        let v0 = if u0 >= 2048 { u0 - 4096 } else { u0 };
        let v1 = if u1 >= 2048 { u1 - 4096 } else { u1 };
        assert_eq!(v0, taps[8 + 2 * j] as i32);
        assert_eq!(v1, taps[9 + 2 * j] as i32);
    }
    for i in 0..8 {
        assert_eq!(bytes[i] as i8 as i16, taps[i]);
    }
}

#[test]
fn fir_negative_twelve_bit_taps() {
    let mut taps = fir_default();
    taps[8] = -1;
    taps[9] = -2048;
    let bytes = fir_coefficient_bytes(&taps).unwrap();
    assert_eq!(&bytes[8..11], &[0xff, 0xf8, 0x00]);
}

#[test]
fn fir_eight_bit_tap_out_of_range_is_refused() {
    let mut taps = fir_default();
    taps[3] = 128;
    assert!(fir_coefficient_bytes(&taps).is_none());
    taps[3] = -129;
    assert!(fir_coefficient_bytes(&taps).is_none());
}

#[test]
fn fir_twelve_bit_tap_out_of_range_is_refused() {
    let mut taps = fir_default();
    taps[15] = 2048;
    assert!(fir_coefficient_bytes(&taps).is_none());
    taps[15] = -2049;
    assert!(fir_coefficient_bytes(&taps).is_none());
}

#[test]
fn sample_rate_validity_bounds() {
    assert!(!is_valid_sample_rate(225_000));
    assert!(is_valid_sample_rate(225_001));
    assert!(is_valid_sample_rate(300_000));
    assert!(!is_valid_sample_rate(300_001));
    assert!(!is_valid_sample_rate(900_000));
    assert!(is_valid_sample_rate(900_001));
    assert!(is_valid_sample_rate(3_200_000));
    assert!(!is_valid_sample_rate(3_200_001));
    assert!(!is_valid_sample_rate(0));
}

#[test]
fn rsamp_ratio_for_2_4_msps() {
    let s = compute_rsamp_ratio(2_400_000);
    assert_eq!(s.ratio, 0x0300_0000);
    assert_eq!(s.real_ratio, 0x0300_0000);
    assert_eq!(s.real_rate, 2_400_000);
    assert_eq!(s.ratio >> 16, 0x0300);
    assert_eq!(s.ratio & 0xffff, 0x0000);
}

#[test]
fn rsamp_ratio_low_band_restores_bit_28() {
    let s = compute_rsamp_ratio(250_000);
    assert_eq!(s.ratio, 0x0ccc_cccc);
    assert_eq!(s.real_ratio, 0x1ccc_cccc);
    assert_eq!(s.real_rate, 250_000);
}

#[test]
fn rsamp_ratio_odd_rate_rounds_to_request() {
    let s = compute_rsamp_ratio(1_000_001);
    assert_eq!(s.ratio % 4, 0);
    assert_eq!(s.real_rate, 1_000_001);
    let exact = 28_800_000f64 * 4_194_304f64 / s.real_ratio as f64;
    assert_eq!(exact as u32, s.real_rate);
}

#[test]
fn rtl2832u_ids_match() {
    assert!(is_rtl_device_id(0x0bda, 0x2832));
    assert!(!is_rtl_device_id(0x0bda, 0x2838));
    assert!(!is_rtl_device_id(0x1d6b, 0x2832));
}

#[test]
fn first_matching_device_is_chosen() {
    let ids = vec![None, Some((0x1d6b, 0x0002)), Some((0x0bda, 0x2832)), Some((0x0bda, 0x2832))];
    assert_eq!(find_rtl_device(&ids), Ok(2));
}

#[test]
fn no_matching_device_is_no_device() {
    let ids = vec![None, Some((0x1d6b, 0x0002)), Some((0x0bda, 0x2838))];
    assert_eq!(find_rtl_device(&ids), Err(rusb::Error::NoDevice));
}

fn ep(interface_number: u8, address: u8, direction_in: bool, bulk: bool) -> EndpointInfo {
    EndpointInfo { interface_number, address, direction_in, bulk }
}

#[test]
fn bulk_in_endpoint_of_interface_zero_is_chosen() {
    let eps = vec![ep(1, 0x83, true, true), ep(0, 0x02, false, true), ep(0, 0x84, true, false), ep(0, 0x81, true, true)];
    assert_eq!(find_bulk_in_endpoint(&eps), Ok(0x81));
}

#[test]
fn no_bulk_in_endpoint_is_pipe() {
    let eps = vec![ep(1, 0x81, true, true), ep(0, 0x02, false, true)];
    assert_eq!(find_bulk_in_endpoint(&eps), Err(rusb::Error::Pipe));
}

#[test]
fn capture_logs_first_five_then_every_hundredth() {
    let mut s = CaptureState::new(false);
    let mut reported = Vec::new();
    for _ in 0..200 {
        s.start_iteration();
        if let CaptureAction::Block { report: true, .. } = s.on_bulk_result(&Ok(16384)) {
            reported.push(s.iterations);
        }
    }
    assert_eq!(reported, vec![1, 2, 3, 4, 5, 100, 200]);
    assert_eq!(s.total_bytes, 200 * 16384);
}

#[test]
fn capture_totals_count_only_successful_reads() {
    let mut s = CaptureState::new(true);
    let outcomes = [Ok(100usize), Err(rusb::Error::Timeout), Ok(5), Err(rusb::Error::Pipe), Ok(0)];
    for r in outcomes.iter() {
        s.start_iteration();
        s.on_bulk_result(r);
    }
    assert_eq!(s.iterations, 5);
    assert_eq!(s.total_bytes, 105);
    assert!(s.file_output);
}

#[test]
fn capture_block_action_fields() {
    let mut s = CaptureState::new(true);
    s.start_iteration();
    match s.on_bulk_result(&Ok(10)) {
        CaptureAction::Block { write_to_file, report, show } => {
            assert!(write_to_file);
            assert!(report);
            assert_eq!(show, 10);
        }
        _ => panic!("expected a block"),
    }
    s.disable_file_output();
    s.start_iteration();
    match s.on_bulk_result(&Ok(16384)) {
        CaptureAction::Block { write_to_file, show, .. } => {
            assert!(!write_to_file);
            assert_eq!(show, 32);
        }
        _ => panic!("expected a block"),
    }
}

#[test]
fn capture_errors_map_to_actions() {
    let mut s = CaptureState::new(false);
    s.start_iteration();
    assert!(matches!(s.on_bulk_result(&Err(rusb::Error::Timeout)), CaptureAction::TimedOut { report: false }));
    assert!(matches!(s.on_bulk_result(&Err(rusb::Error::Pipe)), CaptureAction::ClearHalt));
    assert!(matches!(s.on_bulk_result(&Err(rusb::Error::NoDevice)), CaptureAction::Stop));
    for _ in 1..100 {
        s.start_iteration();
    }
    assert_eq!(s.iterations, 100);
    assert!(matches!(s.on_bulk_result(&Err(rusb::Error::Timeout)), CaptureAction::TimedOut { report: true }));
}

#[test]
fn clear_halt_outcome_decides_continuation() {
    assert!(continue_after_clear_halt(&Ok(())));
    assert!(!continue_after_clear_halt(&Err(rusb::Error::Pipe)));
}

#[test]
fn probe_success_detection() {
    let none = vec![(0x34u8, Err(rusb::Error::Pipe)), (0x35, Err(rusb::Error::Pipe))];
    assert!(!any_probe_succeeded(&none));
    let some = vec![(0x34u8, Ok(0x69u8)), (0x35, Err(rusb::Error::Pipe))];
    assert!(any_probe_succeeded(&some));
}

#[test]
fn tuner_profile_is_empty_for_now() {
    assert!(r82xx_1090mhz_profile().is_empty());
}
