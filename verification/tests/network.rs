use audio_visualizer::network::{packet_bytes, quantize, CompactAudioPacket};

#[test]
fn quantize_maps_zero_and_full_scale() {
    assert_eq!(quantize(0), 0);
    assert_eq!(quantize(1_000_000), 255);
}

#[test]
fn quantize_rounds_to_nearest() {
    assert_eq!(quantize(500_000), 128);
    assert_eq!(quantize(250_000), 64);
    assert_eq!(quantize(1_960), 0);
    assert_eq!(quantize(1_961), 1);
    assert_eq!(quantize(998_040), 255);
    assert_eq!(quantize(998_039), 254);
}

#[test]
fn quantize_saturates_above_full_scale() {
    assert_eq!(quantize(1_000_001), 255);
    assert_eq!(quantize(2_000_000), 255);
    assert_eq!(quantize(u32::MAX), 255);
}

#[test]
fn quantize_error_is_within_one_step() {
    let mut amplitude: u32 = 0;
    while amplitude <= 1_000_000 {
        let level = quantize(amplitude) as i64;
        let error = (level * 1_000_000 - amplitude as i64 * 255).abs();
        assert!(error <= 500_000, "amplitude {} level {}", amplitude, level);
        amplitude += 977;
    }
}

#[test]
fn quantize_is_monotonic() {
    let mut previous = 0u8;
    let mut amplitude: u32 = 0;
    while amplitude <= 1_100_000 {
        let level = quantize(amplitude);
        assert!(level >= previous);
        previous = level;
        amplitude += 1_013;
    }
}

#[test]
fn new_packet_quantizes_bands() {
    let packet = CompactAudioPacket::new(&[0, 1_000_000, 500_000], true, 0x0102_0304);
    assert_eq!(packet.version(), 1);
    assert_eq!(packet.num_bands(), 3);
    assert_eq!(packet.flags(), 1);
    assert!(packet.interpolated_log());
    assert_eq!(packet.timestamp(), 0x0102_0304);
    assert_eq!(packet.bands(), &vec![0u8, 255, 128]);
}

#[test]
fn new_packet_without_flag() {
    let packet = CompactAudioPacket::new(&[250_000], false, 7);
    assert_eq!(packet.flags(), 0);
    assert!(!packet.interpolated_log());
    assert_eq!(packet.bands(), &vec![64u8]);
}

#[test]
fn new_packet_truncates_to_255_bands() {
    let bands: Vec<u32> = (0..300).map(|i| i * 1_000).collect();
    let packet = CompactAudioPacket::new(&bands, false, 0);
    assert_eq!(packet.num_bands(), 255);
    assert_eq!(packet.bands().len(), 255);
    assert_eq!(packet.bands()[254], quantize(254_000));
    assert_eq!(packet.to_bytes().len(), 9 + 255);
}

#[test]
fn new_packet_of_no_bands() {
    let packet = CompactAudioPacket::new(&[], true, 42);
    assert_eq!(packet.num_bands(), 0);
    assert_eq!(packet.to_bytes(), vec![0xAD, 0x01, 0x01, 0x00, 0x01, 42, 0, 0, 0]);
}

#[test]
fn to_bytes_lays_out_header_and_bands() {
    let packet = CompactAudioPacket::new(&[0, 1_000_000, 500_000], true, 0x0102_0304);
    assert_eq!(
        packet.to_bytes(),
        vec![0xAD, 0x01, 0x01, 0x03, 0x01, 0x04, 0x03, 0x02, 0x01, 0x00, 0xFF, 0x80]
    );
}

#[test]
fn to_bytes_timestamp_is_little_endian() {
    let packet = CompactAudioPacket::new(&[], false, 0xFFEE_DDCC);
    let bytes = packet.to_bytes();
    assert_eq!(&bytes[5..9], &[0xCC, 0xDD, 0xEE, 0xFF]);
    let packet = CompactAudioPacket::new(&[], false, 1);
    assert_eq!(&packet.to_bytes()[5..9], &[1, 0, 0, 0]);
}

#[test]
fn from_bytes_reads_every_field() {
    let data = [0xAD, 0x01, 0x07, 0x02, 0x81, 0x78, 0x56, 0x34, 0x12, 0x0A, 0xF0];
    let packet = CompactAudioPacket::from_bytes(&data).unwrap();
    assert_eq!(packet.version(), 7);
    assert_eq!(packet.num_bands(), 2);
    assert_eq!(packet.flags(), 0x81);
    assert!(packet.interpolated_log());
    assert_eq!(packet.timestamp(), 0x1234_5678);
    assert_eq!(packet.bands(), &vec![0x0Au8, 0xF0]);
}

#[test]
fn round_trip_reproduces_the_packet() {
    for count in [0usize, 1, 2, 64, 254, 255] {
        for flag in [false, true] {
            let bands: Vec<u32> = (0..count as u32).map(|i| (i * 7_919) % 1_000_001).collect();
            let packet = CompactAudioPacket::new(&bands, flag, 1_700_000_000 + count as u32);
            let decoded = CompactAudioPacket::from_bytes(&packet.to_bytes()).unwrap();
            assert_eq!(decoded.num_bands() as usize, count);
            assert_eq!(decoded.flags(), packet.flags());
            assert_eq!(decoded.version(), packet.version());
            assert_eq!(decoded.timestamp(), packet.timestamp());
            assert_eq!(decoded.bands(), packet.bands());
            assert_eq!(decoded.to_bytes(), packet.to_bytes());
        }
    }
}

#[test]
fn round_trip_keeps_arbitrary_amplitude_bytes() {
    let mut data = vec![0xAD, 0x01, 0x01, 255, 0x00, 1, 2, 3, 4];
    data.extend((0..255u32).map(|i| (i * 37 % 256) as u8));
    let packet = CompactAudioPacket::from_bytes(&data).unwrap();
    assert_eq!(packet.num_bands(), 255);
    assert_eq!(packet.to_bytes(), data);
}

#[test]
fn from_bytes_rejects_short_buffers() {
    assert!(CompactAudioPacket::from_bytes(&[]).is_none());
    assert!(CompactAudioPacket::from_bytes(&[0xAD]).is_none());
    assert!(CompactAudioPacket::from_bytes(&[0xAD, 0x01, 0x01, 0x00, 0x00, 0, 0, 0]).is_none());
}

#[test]
fn from_bytes_accepts_a_bare_header() {
    let packet = CompactAudioPacket::from_bytes(&[0xAD, 0x01, 0x01, 0x00, 0x00, 0, 0, 0, 0]).unwrap();
    assert_eq!(packet.num_bands(), 0);
    assert!(packet.bands().is_empty());
}

#[test]
fn from_bytes_rejects_corrupted_magic() {
    let good = CompactAudioPacket::new(&[100_000, 200_000], true, 99).to_bytes();
    assert!(CompactAudioPacket::from_bytes(&good).is_some());
    let mut bad = good.clone();
    bad[0] = 0x00;
    bad[1] = 0x00;
    assert!(CompactAudioPacket::from_bytes(&bad).is_none());
    let mut bad_first = good.clone();
    bad_first[0] = 0xAC;
    assert!(CompactAudioPacket::from_bytes(&bad_first).is_none());
    let mut bad_second = good.clone();
    bad_second[1] = 0x02;
    assert!(CompactAudioPacket::from_bytes(&bad_second).is_none());
}

#[test]
fn from_bytes_rejects_length_mismatch() {
    let good = CompactAudioPacket::new(&[100_000, 200_000], false, 99).to_bytes();
    let mut longer = good.clone();
    longer.push(0);
    assert!(CompactAudioPacket::from_bytes(&longer).is_none());
    let shorter = &good[..good.len() - 1];
    assert!(CompactAudioPacket::from_bytes(shorter).is_none());
    let mut wrong_count = good.clone();
    wrong_count[3] = 3;
    assert!(CompactAudioPacket::from_bytes(&wrong_count).is_none());
}

#[test]
fn from_bytes_ignores_version_and_reserved_flags() {
    let data = [0xAD, 0x01, 0xFF, 0x00, 0xFE, 0, 0, 0, 0];
    let packet = CompactAudioPacket::from_bytes(&data).unwrap();
    assert_eq!(packet.version(), 0xFF);
    assert_eq!(packet.flags(), 0xFE);
    assert!(!packet.interpolated_log());
}

#[test]
fn packet_bytes_is_new_then_to_bytes() {
    let bands = [10_000u32, 990_000, 333_333];
    assert_eq!(
        packet_bytes(&bands, true, 5),
        CompactAudioPacket::new(&bands, true, 5).to_bytes()
    );
    assert_eq!(
        packet_bytes(&bands, true, 5),
        vec![0xAD, 0x01, 0x01, 0x03, 0x01, 5, 0, 0, 0, 3, 252, 85]
    );
}
