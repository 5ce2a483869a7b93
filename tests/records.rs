use evkm10::evkm10::FIELD_COUNT;
use evkm10::{DecodeError, FloatBits, GnssLatLongIndicator, M10GnssDataPoint, M10GnssDataSet};

/// A well-formed frame; `seed` varies the satellite counts.
fn frame(seed: u8) -> Vec<u8> {
    let mut b = vec![seed, 2, 3, 4, 5, 6, 0xFF, 0xFF];
    // latitude
    b.extend_from_slice(&[1, 0, 0, 0]);
    b.extend_from_slice(&48i32.to_le_bytes());
    b.extend_from_slice(&12.5f32.to_le_bytes());
    b.extend_from_slice(&[b'N', 0, 0, 0]);
    // longitude
    b.extend_from_slice(&[0, 0, 0, 0]);
    b.extend_from_slice(&(-11i32).to_le_bytes());
    b.extend_from_slice(&0.25f32.to_le_bytes());
    b.extend_from_slice(&[b'W', 0, 0, 0]);
    // course over ground
    b.extend_from_slice(&[1, 0, 0, 0, 0, 0, 0, 0]);
    b.extend_from_slice(&271.5f64.to_le_bytes());
    b.extend_from_slice(&[b'D', 0, 0, 0, 0, 0, 0, 0]);
    // speed over ground
    b.extend_from_slice(&[1, 0, 0, 0, 0, 0, 0, 0]);
    b.extend_from_slice(&15.3f64.to_le_bytes());
    b.extend_from_slice(&[b'K', 0, 0, 0, 0, 0, 0, 0]);
    // time of sample
    b.extend_from_slice(&[25, 6, 17, 8, 30, 0, 0, 0]);
    b.extend_from_slice(&7.5f32.to_le_bytes());
    b.extend_from_slice(&[1, 0, 0, 0]);
    b.extend_from_slice(&[0xAB; 16]);
    assert_eq!(b.len(), 120);
    b
}

fn render(f: &FloatBits) -> String {
    match f {
        FloatBits::Single(bits) => f32::from_bits(*bits).to_string(),
        FloatBits::Double(bits) => f64::from_bits(*bits).to_string(),
    }
}

fn row(p: &M10GnssDataPoint) -> Vec<String> {
    let floats: [String; 5] = p.float_fields().map(|f| render(&f));
    p.serialize_to_string_vec(&floats)
}

#[test]
fn record_decodes_each_block_at_its_offset() {
    let p = M10GnssDataPoint::from_bytes(&frame(9)).unwrap();
    assert_eq!(p.available_satellites.gp, 9);
    assert_eq!(p.available_satellites.gq, 6);
    assert!(p.latitude.is_available);
    assert_eq!(p.latitude.degrees, 48);
    assert_eq!(p.latitude.indicator, GnssLatLongIndicator::N);
    assert!(!p.longitude.is_available);
    assert_eq!(p.longitude.degrees, -11);
    assert_eq!(p.longitude.indicator, GnssLatLongIndicator::W);
    assert_eq!(f64::from_bits(p.course_over_ground.value_bits), 271.5);
    assert_eq!(p.course_over_ground.unit_of_measurement, 'D');
    assert_eq!(f64::from_bits(p.speed_over_ground.value_bits), 15.3);
    assert_eq!(p.speed_over_ground.unit_of_measurement, 'K');
    assert_eq!(p.time_of_sample.year, 25);
    assert_eq!(p.time_of_sample.minute, 30);
    assert_eq!(f32::from_bits(p.time_of_sample.second_bits), 7.5);
    assert!(p.time_of_sample.is_available);
}

#[test]
fn record_padding_is_not_read() {
    let mut b = frame(1);
    for i in [6usize, 7, 9, 10, 11, 21, 22, 23, 41, 57, 63, 93, 103, 104, 119] {
        b[i] = 0x77;
    }
    assert_eq!(
        M10GnssDataPoint::from_bytes(&b).unwrap(),
        M10GnssDataPoint::from_bytes(&frame(1)).unwrap()
    );
}

#[test]
fn record_wrong_width_is_size_mismatch() {
    let b = frame(1);
    assert_eq!(
        M10GnssDataPoint::from_bytes(&b[..119]),
        Err(DecodeError::SizeMismatch { expected: 120, actual: 119 })
    );
    let mut longer = b.clone();
    longer.push(0);
    assert_eq!(
        M10GnssDataPoint::from_bytes(&longer),
        Err(DecodeError::SizeMismatch { expected: 120, actual: 121 })
    );
}

#[test]
fn record_block_errors_propagate_in_field_order() {
    let mut b = frame(1);
    b[36] = b'Q';
    b[80] = 0x90;
    assert_eq!(M10GnssDataPoint::from_bytes(&b), Err(DecodeError::InvalidEnumeration(b'Q')));
    b[20] = b'X';
    assert_eq!(M10GnssDataPoint::from_bytes(&b), Err(DecodeError::InvalidEnumeration(b'X')));
    let mut c = frame(1);
    c[80] = 0x90;
    assert_eq!(M10GnssDataPoint::from_bytes(&c), Err(DecodeError::InvalidCharacter(0x90)));
}

#[test]
fn record_projects_to_text_fields_in_order() {
    let p = M10GnssDataPoint::from_bytes(&frame(12)).unwrap();
    assert_eq!(
        p.float_fields(),
        [
            FloatBits::Single(12.5f32.to_bits()),
            FloatBits::Single(0.25f32.to_bits()),
            FloatBits::Double(271.5f64.to_bits()),
            FloatBits::Double(15.3f64.to_bits()),
            FloatBits::Single(7.5f32.to_bits()),
        ]
    );
    let expected = vec![
        "12", "2", "3", "4", "5", "6", "true", "48", "12.5", "N", "false", "-11", "0.25", "W",
        "true", "271.5", "D", "true", "15.3", "K", "25", "6", "17", "8", "30", "7.5", "true",
    ];
    assert_eq!(row(&p), expected);
    assert_eq!(row(&p).len(), FIELD_COUNT);
}

#[test]
fn headers_match_fields() {
    let h = M10GnssDataSet::headers();
    assert_eq!(h.len(), FIELD_COUNT);
    assert_eq!(h[0], "gp");
    assert_eq!(h[6], "Latitude: Available");
    assert_eq!(h[13], "Longitude: Indicator");
    assert_eq!(h[16], "Course Over Ground: Unit Of Measurement");
    assert_eq!(h[19], "Speed Over Ground: Unit Of Measurement");
    assert_eq!(h[20], "Timestamp: Year");
    assert_eq!(h[26], "Timestamp: Available");
}

#[test]
fn whole_frames_decode_in_order() {
    let mut buf = Vec::new();
    for seed in [10u8, 20, 30] {
        buf.extend(frame(seed));
    }
    let set = M10GnssDataSet::from_bin_dump(&buf).unwrap();
    let gps: Vec<u8> = set.data_points().iter().map(|p| p.available_satellites.gp).collect();
    assert_eq!(gps, vec![10, 20, 30]);
    let again = M10GnssDataSet::from_bin_dump(&buf).unwrap();
    assert_eq!(set.data_points(), again.data_points());
}

#[test]
fn trailing_partial_frame_is_dropped() {
    let mut buf = frame(1);
    buf.extend(frame(2));
    buf.extend(vec![0x5A; 119]);
    let set = M10GnssDataSet::from_bin_dump(&buf).unwrap();
    assert_eq!(set.data_points().len(), 2);
}

#[test]
fn short_and_empty_buffers_have_no_records() {
    assert_eq!(M10GnssDataSet::from_bin_dump(&[]).unwrap().data_points().len(), 0);
    assert_eq!(M10GnssDataSet::from_bin_dump(&frame(1)[..119]).unwrap().data_points().len(), 0);
}

#[test]
fn bad_frame_fails_the_whole_buffer() {
    let mut buf = frame(1);
    let mut bad = frame(2);
    bad[56] = 0xFF;
    buf.extend(bad);
    let mut bad2 = frame(3);
    bad2[20] = b'Z';
    buf.extend(bad2);
    assert_eq!(
        M10GnssDataSet::from_bin_dump(&buf).err(),
        Some(DecodeError::InvalidCharacter(0xFF))
    );
}

#[test]
fn two_frames_and_extra_bytes_export_header_and_two_rows() {
    let mut buf = frame(1);
    buf.extend(frame(2));
    buf.extend(vec![0u8; 50]);
    let set = M10GnssDataSet::from_bin_dump(&buf).unwrap();
    assert_eq!(set.data_points().len(), 2);

    let mut w = csv::WriterBuilder::new().has_headers(false).from_writer(Vec::new());
    w.write_record(M10GnssDataSet::headers()).unwrap();
    for p in set.data_points() {
        w.write_record(row(p)).unwrap();
    }
    let out = String::from_utf8(w.into_inner().unwrap()).unwrap();
    let lines: Vec<&str> = out.lines().collect();
    assert_eq!(lines.len(), 3);
    for line in lines {
        assert_eq!(line.split(',').count(), FIELD_COUNT);
    }
}

#[test]
fn concatenated_buffers_keep_both_orders() {
    let mut a = frame(1);
    a.extend(frame(2));
    let mut c = frame(3);
    c.extend(vec![0u8; 7]);
    let mut both = a.clone();
    both.extend(c.clone());
    let sa = M10GnssDataSet::from_bin_dump(&a).unwrap();
    let sc = M10GnssDataSet::from_bin_dump(&c).unwrap();
    let sb = M10GnssDataSet::from_bin_dump(&both).unwrap();
    let mut expected = sa.data_points().clone();
    expected.extend(sc.data_points().iter().copied());
    assert_eq!(sb.data_points(), &expected);
}
