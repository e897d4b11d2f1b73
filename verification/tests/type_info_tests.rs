use streamdeck_hid_rs::ImageTransformation;
use streamdeck_hid_rs::StreamDeckImageFormat;
use streamdeck_hid_rs::StreamDeckType;

fn all_types() -> Vec<StreamDeckType> {
    vec![
        StreamDeckType::Xl,
        StreamDeckType::OrigV2,
        StreamDeckType::Orig,
        StreamDeckType::Mini,
    ]
}

#[test]
fn test_name() {
    assert!(StreamDeckType::Xl.name().contains("XL"));
    assert!(StreamDeckType::OrigV2.name().contains("(original v2)"));
    assert!(StreamDeckType::Orig.name().contains("original"));
    assert!(StreamDeckType::Mini.name().contains("Mini"));
}

#[test]
fn test_num_buttons() {
    assert_eq!(StreamDeckType::Xl.num_buttons(), (4, 8));
    assert_eq!(StreamDeckType::OrigV2.num_buttons(), (3, 5));
    assert_eq!(StreamDeckType::Orig.num_buttons(), (3, 5));
    assert_eq!(StreamDeckType::Mini.num_buttons(), (2, 3));
}

#[test]
fn test_total_buttons() {
    assert_eq!(StreamDeckType::Xl.total_num_buttons(), 32);
    assert_eq!(StreamDeckType::OrigV2.total_num_buttons(), 15);
    assert_eq!(StreamDeckType::Orig.total_num_buttons(), 15);
    assert_eq!(StreamDeckType::Mini.total_num_buttons(), 6);
}

#[test]
fn test_button_image_format() {
    assert_eq!(
        StreamDeckType::Xl.button_image_format(),
        StreamDeckImageFormat::Jpeg
    );
    assert_eq!(
        StreamDeckType::OrigV2.button_image_format(),
        StreamDeckImageFormat::Jpeg
    );
    assert_eq!(
        StreamDeckType::Orig.button_image_format(),
        StreamDeckImageFormat::Bmp
    );
    assert_eq!(
        StreamDeckType::Mini.button_image_format(),
        StreamDeckImageFormat::Bmp
    );
}

#[test]
fn test_button_image_size() {
    assert_eq!(StreamDeckType::Xl.button_image_size(), (96, 96));
    assert_eq!(StreamDeckType::OrigV2.button_image_size(), (72, 72));
    assert_eq!(StreamDeckType::Orig.button_image_size(), (72, 72));
    assert_eq!(StreamDeckType::Mini.button_image_size(), (80, 80));
}

#[test]
fn test_get_type_correct() {
    assert_eq!(
        StreamDeckType::from_vendor_and_product_id(0x0fd9, 0x63),
        Some(StreamDeckType::Mini)
    );
    assert_eq!(
        StreamDeckType::from_vendor_and_product_id(0x0fd9, 0x60),
        Some(StreamDeckType::Orig)
    );
    assert_eq!(
        StreamDeckType::from_vendor_and_product_id(0x0fd9, 0x6d),
        Some(StreamDeckType::OrigV2)
    );
    assert_eq!(
        StreamDeckType::from_vendor_and_product_id(0x0fd9, 0x6c),
        Some(StreamDeckType::Xl)
    );
}

#[test]
fn test_get_type_incorrect() {
    for t in all_types() {
        assert_eq!(
            StreamDeckType::from_vendor_and_product_id(0xf334, t.get_product_id()),
            None,
        );
        assert_eq!(
            StreamDeckType::from_vendor_and_product_id(t.get_product_id(), 0xf334),
            None,
        );
    }
}

#[test]
fn test_brightness_packet() {
    // We only test the brightness byte ... the rest is constants
    assert_eq!(StreamDeckType::Xl.brightness_packet(22)[2], 22);
    assert_eq!(StreamDeckType::OrigV2.brightness_packet(23)[2], 23);
    assert_eq!(StreamDeckType::Orig.brightness_packet(34)[5], 34);
    assert_eq!(StreamDeckType::Mini.brightness_packet(35)[5], 35);
}

#[test]
fn test_reset_packet() {
    assert_eq!(StreamDeckType::Xl.reset_packet()[0], 0x03);
    assert_eq!(StreamDeckType::OrigV2.reset_packet()[0], 0x03);
    assert_eq!(StreamDeckType::Orig.reset_packet()[0], 0x0b);
    assert_eq!(StreamDeckType::Mini.reset_packet()[0], 0x0b);
}

#[test]
fn test_reset_keystream_package() {
    assert_eq!(StreamDeckType::Xl.reset_key_stream_packet()[0], 2);
    assert_eq!(StreamDeckType::OrigV2.reset_key_stream_packet()[0], 2);
    assert_eq!(StreamDeckType::Orig.reset_key_stream_packet()[0], 2);
    assert_eq!(StreamDeckType::Mini.reset_key_stream_packet()[0], 2);
}

#[test]
fn test_image_package_size() {
    assert_eq!(StreamDeckType::Xl.image_package_size(), 1024);
    assert_eq!(StreamDeckType::OrigV2.image_package_size(), 1024);
    assert_eq!(StreamDeckType::Orig.image_package_size(), 8191);
    assert_eq!(StreamDeckType::Mini.image_package_size(), 8191);
}

#[test]
fn test_image_package_header_button_index() {
    for btn_index in 0..6 {
        assert_eq!(
            StreamDeckType::Xl.image_package_header(700, btn_index.clone(), 1)[2],
            btn_index.clone()
        );
        assert_eq!(
            StreamDeckType::OrigV2.image_package_header(700, btn_index.clone(), 1)[2],
            btn_index.clone()
        );
        assert_eq!(
            StreamDeckType::Orig.image_package_header(700, btn_index.clone(), 1)[5],
            (btn_index + 1) as u8
        );
        assert_eq!(
            StreamDeckType::Mini.image_package_header(700, btn_index.clone(), 1)[5],
            (btn_index + 1) as u8
        );
    }
}

#[test]
fn test_image_package_header_page_number() {
    for page_number in 0..300 {
        assert_eq!(
            StreamDeckType::Xl.image_package_header(700, 1, page_number.clone())[6],
            (page_number.clone() & 0xFF) as u8
        );
        assert_eq!(
            StreamDeckType::Xl.image_package_header(700, 1, page_number.clone())[7],
            (page_number.clone() >> 8) as u8
        );

        assert_eq!(
            StreamDeckType::OrigV2.image_package_header(700, 1, page_number.clone())[6],
            (page_number.clone() & 0xFF) as u8
        );
        assert_eq!(
            StreamDeckType::OrigV2.image_package_header(700, 1, page_number.clone())[7],
            (page_number.clone() >> 8) as u8
        );

        assert_eq!(
            StreamDeckType::Orig.image_package_header(700, 1, page_number.clone())[2],
            (page_number.clone() + 1) as u8
        );
        assert_eq!(
            StreamDeckType::Orig.image_package_header(700, 1, page_number.clone())[4],
            if page_number == 1 { 0x01 } else { 0x00 }
        );

        assert_eq!(
            StreamDeckType::Mini.image_package_header(700, 1, page_number.clone())[2],
            (page_number.clone() + 1) as u8
        );
        assert_eq!(
            StreamDeckType::Mini.image_package_header(700, 1, page_number.clone())[4],
            if page_number == 1 { 0x01 } else { 0x00 }
        );
    }
}

#[test]
fn test_button_image_transformation() {
    assert_eq!(
        StreamDeckType::Xl.button_image_transformation(),
        ImageTransformation::Rotate180
    );
    assert_eq!(
        StreamDeckType::OrigV2.button_image_transformation(),
        ImageTransformation::Rotate180
    );
    assert_eq!(
        StreamDeckType::Orig.button_image_transformation(),
        ImageTransformation::Rotate180
    );
    assert_eq!(
        StreamDeckType::Mini.button_image_transformation(),
        ImageTransformation::Rotate270
    );
}

#[test]
fn max_payload_size() {
    assert_eq!(StreamDeckType::Xl.max_payload_size(), 1024 - 8);
    assert_eq!(StreamDeckType::OrigV2.max_payload_size(), 1024 - 8);
    assert_eq!(StreamDeckType::Orig.max_payload_size(), 7803);
    assert_eq!(StreamDeckType::Mini.max_payload_size(), 7803);
}

#[test]
fn brightness_packet_full_patterns() {
    let large = StreamDeckType::Xl.brightness_packet(77);
    let mut expected_large = vec![0u8; 32];
    expected_large[0] = 0x03;
    expected_large[1] = 0x08;
    expected_large[2] = 77;
    assert_eq!(large, expected_large);

    let small = StreamDeckType::Mini.brightness_packet(42);
    let mut expected_small = vec![0u8; 17];
    expected_small[0] = 0x05;
    expected_small[1] = 0x55;
    expected_small[2] = 0xaa;
    expected_small[3] = 0xd1;
    expected_small[4] = 0x01;
    expected_small[5] = 42;
    assert_eq!(small, expected_small);
}

#[test]
fn reset_packet_full_patterns() {
    let mut expected_large = vec![0u8; 32];
    expected_large[0] = 0x03;
    expected_large[1] = 0x02;
    assert_eq!(StreamDeckType::OrigV2.reset_packet(), expected_large);

    let mut expected_small = vec![0u8; 17];
    expected_small[0] = 0x0b;
    expected_small[1] = 0x63;
    assert_eq!(StreamDeckType::Orig.reset_packet(), expected_small);
}

#[test]
fn reset_key_stream_packet_is_all_zero_after_marker() {
    for t in all_types() {
        let packet = t.reset_key_stream_packet();
        assert_eq!(packet.len(), t.image_package_size());
        assert_eq!(packet[0], 2);
        assert!(packet[1..].iter().all(|b| *b == 0));
    }
}

#[test]
fn vendor_id_is_shared() {
    for t in all_types() {
        assert_eq!(t.get_vendor_id(), 0x0fd9);
    }
}

#[test]
fn large_header_embeds_final_flag_and_length() {
    // bytes_remaining below the packet size: length equals bytes_remaining,
    // so the final flag is set.
    let header = StreamDeckType::Xl.image_package_header(700, 3, 2);
    assert_eq!(header.len(), 8);
    assert_eq!(header[0], 0x02);
    assert_eq!(header[1], 0x07);
    assert_eq!(header[2], 3);
    assert_eq!(header[3], 0x01);
    assert_eq!(u16::from_le_bytes([header[4], header[5]]), 700);
    assert_eq!(u16::from_le_bytes([header[6], header[7]]), 2);

    // bytes_remaining above the maximum payload: the embedded length is
    // capped at the payload one packet carries, and the flag is clear.
    let capped = StreamDeckType::Xl.image_package_header(5000, 3, 2);
    assert_eq!(capped[3], 0x00);
    assert_eq!(u16::from_le_bytes([capped[4], capped[5]]), 1016);
}
