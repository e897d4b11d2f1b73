use streamdeck_hid_rs::encoded_image_packages;
use streamdeck_hid_rs::image_packages;
use streamdeck_hid_rs::rotate180;
use streamdeck_hid_rs::rotate270;
use streamdeck_hid_rs::RgbImage;
use streamdeck_hid_rs::StreamDeckError;
use streamdeck_hid_rs::StreamDeckImageFormat;
use streamdeck_hid_rs::StreamDeckType;

fn all_types() -> Vec<StreamDeckType> {
    vec![
        StreamDeckType::Xl,
        StreamDeckType::OrigV2,
        StreamDeckType::Orig,
        StreamDeckType::Mini,
    ]
}

#[test]
fn test_image_packer_accept_correct_dimensions() {
    for device_type in all_types() {
        let image = RgbImage::new(
            device_type.button_image_size().0,
            device_type.button_image_size().1,
        );
        assert!(image_packages(device_type, &image, 1).is_ok());
    }
}

#[test]
fn test_image_packer_fail_incorrect_dimensions() {
    for device_type in all_types() {
        let image = RgbImage::new(
            device_type.button_image_size().0 + 1,
            device_type.button_image_size().1 + 1,
        );
        assert!(image_packages(device_type, &image, 1).is_err());
    }
}

#[test]
fn test_image_packer_header() {
    for device_type in all_types() {
        let image = RgbImage::new(
            device_type.button_image_size().0,
            device_type.button_image_size().1,
        );
        let correct_header = device_type.image_package_header(0, 0, 0);
        let packages = image_packages(device_type, &image, 1).unwrap();
        assert_eq!(packages[0][0], correct_header[0]);
        assert_eq!(packages[0][0], correct_header[0]);
    }
}

#[test]
fn test_image_packer_encoding() {
    for device_type in all_types() {
        let image = RgbImage::new(
            device_type.button_image_size().0,
            device_type.button_image_size().1,
        );
        let correct_header = device_type.image_package_header(0, 0, 0);
        let packages = image_packages(device_type.clone(), &image, 1).unwrap();

        // We just test if the first bytes are correctly set
        match &device_type.button_image_format() {
            StreamDeckImageFormat::Bmp => {
                assert_eq!(packages[0][correct_header.len()], 66);
                assert_eq!(packages[0][correct_header.len() + 1], 77);
            }
            StreamDeckImageFormat::Jpeg => {
                assert_eq!(packages[0][correct_header.len()], 255);
                assert_eq!(packages[0][correct_header.len() + 1], 216);
            }
        }
    }
}

#[test]
fn test_image_packer_num_pages() {
    for device_type in all_types() {
        let image = RgbImage::new(
            device_type.button_image_size().0,
            device_type.button_image_size().1,
        );

        let packages = image_packages(device_type.clone(), &image, 1).unwrap();

        match &device_type {
            StreamDeckType::Xl => {
                assert_eq!(packages.len(), 1)
            }
            StreamDeckType::OrigV2 => {
                assert_eq!(packages.len(), 1)
            }
            StreamDeckType::Orig => {
                assert_eq!(packages.len(), 2)
            }
            StreamDeckType::Mini => {
                assert_eq!(packages.len(), 3)
            }
        }
    }
}

#[test]
fn dimension_mismatch_carries_expected_size() {
    let image = RgbImage::new(10, 10);
    let result = image_packages(StreamDeckType::Mini, &image, 0);
    assert!(matches!(
        result,
        Err(StreamDeckError::DimensionMismatch(80, 80))
    ));
}

#[test]
fn packages_have_fixed_size_and_zero_padding() {
    let image = RgbImage::new(72, 72);
    let packages = image_packages(StreamDeckType::Orig, &image, 0).unwrap();
    // Encoded BMP of a 72x72 RGB image: 54 header bytes + 72 rows of 216
    // bytes = 15606 bytes, split as 7803 + 7803 into exactly two packets.
    assert_eq!(packages.len(), 2);
    for package in &packages {
        assert_eq!(package.len(), 8191);
    }
    // Second page carries the rest and is padded with zeros at the end:
    // 16 header bytes + 7803 payload bytes, then padding.
    assert!(packages[1][16 + 7803..].iter().all(|b| *b == 0));
}

#[test]
fn small_family_headers_number_pages_in_order() {
    // In the small-buffer family, byte 2 of each header is the page number
    // plus one; pages must arrive in increasing order.
    let image = RgbImage::new(80, 80);
    let packages = image_packages(StreamDeckType::Mini, &image, 4).unwrap();
    assert_eq!(packages.len(), 3);
    for (page, package) in packages.iter().enumerate() {
        assert_eq!(package[0], 0x02);
        assert_eq!(package[1], 0x01);
        assert_eq!(package[2], (page + 1) as u8);
        assert_eq!(package[5], 5); // button index plus one
    }
}

#[test]
fn rotate180_reverses_pixels() {
    // 2x2 image, pixels numbered by their first channel byte:
    //   (0,0)=[1,2,3]   (1,0)=[4,5,6]
    //   (0,1)=[7,8,9]   (1,1)=[10,11,12]
    let data = vec![1, 2, 3, 4, 5, 6, 7, 8, 9, 10, 11, 12];
    let image = RgbImage::from_raw(2, 2, data).unwrap();
    let rotated = rotate180(&image);
    assert_eq!(rotated.width, 2);
    assert_eq!(rotated.height, 2);
    // After 180 degrees the pixel order is reversed.
    assert_eq!(rotated.data, vec![10, 11, 12, 7, 8, 9, 4, 5, 6, 1, 2, 3]);
}

#[test]
fn rotate270_moves_columns_to_rows() {
    // 2x1 image: (0,0)=[1,2,3], (1,0)=[4,5,6].  Rotated 270 degrees
    // clockwise it becomes a 1x2 image whose top pixel is the right input
    // pixel: output (0,0) = input (1,0), output (0,1) = input (0,0).
    let data = vec![1, 2, 3, 4, 5, 6];
    let image = RgbImage::from_raw(2, 1, data).unwrap();
    let rotated = rotate270(&image);
    assert_eq!(rotated.width, 1);
    assert_eq!(rotated.height, 2);
    assert_eq!(rotated.data, vec![4, 5, 6, 1, 2, 3]);
}

#[test]
fn from_raw_checks_length() {
    assert!(RgbImage::from_raw(2, 2, vec![0; 12]).is_some());
    assert!(RgbImage::from_raw(2, 2, vec![0; 11]).is_none());
    assert!(RgbImage::from_raw(2, 2, vec![0; 13]).is_none());
    assert!(RgbImage::from_raw(5000, 1, vec![0; 15000]).is_none());
}

#[test]
fn large_family_final_flag_only_on_last_packet() {
    // 2000 encoded bytes on the XL family chunk into 1016 + 984: the flag
    // byte is clear on the first packet and set on the final one, and
    // bytes 4-5 embed each packet's own payload length.
    let encoded = vec![7u8; 2000];
    let packages = encoded_image_packages(StreamDeckType::Xl, &encoded, 0);
    assert_eq!(packages.len(), 2);
    assert_eq!(packages[0][3], 0x00);
    assert_eq!(packages[1][3], 0x01);
    assert_eq!(u16::from_le_bytes([packages[0][4], packages[0][5]]), 1016);
    assert_eq!(u16::from_le_bytes([packages[1][4], packages[1][5]]), 984);
    // A stream that fits in one packet gets the flag on its only packet.
    let short = vec![7u8; 100];
    let single = encoded_image_packages(StreamDeckType::OrigV2, &short, 0);
    assert_eq!(single.len(), 1);
    assert_eq!(single[0][3], 0x01);
}

#[test]
fn is_wf_decides_consistency() {
    assert!(RgbImage::new(2, 2).is_wf());
    let inconsistent = RgbImage {
        width: 2,
        height: 2,
        data: vec![0; 11],
    };
    assert!(!inconsistent.is_wf());
    let oversized = RgbImage {
        width: 5000,
        height: 1,
        data: vec![0; 15000],
    };
    assert!(!oversized.is_wf());
}
