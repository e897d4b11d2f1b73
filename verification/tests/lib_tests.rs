use streamdeck_hid_rs::check_write_length;
use streamdeck_hid_rs::matching_device_types;
use streamdeck_hid_rs::StreamDeckError;
use streamdeck_hid_rs::StreamDeckType;

#[test]
fn it_works() {
    let result: i32 = 2 + 2;
    assert_eq!(result, 4);
}

#[test]
fn matching_device_types_filters_and_keeps_order() {
    let ids: Vec<(u16, u16)> = vec![
        (1, 1),
        (0x0fd9, 0x6c),
        (0x6c, 0x0fd9),
        (0x0fd9, 0x63),
        (0x0fd9, 0x9999),
    ];
    let matches = matching_device_types(&ids);
    assert_eq!(matches.len(), 2);
    assert_eq!(matches[0], (StreamDeckType::Xl, 1));
    assert_eq!(matches[1], (StreamDeckType::Mini, 3));
}

#[test]
fn matching_device_types_empty() {
    let ids: Vec<(u16, u16)> = Vec::new();
    assert_eq!(matching_device_types(&ids).len(), 0);
}

#[test]
fn check_write_length_flags_short_writes() {
    assert!(check_write_length(1024, 1024).is_ok());
    assert!(matches!(
        check_write_length(1024, 1000),
        Err(StreamDeckError::IncorrectWriteLengthError)
    ));
}
