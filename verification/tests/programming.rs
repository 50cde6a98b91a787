use ezp::db::ChipDbEntry;
use ezp::error::EzpError;
use ezp::ezp_common::ChipType;
use ezp::programming::{is_last_chunk, read_cmd_for, response_hex, self_test_status, READ_CHUNK};

#[test]
fn detect_response_as_hex() {
    assert_eq!(response_hex(&[0x15, 0x02, 0x1c, 0x13]), "15021c13");
    assert_eq!(response_hex(&[0x00, 0xff, 0xa5]), "00ffa5");
    assert_eq!(response_hex(&[]), "");
}

#[test]
fn read_command_for_chip() {
    let chip = ChipDbEntry {
        chip_type: ChipType::EE24,
        product_name: String::from("24C64"),
        vendor_name: String::from("ATMEL"),
        size: 0x2000,
        voltage: 0x32,
        ee93_unk: 0,
        ee93_bits: 0,
        write_flag: None,
    };
    assert_eq!(
        read_cmd_for(&chip),
        vec![0x11, 0x0a, 0x02, 0, 0, 0, 0, 0x00, 0x00, 0x20, 0x00, 0x24, 0x00, 0x01, 0x00]
    );
}

#[test]
fn self_test_text() {
    assert_eq!(self_test_status(b"OK"), Ok("OK".to_string()));
    assert_eq!(self_test_status(&[0x80]), Err(EzpError::InvalidUtf8("invalid utf-8 sequence of 1 bytes from index 0".to_string())));
}

#[test]
fn chunks() {
    assert_eq!(READ_CHUNK, 4096);
    assert!(is_last_chunk(0));
    assert!(is_last_chunk(4095));
    assert!(!is_last_chunk(4096));
}

#[test]
fn self_test_incomplete_utf8_message() {
    let err = self_test_status(&[0x41, 0xe2, 0x82]).unwrap_err();
    assert_eq!(err.to_string(), "incomplete utf-8 byte sequence from index 1");
}
