use ezp::text::text_or_error;
use ezp::error::EzpError;
use ezp::ezp_commands::{
    create_detect_cmd, create_read_cmd, create_self_test_cmd, create_serial_cmd,
    create_version_cmd, create_write_cmd, process_serial, process_version,
};
use ezp::ezp_common::ChipType;

#[test]
fn chip_codes() {
    assert_eq!(ChipType::Spi.chip_to_u8(), 0x01);
    assert_eq!(ChipType::EE24.chip_to_u8(), 0x02);
    assert_eq!(ChipType::EE25.chip_to_u8(), 0x03);
    assert_eq!(ChipType::EE93.chip_to_u8(), 0x04);
}

#[test]
fn read_cmd_layout() {
    let cmd = create_read_cmd(&ChipType::Spi, 0x0010_0000, 0x0300, false);
    assert_eq!(
        cmd,
        vec![0x11, 0x0a, 0x01, 0, 0, 0, 0, 0x00, 0x10, 0x00, 0x00, 0x03, 0x00, 0x00, 0x00]
    );
    let cmd = create_read_cmd(&ChipType::EE24, 0x1234_5678, 0xabcd, true);
    assert_eq!(
        cmd,
        vec![0x11, 0x0a, 0x02, 0, 0, 0, 0, 0x12, 0x34, 0x56, 0x78, 0xab, 0xcd, 0x01, 0x00]
    );
}

#[test]
fn write_cmd_layout() {
    let cmd = create_write_cmd(&ChipType::EE25, 0x0000_0200, 0x0100, Some(0x0203), false);
    assert_eq!(
        cmd,
        vec![0x12, 0x0c, 0x03, 0, 0, 0, 0, 0x00, 0x00, 0x02, 0x00, 0x02, 0x03, 0x01, 0x00, 0x00, 0x00]
    );
    let cmd = create_write_cmd(&ChipType::EE93, 0x80, 0x3803, None, true);
    assert_eq!(
        cmd,
        vec![0x12, 0x0c, 0x04, 0, 0, 0, 0, 0x00, 0x00, 0x00, 0x80, 0x00, 0x01, 0x38, 0x03, 0x01, 0x00]
    );
}

#[test]
fn write_cmd_default_write_flags_is_one() {
    let a = create_write_cmd(&ChipType::Spi, 77, 0x0300, None, false);
    let b = create_write_cmd(&ChipType::Spi, 77, 0x0300, Some(1), false);
    assert_eq!(a, b);
}

#[test]
fn short_commands() {
    assert_eq!(create_detect_cmd(&ChipType::EE24), vec![0x15, 0x00, 0x02]);
    assert_eq!(create_version_cmd(), vec![0x17, 0x00]);
    assert_eq!(create_serial_cmd(), vec![0x18, 0x00]);
    assert_eq!(create_self_test_cmd(), vec![0xf3, 0x00]);
}

#[test]
fn version_text_ends_two_bytes_early() {
    let mut data = vec![0x17, 0x1e];
    data.extend_from_slice(b"EZP2010");
    data.push(0);
    data.extend_from_slice(&[0xaa; 8]);
    assert_eq!(process_version(&data), Ok("EZP20".to_string()));
}

#[test]
fn version_rejects_wrong_header() {
    let data = vec![0x17, 0x1f, b'a', b'b', b'c', 0];
    assert_eq!(process_version(&data), Err(EzpError::UnexpectedResponse));
    let data = vec![0x18, 0x1e];
    assert_eq!(process_version(&data), Err(EzpError::UnexpectedResponse));
}

#[test]
fn version_rejects_invalid_utf8() {
    let data = vec![0x17, 0x1e, 0xff, 0xfe, 0xfd, 0];
    assert_eq!(process_version(&data), Err(EzpError::InvalidUtf8("invalid utf-8 sequence of 1 bytes from index 0".to_string())));
}

#[test]
fn version_empty_text() {
    let data = vec![0x17, 0x1e, b'a', b'b', 0];
    assert_eq!(process_version(&data), Ok(String::new()));
}

#[test]
fn serial_text() {
    let mut data = vec![0x18, 0x10];
    data.extend_from_slice(b"0123456789ABCD");
    data.extend_from_slice(&[0xff, 0xff]);
    assert_eq!(process_serial(&data), Ok("0123456789ABCD".to_string()));
}

#[test]
fn serial_rejects_wrong_header() {
    let data = vec![0x17, 0x10];
    assert_eq!(process_serial(&data), Err(EzpError::UnexpectedResponse));
}

#[test]
fn serial_rejects_invalid_utf8() {
    let mut data = vec![0x18, 0x10];
    data.extend_from_slice(&[0xc3; 14]);
    assert_eq!(process_serial(&data), Err(EzpError::InvalidUtf8("invalid utf-8 sequence of 1 bytes from index 0".to_string())));
}

#[test]
fn error_texts() {
    let data = vec![0x17, 0x1f, b'a', b'b', b'c', 0];
    assert_eq!(process_version(&data).unwrap_err().to_string(), "No");
    let data = vec![0x19, 0x10];
    assert_eq!(process_serial(&data).unwrap_err().to_string(), "No");
    let data = vec![0x17, 0x1e, 0xff, 0xfe, 0xfd, 0];
    assert_eq!(
        process_version(&data).unwrap_err().to_string(),
        "invalid utf-8 sequence of 1 bytes from index 0"
    );
    assert_eq!(EzpError::NoTerminator.to_string(), "No terminator");
}

#[test]
fn utf8_outcome_to_text() {
    assert_eq!(text_or_error(Ok("abc".to_string())), Ok("abc".to_string()));
    assert_eq!(
        text_or_error(Err("bad".to_string())),
        Err(EzpError::InvalidUtf8("bad".to_string()))
    );
}
