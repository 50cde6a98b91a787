use ezp::db::{
    count_entries, db_is_valid, get, get_by_product_name, getall, parse_string, to_chiptype,
    ChipDbEntry, DATA_SIZE, ENTRY_COUNT,
};
use ezp::error::EzpError;
use ezp::ezp_common::ChipType;

fn put_u32(buf: &mut [u8], at: usize, v: u32) {
    buf[at..at + 4].copy_from_slice(&v.to_le_bytes());
}

fn put_name(buf: &mut [u8], at: usize, name: &[u8]) {
    buf[at..at + name.len()].copy_from_slice(name);
}

struct Rec<'a> {
    chip_type: u32,
    product: &'a [u8],
    vendor: &'a [u8],
    voltage: u8,
    size: u32,
    write_1: u32,
    write_2: u16,
    ee93_unk: u8,
    ee93_bits: u8,
}

fn image(recs: &[Rec]) -> Vec<u8> {
    let mut data = vec![0u8; 0x64 + recs.len() * 0x6c + 10];
    for (i, r) in recs.iter().enumerate() {
        let e = 0x64 + i * 0x6c;
        put_u32(&mut data, e, r.chip_type);
        put_name(&mut data, e + 4, r.product);
        put_name(&mut data, e + 44, r.vendor);
        data[e + 65] = r.voltage;
        put_u32(&mut data, e + 68, r.size);
        put_u32(&mut data, e + 72, r.write_1);
        data[e + 76..e + 78].copy_from_slice(&r.write_2.to_le_bytes());
        data[e + 80] = r.ee93_unk;
        data[e + 81] = r.ee93_bits;
    }
    data
}

fn sample() -> Vec<u8> {
    image(&[
        Rec {
            chip_type: 0,
            product: b"W25Q80",
            vendor: b"WINBOND",
            voltage: 0x21,
            size: 0x10_0000,
            write_1: 0,
            write_2: 0x55,
            ee93_unk: 0,
            ee93_bits: 0,
        },
        Rec {
            chip_type: 3,
            product: b"93C46",
            vendor: b"ATMEL",
            voltage: 0x32,
            size: 0x80,
            write_1: 1,
            write_2: 0x0203,
            ee93_unk: 3,
            ee93_bits: 8,
        },
        Rec {
            chip_type: 1,
            product: b"93C46",
            vendor: b"OTHER",
            voltage: 0x32,
            size: 0x1000,
            write_1: 0,
            write_2: 0,
            ee93_unk: 0,
            ee93_bits: 0,
        },
    ])
}

fn entry(chip_type: ChipType, size: u32, voltage: u8, ee93_unk: u8, ee93_bits: u8) -> ChipDbEntry {
    ChipDbEntry {
        chip_type,
        product_name: String::from("X"),
        vendor_name: String::from("Y"),
        size,
        voltage,
        ee93_unk,
        ee93_bits,
        write_flag: None,
    }
}

#[test]
fn entry_count_of_full_image() {
    assert_eq!(ENTRY_COUNT, 750);
    assert_eq!(count_entries(DATA_SIZE), 750);
    assert_eq!(count_entries(0x64 + 3 * 0x6c + 10), 3);
    assert_eq!(count_entries(10), 0);
}

#[test]
fn chip_type_numbering() {
    assert_eq!(to_chiptype(0), ChipType::Spi);
    assert_eq!(to_chiptype(1), ChipType::EE24);
    assert_eq!(to_chiptype(2), ChipType::EE25);
    assert_eq!(to_chiptype(3), ChipType::EE93);
    for t in 0..4u32 {
        assert_eq!(to_chiptype(t).chip_to_u8() as u32, t + 1);
    }
}

#[test]
fn flags_per_family() {
    assert_eq!(entry(ChipType::Spi, 0x10, 0, 0, 0).flags(), 0x0300);
    assert_eq!(entry(ChipType::EE24, 0x800, 0, 0, 0).flags(), 0x1400);
    assert_eq!(entry(ChipType::EE24, 0x801, 0, 0, 0).flags(), 0x2400);
    assert_eq!(entry(ChipType::EE25, 0x200, 0, 0, 0).flags(), 0x0100);
    assert_eq!(entry(ChipType::EE25, 0x201, 0, 0, 0).flags(), 0x1100);
    assert_eq!(entry(ChipType::EE93, 0x80, 0, 3, 8).flags(), 0x3803);
    assert_eq!(entry(ChipType::EE93, 0x80, 0, 0, 16).flags(), 0x0801);
    assert_eq!(entry(ChipType::EE93, 0x80, 0, 15, 8).flags(), 0xf803);
}

#[test]
fn is5v_threshold() {
    assert!(!entry(ChipType::Spi, 0, 0x28, 0, 0).is5v());
    assert!(entry(ChipType::Spi, 0, 0x29, 0, 0).is5v());
}

#[test]
fn parse_string_cases() {
    assert_eq!(parse_string(b"ABC\0DEF\0"), Ok("ABC".to_string()));
    assert_eq!(parse_string(b"\0"), Ok(String::new()));
    assert_eq!(parse_string(b"ABC"), Err(EzpError::NoTerminator));
    assert_eq!(parse_string(&[0xff, 0x41, 0x00]), Err(EzpError::InvalidUtf8("invalid utf-8 sequence of 1 bytes from index 0".to_string())));
}

#[test]
fn get_decodes_records() {
    let data = sample();
    let e = get(&data, 0).unwrap();
    assert_eq!(e.chip_type, ChipType::Spi);
    assert_eq!(e.product_name, "W25Q80");
    assert_eq!(e.vendor_name, "WINBOND");
    assert_eq!(e.size, 0x10_0000);
    assert_eq!(e.voltage, 0x21);
    assert_eq!(e.write_flag, None);
    let e = get(&data, 1).unwrap();
    assert_eq!(e.chip_type, ChipType::EE93);
    assert_eq!(e.product_name, "93C46");
    assert_eq!(e.vendor_name, "ATMEL");
    assert_eq!(e.size, 0x80);
    assert_eq!(e.ee93_unk, 3);
    assert_eq!(e.ee93_bits, 8);
    assert_eq!(e.write_flag, Some(0x0203));
    assert_eq!(e.flags(), 0x3803);
    assert!(e.is5v());
}

#[test]
fn get_reports_bad_names() {
    let mut data = sample();
    let e = 0x64 + 0x6c;
    for b in &mut data[e + 4..e + 44] {
        *b = b'A';
    }
    assert_eq!(get(&data, 1).err(), Some(EzpError::NoTerminator));
    let mut data = sample();
    data[0x64 + 44] = 0xff;
    assert_eq!(get(&data, 0).err(), Some(EzpError::InvalidUtf8("invalid utf-8 sequence of 1 bytes from index 0".to_string())));
}

#[test]
fn getall_in_order() {
    let data = sample();
    assert!(db_is_valid(&data));
    let all = getall(&data);
    assert_eq!(all.len(), 3);
    assert_eq!(all[0].product_name, "W25Q80");
    assert_eq!(all[1].vendor_name, "ATMEL");
    assert_eq!(all[2].chip_type, ChipType::EE24);
}

#[test]
fn db_validity() {
    let mut data = sample();
    data[0x64 + 2 * 0x6c] = 7;
    assert!(!db_is_valid(&data));
    let mut data = sample();
    data[0x64 + 0x6c + 4 + 39] = b'Z';
    for b in &mut data[0x64 + 0x6c + 4..0x64 + 0x6c + 44] {
        *b = b'Z';
    }
    assert!(!db_is_valid(&data));
    assert!(db_is_valid(&[0u8; 20]));
}

#[test]
fn lookup_by_product_name_takes_first() {
    let data = sample();
    let e = get_by_product_name(&data, "93C46").unwrap();
    assert_eq!(e.vendor_name, "ATMEL");
    assert_eq!(e.chip_type, ChipType::EE93);
    let e = get_by_product_name(&data, "W25Q80").unwrap();
    assert_eq!(e.vendor_name, "WINBOND");
    assert!(get_by_product_name(&data, "93C4").is_none());
    assert!(get_by_product_name(&data, "").is_none());
}

#[test]
fn every_listed_name_is_found() {
    let data = sample();
    for e in getall(&data) {
        let found = get_by_product_name(&data, &e.product_name).unwrap();
        assert_eq!(found.product_name, e.product_name);
    }
}

#[test]
fn parse_string_error_texts() {
    assert_eq!(parse_string(b"ABC").unwrap_err().to_string(), "No terminator");
    assert_eq!(
        parse_string(&[0x41, 0xff, 0x00]).unwrap_err().to_string(),
        "invalid utf-8 sequence of 1 bytes from index 1"
    );
}
