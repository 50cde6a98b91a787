use vstd::prelude::*;
use crate::error::{EzpError, EzpErrorView};
use crate::ezp_common::chip_codes;
use crate::ezp_common::{chip_code, ChipType};
use crate::text::{
    copy_range, decode_text, find_zero, first_zero, first_zero_law, text_decoding_law, text_view,
    utf8_error_message, utf8_text,
};
use vstd::utf8::{decode_utf8, valid_utf8};

verus! {

/// Bytes between the starts of two consecutive records.
pub const ENTRY_SIZE: usize = 0x6C;

/// Size of the programmer's database image.
pub const DATA_SIZE: usize = 81100;

/// Offset of the first record in the database image.
pub const ENTRIES_START: usize = 0x64;

/// Number of records in a database image of `DATA_SIZE` bytes.
pub const ENTRY_COUNT: usize = (DATA_SIZE - ENTRIES_START) / ENTRY_SIZE;

/// Offsets of the fields inside a record. A record is laid out as a C struct:
/// chip type (u32), product name (40 bytes), vendor name (20 bytes), one
/// unused byte, voltage (u8), size (u32, aligned), write flag presence
/// (u32), write flag (u16), one unused byte, the 24C code byte, the 93C code
/// byte and the 93C bit width; multi-byte fields are little-endian.
pub const PRODUCT_NAME_AT: usize = 4;
pub const VENDOR_NAME_AT: usize = 44;
pub const VENDOR_NAME_END: usize = 64;
pub const VOLTAGE_AT: usize = 65;
pub const SIZE_AT: usize = 68;
pub const WRITE_1_AT: usize = 72;
pub const WRITE_2_AT: usize = 76;
pub const EE93_UNK_AT: usize = 80;
pub const EE93_BITS_AT: usize = 81;

/// A chip as the database describes it.
#[derive(Debug, Clone)]
pub struct ChipDbEntry {
    pub chip_type: ChipType,
    pub product_name: String,
    pub vendor_name: String,
    pub size: u32,
    pub voltage: u8,
    pub ee93_unk: u8,
    pub ee93_bits: u8,
    pub write_flag: Option<u16>,
}

/// A chip as the database describes it, with its names as characters.
pub struct ChipDbEntryView {
    pub chip_type: ChipType,
    pub product_name: Seq<char>,
    pub vendor_name: Seq<char>,
    pub size: u32,
    pub voltage: u8,
    pub ee93_unk: u8,
    pub ee93_bits: u8,
    pub write_flag: Option<u16>,
}

impl View for ChipDbEntry {
    type V = ChipDbEntryView;

    open spec fn view(&self) -> ChipDbEntryView {
        ChipDbEntryView {
            chip_type: self.chip_type,
            product_name: self.product_name@,
            vendor_name: self.vendor_name@,
            size: self.size,
            voltage: self.voltage,
            ee93_unk: self.ee93_unk,
            ee93_bits: self.ee93_bits,
            write_flag: self.write_flag,
        }
    }
}

/// The flags word of the read and write commands for a chip.
pub open spec fn chip_flags(t: ChipType, size: u32, ee93_unk: u8, ee93_bits: u8) -> u16 {
    match t {
        ChipType::Spi => 0x0300,
        ChipType::EE24 => if size > 0x800 {
            0x2400
        } else {
            0x1400
        },
        ChipType::EE25 => if size > 0x200 {
            0x1100
        } else {
            0x0100
        },
        ChipType::EE93 => ((ee93_unk * 0x10 + 0x08) * 0x100 + (if ee93_bits == 0x08 {
            0x03int
        } else {
            0x01int
        })) as u16,
    }
}

/// The inputs on which `flags` stays within a byte for the 93C high byte.
pub open spec fn flags_in_range(t: ChipType, ee93_unk: u8) -> bool {
    t == ChipType::EE93 ==> ee93_unk < 0x10
}

impl ChipDbEntry {
    /// The chip is programmed at 5 V.
    pub fn is5v(&self) -> (r: bool)
        ensures
            r == (self.voltage > 0x28),
    {
        self.voltage > 0x28
    }

    /// The flags word that the read and write commands carry for this chip.
    pub fn flags(&self) -> (r: u16)
        requires
            flags_in_range(self.chip_type, self.ee93_unk),
        ensures
            r == chip_flags(self.chip_type, self.size, self.ee93_unk, self.ee93_bits),
    {
        match self.chip_type {
            ChipType::Spi => 0x0300,
            ChipType::EE24 => {
                if self.size > 0x800 {
                    0x2400
                } else {
                    0x1400
                }
            },
            ChipType::EE25 => {
                if self.size > 0x200 {
                    0x1100
                } else {
                    0x0100
                }
            },
            ChipType::EE93 => {
                let unk = self.ee93_unk;
                let base: u8 = 0x10 * unk;
                let hi: u8 = base | 0x08;
                assert(hi == base + 0x08) by (bit_vector)
                    requires
                        base % 0x10 == 0,
                        hi == base | 0x08,
                ;
                let lo: u8 = if self.ee93_bits == 0x08 {
                    0x03
                } else {
                    0x01
                };
                let r: u16 = ((hi as u16) << 8) | (lo as u16);
                assert(r == hi * 0x100 + lo) by (bit_vector)
                    requires
                        r == ((hi as u16) << 8) | (lo as u16),
                        lo <= 3,
                ;
                r
            },
        }
    }
}

/// The chip family that the database numbers 0 to 3.
pub open spec fn chip_type_of(t: int) -> ChipType {
    if t == 0 {
        ChipType::Spi
    } else if t == 1 {
        ChipType::EE24
    } else if t == 2 {
        ChipType::EE25
    } else {
        ChipType::EE93
    }
}

/// The chip family that the database numbers `t`.
pub fn to_chiptype(t: u32) -> (r: ChipType)
    requires
        t <= 3,
    ensures
        r == chip_type_of(t as int),
{
    match t {
        0 => ChipType::Spi,
        1 => ChipType::EE24,
        2 => ChipType::EE25,
        _ => ChipType::EE93,
    }
}

/// The database numbers the chip families one below their protocol codes.
pub proof fn chip_type_numbering(t: int)
    requires
        0 <= t <= 3,
    ensures
        chip_code(chip_type_of(t)) == t + 1,
{
}

/// The text of a NUL-terminated field: the bytes before the first zero, as
/// UTF-8.
pub open spec fn field_text(b: Seq<u8>) -> Result<Seq<char>, EzpErrorView> {
    match first_zero(b, 0) {
        Some(k) => utf8_text(b.take(k)),
        None => Err(EzpErrorView::NoTerminator),
    }
}

/// Decodes a NUL-terminated text field.
pub fn parse_string(buf: &[u8]) -> (r: Result<String, EzpError>)
    ensures
        text_view(r) == field_text(buf@),
{
    match find_zero(buf, 0) {
        None => Err(EzpError::NoTerminator),
        Some(k) => {
            let bytes = copy_range(buf, 0, k);
            assert(bytes@ == buf@.take(k as int));
            decode_text(bytes)
        },
    }
}

/// The little-endian number in the four bytes at `off`.
pub open spec fn le_u32_at(s: Seq<u8>, off: int) -> int {
    s[off] + s[off + 1] * 0x100 + s[off + 2] * 0x1_0000 + s[off + 3] * 0x100_0000
}

/// The little-endian number in the two bytes at `off`.
pub open spec fn le_u16_at(s: Seq<u8>, off: int) -> int {
    s[off] + s[off + 1] * 0x100
}

fn read_u32_le(data: &[u8], off: usize) -> (r: u32)
    requires
        off + 4 <= data@.len(),
    ensures
        r == le_u32_at(data@, off as int),
{
    (data[off] as u32) + (data[off + 1] as u32) * 0x100 + (data[off + 2] as u32) * 0x1_0000 + (
    data[off + 3] as u32) * 0x100_0000
}

fn read_u16_le(data: &[u8], off: usize) -> (r: u16)
    requires
        off + 2 <= data@.len(),
    ensures
        r == le_u16_at(data@, off as int),
{
    (data[off] as u16) + (data[off + 1] as u16) * 0x100
}

/// Number of records in a database image of `len` bytes.
pub open spec fn entry_count(len: int) -> int {
    if len < ENTRIES_START {
        0
    } else {
        (len - ENTRIES_START) / (ENTRY_SIZE as int)
    }
}

/// Offset of record `index`.
pub open spec fn entry_offset(index: int) -> int {
    ENTRIES_START + index * ENTRY_SIZE
}

/// The number by which record `index` names its chip family.
pub open spec fn raw_chip_type(s: Seq<u8>, index: int) -> int {
    le_u32_at(s, entry_offset(index))
}

/// What record `index` of the image `s` holds, or why it cannot be read.
pub open spec fn entry_at(s: Seq<u8>, index: int) -> Result<ChipDbEntryView, EzpErrorView> {
    let e = entry_offset(index);
    match field_text(s.subrange(e + PRODUCT_NAME_AT, e + VENDOR_NAME_AT)) {
        Err(err) => Err(err),
        Ok(product_name) => match field_text(s.subrange(e + VENDOR_NAME_AT, e + VENDOR_NAME_END)) {
            Err(err) => Err(err),
            Ok(vendor_name) => Ok(
                ChipDbEntryView {
                    chip_type: chip_type_of(raw_chip_type(s, index)),
                    product_name,
                    vendor_name,
                    size: le_u32_at(s, e + SIZE_AT) as u32,
                    voltage: s[e + VOLTAGE_AT],
                    ee93_unk: s[e + EE93_UNK_AT],
                    ee93_bits: s[e + EE93_BITS_AT],
                    write_flag: if le_u32_at(s, e + WRITE_1_AT) == 0 {
                        None
                    } else {
                        Some(le_u16_at(s, e + WRITE_2_AT) as u16)
                    },
                },
            ),
        },
    }
}

/// A record result, viewed.
pub open spec fn entry_view(r: Result<ChipDbEntry, EzpError>) -> Result<ChipDbEntryView, EzpErrorView> {
    match r {
        Ok(e) => Ok(e@),
        Err(err) => Err(err@),
    }
}

proof fn lemma_entry_in_bounds(len: int, index: int)
    requires
        0 <= index < entry_count(len),
    ensures
        entry_offset(index) + ENTRY_SIZE <= len,
{
    let n = len - ENTRIES_START;
    assert(index < n / 108);
    assert((index + 1) * 108 <= n) by (nonlinear_arith)
        requires
            index < n / 108,
            n >= 0,
    ;
}

/// Decodes record `index` of the database image `data`.
pub fn get(data: &[u8], index: usize) -> (r: Result<ChipDbEntry, EzpError>)
    requires
        index < entry_count(data@.len() as int),
        raw_chip_type(data@, index as int) <= 3,
    ensures
        entry_view(r) == entry_at(data@, index as int),
{
    let len = data.len();
    proof {
        lemma_entry_in_bounds(data@.len() as int, index as int);
        assert(ENTRIES_START + index * ENTRY_SIZE + ENTRY_SIZE <= len);
    }
    let offset = ENTRIES_START + index * ENTRY_SIZE;
    let chip_type = to_chiptype(read_u32_le(data, offset));
    let size = read_u32_le(data, offset + SIZE_AT);
    let voltage = data[offset + VOLTAGE_AT];
    let product_name_bytes = copy_range(data, offset + PRODUCT_NAME_AT, offset + VENDOR_NAME_AT);
    let product_name = match parse_string(product_name_bytes.as_slice()) {
        Ok(s) => s,
        Err(e) => {
            return Err(e);
        },
    };
    let vendor_name_bytes = copy_range(data, offset + VENDOR_NAME_AT, offset + VENDOR_NAME_END);
    let vendor_name = match parse_string(vendor_name_bytes.as_slice()) {
        Ok(s) => s,
        Err(e) => {
            return Err(e);
        },
    };
    let write_flag = if read_u32_le(data, offset + WRITE_1_AT) == 0 {
        None
    } else {
        Some(read_u16_le(data, offset + WRITE_2_AT))
    };
    Ok(
        ChipDbEntry {
            chip_type,
            size,
            voltage,
            product_name,
            vendor_name,
            ee93_bits: data[offset + EE93_BITS_AT],
            ee93_unk: data[offset + EE93_UNK_AT],
            write_flag,
        },
    )
}

/// The number of records in a database image of `len` bytes.
pub fn count_entries(len: usize) -> (n: usize)
    ensures
        n == entry_count(len as int),
{
    if len < ENTRIES_START {
        0
    } else {
        (len - ENTRIES_START) / ENTRY_SIZE
    }
}

/// Every record of the image names a known chip family and has readable names.
pub open spec fn db_well_formed(s: Seq<u8>) -> bool {
    forall|i: int|
        0 <= i < entry_count(s.len() as int) ==> raw_chip_type(s, i) <= 3 && #[trigger] entry_at(
            s,
            i,
        ) is Ok
}

/// Whether every record of the image `data` can be decoded.
pub fn db_is_valid(data: &[u8]) -> (r: bool)
    ensures
        r == db_well_formed(data@),
{
    let count = count_entries(data.len());
    let mut n: usize = 0;
    while n < count
        invariant
            count == entry_count(data@.len() as int),
            n <= count,
            forall|i: int|
                0 <= i < n ==> raw_chip_type(data@, i) <= 3 && #[trigger] entry_at(data@, i) is Ok,
        decreases count - n,
    {
        let len = data.len();
        proof {
            lemma_entry_in_bounds(data@.len() as int, n as int);
            assert(ENTRIES_START + n * ENTRY_SIZE + ENTRY_SIZE <= len);
        }
        if read_u32_le(data, ENTRIES_START + n * ENTRY_SIZE) > 3 {
            assert(!(raw_chip_type(data@, n as int) <= 3 && entry_at(data@, n as int) is Ok));
            return false;
        }
        if get(data, n).is_err() {
            return false;
        }
        n = n + 1;
    }
    true
}

/// All records of the database image `data`, in order.
pub fn getall(data: &[u8]) -> (entries: Vec<ChipDbEntry>)
    requires
        db_well_formed(data@),
    ensures
        entries@.len() == entry_count(data@.len() as int),
        forall|i: int|
            0 <= i < entries@.len() ==> entry_at(data@, i) == Ok::<ChipDbEntryView, EzpErrorView>(
                #[trigger] entries@[i]@,
            ),
{
    let count = count_entries(data.len());
    let mut entries: Vec<ChipDbEntry> = Vec::new();
    let mut n: usize = 0;
    while n < count
        invariant
            count == entry_count(data@.len() as int),
            n <= count,
            db_well_formed(data@),
            entries@.len() == n,
            forall|i: int|
                0 <= i < n ==> entry_at(data@, i) == Ok::<ChipDbEntryView, EzpErrorView>(
                    #[trigger] entries@[i]@,
                ),
        decreases count - n,
    {
        assert(entry_at(data@, n as int) is Ok);
        if let Ok(e) = get(data, n) {
            entries.push(e);
        }
        n = n + 1;
    }
    entries
}

/// Record `i` of the image `s` decodes and its product name is `name`.
pub open spec fn names_product(s: Seq<u8>, i: int, name: Seq<char>) -> bool {
    entry_at(s, i) matches Ok(e) && e.product_name == name
}

/// Record `i` is the first record of the image `s` whose product name is `name`.
pub open spec fn is_first_named(s: Seq<u8>, name: Seq<char>, i: int) -> bool {
    &&& 0 <= i < entry_count(s.len() as int)
    &&& names_product(s, i, name)
    &&& forall|j: int| 0 <= j < i ==> !names_product(s, j, name)
}

/// The first record of the image `data` whose product name is `name`.
pub fn get_by_product_name(data: &[u8], name: &str) -> (r: Option<ChipDbEntry>)
    requires
        db_well_formed(data@),
    ensures
        match r {
            Some(e) => exists|i: int|
                #[trigger] is_first_named(data@, name@, i) && entry_at(data@, i) == Ok::<
                    ChipDbEntryView,
                    EzpErrorView,
                >(e@),
            None => forall|i: int|
                0 <= i < entry_count(data@.len() as int) ==> !#[trigger] names_product(
                    data@,
                    i,
                    name@,
                ),
        },
{
    let mut entries = getall(data);
    let target = name.to_owned();
    let mut i: usize = 0;
    while i < entries.len()
        invariant
            entries@.len() == entry_count(data@.len() as int),
            target@ == name@,
            forall|k: int|
                0 <= k < entries@.len() ==> entry_at(data@, k) == Ok::<ChipDbEntryView, EzpErrorView>(
                    #[trigger] entries@[k]@,
                ),
            forall|j: int| 0 <= j < i ==> !#[trigger] names_product(data@, j, name@),
        decreases entries@.len() - i,
    {
        assert(entry_at(data@, i as int) == Ok::<ChipDbEntryView, EzpErrorView>(entries@[i as int]@));
        if entries[i].product_name == target {
            assert(is_first_named(data@, name@, i as int));
            let e = entries.remove(i);
            return Some(e);
        }
        i = i + 1;
    }
    None
}

proof fn lemma_first_named_below(s: Seq<u8>, name: Seq<char>, i: int)
    requires
        0 <= i < entry_count(s.len() as int),
        names_product(s, i, name),
    ensures
        exists|k: int| 0 <= k <= i && #[trigger] is_first_named(s, name, k),
    decreases i,
{
    if exists|j: int| 0 <= j < i && #[trigger] names_product(s, j, name) {
        let j = choose|j: int| 0 <= j < i && #[trigger] names_product(s, j, name);
        lemma_first_named_below(s, name, j);
    } else {
        assert(is_first_named(s, name, i));
    }
}

/// Every product name that some record of the database carries can be looked
/// up: there is a first record that carries it, and it is unique.
pub proof fn listed_names_are_found(s: Seq<u8>, name: Seq<char>, i: int)
    requires
        0 <= i < entry_count(s.len() as int),
        names_product(s, i, name),
    ensures
        exists|k: int| 0 <= k <= i && #[trigger] is_first_named(s, name, k),
        forall|a: int, b: int|
            is_first_named(s, name, a) && is_first_named(s, name, b) ==> a == b,
{
    lemma_first_named_below(s, name, i);
    assert forall|a: int, b: int|
        is_first_named(s, name, a) && is_first_named(s, name, b) implies a == b by {
        if a < b {
            assert(!names_product(s, a, name));
        } else if b < a {
            assert(!names_product(s, b, name));
        }
    }
}

/// The flags word per chip family, for every size: 0x0300 for SPI flash;
/// for 24-series EEPROM 0x2400 above 0x800 bytes and 0x1400 up to it; for
/// 25-series EEPROM 0x1100 above 0x200 bytes and 0x0100 up to it; for
/// 93-series EEPROM (code byte below 16) a high byte of 16 times the code byte
/// plus 8 and a low byte of 3 for 8-bit organisation, else 1.
pub proof fn flags_by_family(size: u32, ee93_unk: u8, ee93_bits: u8)
    ensures
        chip_flags(ChipType::Spi, size, ee93_unk, ee93_bits) == 0x0300,
        size > 0x800 ==> chip_flags(ChipType::EE24, size, ee93_unk, ee93_bits) == 0x2400,
        size <= 0x800 ==> chip_flags(ChipType::EE24, size, ee93_unk, ee93_bits) == 0x1400,
        size > 0x200 ==> chip_flags(ChipType::EE25, size, ee93_unk, ee93_bits) == 0x1100,
        size <= 0x200 ==> chip_flags(ChipType::EE25, size, ee93_unk, ee93_bits) == 0x0100,
        ee93_unk < 0x10 ==> chip_flags(ChipType::EE93, size, ee93_unk, ee93_bits) / 0x100
            == ee93_unk * 0x10 + 0x08,
        (ee93_unk < 0x10 && ee93_bits == 0x08) ==> chip_flags(
            ChipType::EE93,
            size,
            ee93_unk,
            ee93_bits,
        ) % 0x100 == 0x03,
        (ee93_unk < 0x10 && ee93_bits != 0x08) ==> chip_flags(
            ChipType::EE93,
            size,
            ee93_unk,
            ee93_bits,
        ) % 0x100 == 0x01,
        flags_in_range(ChipType::Spi, ee93_unk),
        flags_in_range(ChipType::EE24, ee93_unk),
        flags_in_range(ChipType::EE25, ee93_unk),
        flags_in_range(ChipType::EE93, ee93_unk) <==> ee93_unk < 0x10,
{
}

/// The database numbers SPI flash 0, 24-series 1, 25-series 2 and 93-series 3.
pub proof fn chip_type_numbers()
    ensures
        chip_type_of(0) == ChipType::Spi,
        chip_type_of(1) == ChipType::EE24,
        chip_type_of(2) == ChipType::EE25,
        chip_type_of(3) == ChipType::EE93,
{
}

/// Records start at byte 100 and follow each other every 108 bytes; an image
/// of `len` bytes holds as many whole records as fit after byte 100, and the
/// programmer's 81100-byte image holds 750.
pub proof fn record_layout(len: int, i: int)
    ensures
        entry_offset(i) == 100 + 108 * i,
        DATA_SIZE == 81100,
        ENTRY_COUNT == 750,
        entry_count(DATA_SIZE as int) == ENTRY_COUNT,
        len < 100 ==> entry_count(len) == 0,
        len >= 100 ==> entry_count(len) == (len - 100) / 108,
        0 <= i < entry_count(len) ==> 100 + 108 * (i + 1) <= len,
{
    if 0 <= i < entry_count(len) {
        lemma_entry_in_bounds(len, i);
    }
}

/// A decoded record takes its fields from fixed places of the record at
/// `o = 100 + 108 i`: the chip family from the little-endian number at `o`
/// (SPI 0, 24-series 1, 25-series 2, 93-series 3), the voltage from byte
/// `o + 65`, the size from the full little-endian 32-bit number at `o + 68`,
/// the 93C bytes from `o + 80` and `o + 81`, and the write flag from the
/// little-endian 16-bit number at `o + 76`, present exactly when the 32-bit
/// number at `o + 72` is not zero.
pub proof fn record_fields_law(s: Seq<u8>, i: int)
    requires
        0 <= i,
        100 + 108 * (i + 1) <= s.len(),
        entry_at(s, i) is Ok,
    ensures
        ({
            let o = 100 + 108 * i;
            let e = entry_at(s, i)->Ok_0;
            &&& e.size == s[o + 68] + s[o + 69] * 0x100 + s[o + 70] * 0x1_0000 + s[o + 71]
                * 0x100_0000
            &&& e.voltage == s[o + 65]
            &&& e.ee93_unk == s[o + 80]
            &&& e.ee93_bits == s[o + 81]
            &&& (s[o + 1] == 0 && s[o + 2] == 0 && s[o + 3] == 0 && s[o] <= 3) ==> chip_code(
                e.chip_type,
            ) == s[o] + 1
            &&& (s[o + 72] == 0 && s[o + 73] == 0 && s[o + 74] == 0 && s[o + 75] == 0)
                ==> e.write_flag is None
            &&& !(s[o + 72] == 0 && s[o + 73] == 0 && s[o + 74] == 0 && s[o + 75] == 0)
                ==> e.write_flag == Some((s[o + 76] + s[o + 77] * 0x100) as u16)
        }),
{
    chip_codes();
}

/// A record's names are the NUL-terminated texts in its 40-byte product field
/// at `o + 4` and its 20-byte vendor field at `o + 44`: with `kp` and `kv` the
/// places of their first zeros, the record decodes exactly when both texts are
/// UTF-8, to the decoded bytes before the zeros; otherwise the product name's
/// error comes first.
pub proof fn record_names_law(s: Seq<u8>, i: int, kp: int, kv: int)
    requires
        0 <= i,
        100 + 108 * (i + 1) <= s.len(),
        0 <= kp < 40,
        0 <= kv < 20,
        s[100 + 108 * i + 4 + kp] == 0,
        s[100 + 108 * i + 44 + kv] == 0,
        forall|j: int| 100 + 108 * i + 4 <= j < 100 + 108 * i + 4 + kp ==> s[j] != 0,
        forall|j: int| 100 + 108 * i + 44 <= j < 100 + 108 * i + 44 + kv ==> s[j] != 0,
    ensures
        ({
            let o = 100 + 108 * i;
            let p = s.subrange(o + 4, o + 4 + kp);
            let v = s.subrange(o + 44, o + 44 + kv);
            &&& (valid_utf8(p) && valid_utf8(v)) ==> (entry_at(s, i) is Ok && entry_at(
                s,
                i,
            )->Ok_0.product_name == decode_utf8(p) && entry_at(s, i)->Ok_0.vendor_name
                == decode_utf8(v))
            &&& !valid_utf8(p) ==> entry_at(s, i) == Err::<ChipDbEntryView, EzpErrorView>(
                EzpErrorView::InvalidUtf8(utf8_error_message(p)),
            )
            &&& (valid_utf8(p) && !valid_utf8(v)) ==> entry_at(s, i) == Err::<
                ChipDbEntryView,
                EzpErrorView,
            >(EzpErrorView::InvalidUtf8(utf8_error_message(v)))
        }),
{
    let o = 100 + 108 * i;
    let pf = s.subrange(o + 4, o + 44);
    let vf = s.subrange(o + 44, o + 64);
    assert forall|j: int| 0 <= j < kp implies pf[j] != 0 by {
        assert(pf[j] == s[o + 4 + j]);
    }
    assert forall|j: int| 0 <= j < kv implies vf[j] != 0 by {
        assert(vf[j] == s[o + 44 + j]);
    }
    assert(pf[kp] == s[o + 4 + kp]);
    assert(vf[kv] == s[o + 44 + kv]);
    first_zero_law(pf, 0, kp);
    first_zero_law(vf, 0, kv);
    assert(pf.take(kp) =~= s.subrange(o + 4, o + 4 + kp));
    assert(vf.take(kv) =~= s.subrange(o + 44, o + 44 + kv));
    text_decoding_law(pf.take(kp), arbitrary(), arbitrary());
    text_decoding_law(vf.take(kv), arbitrary(), arbitrary());
}

/// A record whose product field holds no zero byte fails with
/// `NoTerminator`, and so does one with a readable product name whose vendor
/// field holds no zero byte.
pub proof fn record_terminator_law(s: Seq<u8>, i: int)
    requires
        0 <= i,
        100 + 108 * (i + 1) <= s.len(),
    ensures
        ({
            let o = 100 + 108 * i;
            &&& (forall|j: int| o + 4 <= j < o + 44 ==> s[j] != 0) ==> entry_at(s, i) == Err::<
                ChipDbEntryView,
                EzpErrorView,
            >(EzpErrorView::NoTerminator)
            &&& (field_text(s.subrange(o + 4, o + 44)) is Ok && forall|j: int|
                o + 44 <= j < o + 64 ==> s[j] != 0) ==> entry_at(s, i) == Err::<
                ChipDbEntryView,
                EzpErrorView,
            >(EzpErrorView::NoTerminator)
        }),
{
    let o = 100 + 108 * i;
    let pf = s.subrange(o + 4, o + 44);
    let vf = s.subrange(o + 44, o + 64);
    if forall|j: int| o + 4 <= j < o + 44 ==> s[j] != 0 {
        assert forall|j: int| 0 <= j < pf.len() implies pf[j] != 0 by {
            assert(pf[j] == s[o + 4 + j]);
        }
        first_zero_law(pf, 0, 0);
    }
    if forall|j: int| o + 44 <= j < o + 64 ==> s[j] != 0 {
        assert forall|j: int| 0 <= j < vf.len() implies vf[j] != 0 by {
            assert(vf[j] == s[o + 44 + j]);
        }
        first_zero_law(vf, 0, 0);
    }
}

/// A NUL-terminated field decodes to the UTF-8 text before its first zero
/// `k`, or to `InvalidUtf8` with std's message; without a zero it is
/// `NoTerminator`.
pub proof fn field_text_law(b: Seq<u8>, k: int)
    ensures
        (0 <= k < b.len() && b[k] == 0 && (forall|j: int| 0 <= j < k ==> b[j] != 0) && valid_utf8(
            b.take(k),
        )) ==> field_text(b) == Ok::<Seq<char>, EzpErrorView>(decode_utf8(b.take(k))),
        (0 <= k < b.len() && b[k] == 0 && (forall|j: int| 0 <= j < k ==> b[j] != 0)
            && !valid_utf8(b.take(k))) ==> field_text(b) == Err::<Seq<char>, EzpErrorView>(
            EzpErrorView::InvalidUtf8(utf8_error_message(b.take(k))),
        ),
        (forall|j: int| 0 <= j < b.len() ==> b[j] != 0) ==> field_text(b) == Err::<
            Seq<char>,
            EzpErrorView,
        >(EzpErrorView::NoTerminator),
{
    first_zero_law(b, 0, k);
    text_decoding_law(b.take(k), arbitrary(), arbitrary());
}

/// A record's view keeps each of its fields, and a record result's view keeps
/// the record or the error.
pub proof fn entry_view_law(e: ChipDbEntry, err: EzpError)
    ensures
        e@.chip_type == e.chip_type,
        e@.product_name == e.product_name@,
        e@.vendor_name == e.vendor_name@,
        e@.size == e.size,
        e@.voltage == e.voltage,
        e@.ee93_unk == e.ee93_unk,
        e@.ee93_bits == e.ee93_bits,
        e@.write_flag == e.write_flag,
        entry_view(Ok::<ChipDbEntry, EzpError>(e)) == Ok::<ChipDbEntryView, EzpErrorView>(e@),
        entry_view(Err::<ChipDbEntry, EzpError>(err)) == Err::<ChipDbEntryView, EzpErrorView>(
            err@,
        ),
{
}

/// An image is well formed exactly when each of its records names a chip
/// family numbered 0 to 3 and decodes; a record carries a name exactly when
/// it decodes with that product name; and the first record carrying a name is
/// the one before which no record carries it.
pub proof fn lookup_terms_law(s: Seq<u8>, name: Seq<char>, i: int)
    ensures
        db_well_formed(s) <==> (forall|k: int|
            0 <= k < entry_count(s.len() as int) ==> raw_chip_type(s, k) <= 3 && entry_at(
                s,
                k,
            ) is Ok),
        raw_chip_type(s, i) == s[entry_offset(i)] + s[entry_offset(i) + 1] * 0x100 + s[entry_offset(
            i,
        ) + 2] * 0x1_0000 + s[entry_offset(i) + 3] * 0x100_0000,
        names_product(s, i, name) <==> (entry_at(s, i) is Ok && entry_at(s, i)->Ok_0.product_name
            == name),
        is_first_named(s, name, i) <==> (0 <= i < entry_count(s.len() as int) && names_product(
            s,
            i,
            name,
        ) && forall|j: int| 0 <= j < i ==> !names_product(s, j, name)),
{
}

} // verus!
