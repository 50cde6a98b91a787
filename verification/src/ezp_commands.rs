use vstd::prelude::*;
use byteorder::{NetworkEndian, WriteBytesExt};
use crate::error::{EzpError, EzpErrorView};
use crate::ezp_common::{chip_code, ChipType};
use crate::text::{
    copy_range, decode_text, find_zero, first_zero, first_zero_law, is_first_zero, text_decoding_law,
    text_view, utf8_error_message, utf8_text,
};
use vstd::utf8::{decode_utf8, valid_utf8};

verus! {

/// The four bytes of `n` in network (big-endian) order.
pub open spec fn be_u32(n: u32) -> Seq<u8> {
    seq![
        (n / 0x100_0000) as u8,
        ((n / 0x1_0000) % 0x100) as u8,
        ((n / 0x100) % 0x100) as u8,
        (n % 0x100) as u8,
    ]
}

/// The two bytes of `n` in network (big-endian) order.
pub open spec fn be_u16(n: u16) -> Seq<u8> {
    seq![(n / 0x100) as u8, (n % 0x100) as u8]
}

/// The number that a sequence of bytes spells in network (big-endian) order.
pub open spec fn be_value(s: Seq<u8>) -> int
    decreases s.len(),
{
    if s.len() == 0 {
        0
    } else {
        be_value(s.drop_last()) * 0x100 + s.last()
    }
}

/// The voltage byte of a read or write command.
pub open spec fn voltage_byte(is5v: bool) -> u8 {
    if is5v {
        0x01
    } else {
        0x00
    }
}

/// The bytes of the command that reads a chip.
pub open spec fn read_cmd(t: ChipType, size: u32, flags: u16, is5v: bool) -> Seq<u8> {
    seq![0x11u8, 0x0au8, chip_code(t), 0u8, 0u8, 0u8, 0u8] + be_u32(size) + be_u16(flags) + seq![
        voltage_byte(is5v),
        0u8,
    ]
}

/// The write flags that a write command carries: those given, else 1.
pub open spec fn effective_write_flags(write_flags: Option<u16>) -> u16 {
    match write_flags {
        Some(w) => w,
        None => 0x01,
    }
}

/// The bytes of the command that writes a chip.
pub open spec fn write_cmd(
    t: ChipType,
    size: u32,
    flags: u16,
    write_flags: Option<u16>,
    is5v: bool,
) -> Seq<u8> {
    seq![0x12u8, 0x0cu8, chip_code(t), 0u8, 0u8, 0u8, 0u8] + be_u32(size) + be_u16(
        effective_write_flags(write_flags),
    ) + be_u16(flags) + seq![voltage_byte(is5v), 0u8]
}

/// Calls byteorder's `WriteBytesExt::write_u32` with `NetworkEndian` on a
/// vector: it appends the four big-endian bytes of `n` (writing into a `Vec`
/// never fails).
#[verifier::external_body]
fn push_u32_be(data: &mut Vec<u8>, n: u32)
    ensures
        final(data)@ == old(data)@ + be_u32(n),
{
    data.write_u32::<NetworkEndian>(n).unwrap();
}

/// Calls byteorder's `WriteBytesExt::write_u16` with `NetworkEndian` on a
/// vector: it appends the two big-endian bytes of `n` (writing into a `Vec`
/// never fails).
#[verifier::external_body]
fn push_u16_be(data: &mut Vec<u8>, n: u16)
    ensures
        final(data)@ == old(data)@ + be_u16(n),
{
    data.write_u16::<NetworkEndian>(n).unwrap();
}

/// The command that reads `size` bytes from a chip of type `chip_type`.
pub fn create_read_cmd(chip_type: &ChipType, size: u32, flags: u16, is5v: bool) -> (data: Vec<u8>)
    ensures
        data@ == read_cmd(*chip_type, size, flags, is5v),
{
    let mut data = vec![0x11u8, 0x0a, chip_type.chip_to_u8(), 0x00, 0x00, 0x00, 0x00];
    push_u32_be(&mut data, size);
    push_u16_be(&mut data, flags);
    data.push(if is5v { 0x01 } else { 0x00 });
    data.push(0x00);
    data
}

/// The command that writes `size` bytes to a chip of type `chip_type`;
/// `write_flags` defaults to 1.
pub fn create_write_cmd(
    chip_type: &ChipType,
    size: u32,
    flags: u16,
    write_flags: Option<u16>,
    is5v: bool,
) -> (data: Vec<u8>)
    ensures
        data@ == write_cmd(*chip_type, size, flags, write_flags, is5v),
{
    let mut data = vec![0x12u8, 0x0c, chip_type.chip_to_u8(), 0x00, 0x00, 0x00, 0x00];
    push_u32_be(
        &mut data,
        size,
    );
    let w: u16 = match write_flags {
        Some(w) => w,
        None => 0x01,
    };
    push_u16_be(&mut data, w);
    push_u16_be(&mut data, flags);
    data.push(if is5v { 0x01 } else { 0x00 });
    data.push(0x00);
    data
}

/// The command that asks which chip of type `chip_type` is attached.
pub fn create_detect_cmd(chip_type: &ChipType) -> (data: Vec<u8>)
    ensures
        data@ == seq![0x15u8, 0x00u8, chip_code(*chip_type)],
{
    vec![0x15, 0x00, chip_type.chip_to_u8()]
}

/// The command that asks for the programmer's firmware version.
pub fn create_version_cmd() -> (data: Vec<u8>)
    ensures
        data@ == seq![0x17u8, 0x00u8],
{
    vec![0x17, 0x00]
}

/// The command that asks for the programmer's serial number.
pub fn create_serial_cmd() -> (data: Vec<u8>)
    ensures
        data@ == seq![0x18u8, 0x00u8],
{
    vec![0x18, 0x00]
}

/// The command that runs the programmer's self test.
pub fn create_self_test_cmd() -> (data: Vec<u8>)
    ensures
        data@ == seq![0xf3u8, 0x00u8],
{
    vec![0xf3, 0x00]
}

/// The response starts with the bytes `a`, `b`.
pub open spec fn has_header(s: Seq<u8>, a: u8, b: u8) -> bool {
    s.len() >= 2 && s[0] == a && s[1] == b
}

/// The responses that `process_version` accepts without going out of bounds:
/// at least two bytes, and, behind the version header, a terminator whose
/// position counted from byte 2 is at least 2.
pub open spec fn version_response_in_bounds(s: Seq<u8>) -> bool {
    &&& s.len() >= 2
    &&& has_header(s, 0x17, 0x1e) ==> (first_zero(s, 2) matches Some(q) && q >= 4)
}

/// Whether `process_version` may be called on `data`.
pub fn version_in_bounds(data: &Vec<u8>) -> (r: bool)
    ensures
        r == version_response_in_bounds(data@),
{
    if data.len() < 2 {
        return false;
    }
    if !(data[0] == 0x17 && data[1] == 0x1e) {
        return true;
    }
    match find_zero(data.as_slice(), 2) {
        Some(q) => q >= 4,
        None => false,
    }
}

/// The text bytes of a version response: from byte 2 up to the index equal
/// to the terminator's position counted from byte 2.
pub open spec fn version_text_bytes(s: Seq<u8>) -> Seq<u8> {
    s.subrange(2, first_zero(s, 2).unwrap() - 2)
}

/// What `process_version` gives for a response.
pub open spec fn version_of(s: Seq<u8>) -> Result<Seq<char>, EzpErrorView> {
    if has_header(s, 0x17, 0x1e) {
        utf8_text(version_text_bytes(s))
    } else {
        Err(EzpErrorView::UnexpectedResponse)
    }
}

/// Decodes the programmer's answer to the version command.
pub fn process_version(data: &Vec<u8>) -> (r: Result<String, EzpError>)
    requires
        version_response_in_bounds(data@),
    ensures
        text_view(r) == version_of(data@),
{
    if !(data[0] == 0x17 && data[1] == 0x1e) {
        return Err(EzpError::UnexpectedResponse);
    }
    let end = match find_zero(data.as_slice(), 2) {
        Some(q) => q - 2,
        None => 0,
    };
    let bytes = copy_range(data.as_slice(), 2, end);
    decode_text(bytes)
}

/// The responses that `process_serial` accepts without going out of bounds.
pub open spec fn serial_response_in_bounds(s: Seq<u8>) -> bool {
    &&& s.len() >= 2
    &&& has_header(s, 0x18, 0x10) ==> s.len() >= 16
}

/// What `process_serial` gives for a response: the 14 bytes after the
/// header, as text.
pub open spec fn serial_of(s: Seq<u8>) -> Result<Seq<char>, EzpErrorView> {
    if has_header(s, 0x18, 0x10) {
        utf8_text(s.subrange(2, 16))
    } else {
        Err(EzpErrorView::UnexpectedResponse)
    }
}

/// Decodes the programmer's answer to the serial number command.
pub fn process_serial(data: &Vec<u8>) -> (r: Result<String, EzpError>)
    requires
        serial_response_in_bounds(data@),
    ensures
        text_view(r) == serial_of(data@),
{
    if !(data[0] == 0x18 && data[1] == 0x10) {
        return Err(EzpError::UnexpectedResponse);
    }
    let bytes = copy_range(data.as_slice(), 2, 16);
    decode_text(bytes)
}

proof fn lemma_be_u16_value(n: u16)
    ensures
        be_value(be_u16(n)) == n,
{
    let s = be_u16(n);
    assert(s.drop_last().drop_last() =~= Seq::<u8>::empty());
    assert(be_value(s.drop_last().drop_last()) == 0);
    assert(be_value(s.drop_last()) == s[0]);
    assert(be_value(s) == s[0] * 0x100 + s[1]);
    assert((n / 0x100) * 0x100 + n % 0x100 == n) by (nonlinear_arith);
}

proof fn lemma_be_u32_value(n: u32)
    ensures
        be_value(be_u32(n)) == n,
{
    let s = be_u32(n);
    let s1 = s.drop_last();
    let s2 = s1.drop_last();
    let s3 = s2.drop_last();
    assert(s3.drop_last() =~= Seq::<u8>::empty());
    assert(be_value(s3.drop_last()) == 0);
    assert(be_value(s3) == s[0]);
    assert(be_value(s2) == s[0] * 0x100 + s[1]);
    assert(be_value(s1) == (s[0] * 0x100 + s[1]) * 0x100 + s[2]);
    assert(be_value(s) == ((s[0] * 0x100 + s[1]) * 0x100 + s[2]) * 0x100 + s[3]);
    assert(((n / 0x100_0000) * 0x100 + (n / 0x1_0000) % 0x100) * 0x100 + (n / 0x100) % 0x100
        == n / 0x100) by (nonlinear_arith);
    assert((n / 0x100) * 0x100 + n % 0x100 == n) by (nonlinear_arith);
}

proof fn lemma_be_u16_bytes(n: u16)
    ensures
        be_u16(n)[0] * 0x100 + be_u16(n)[1] == n,
{
    assert((n / 0x100) * 0x100 + n % 0x100 == n) by (nonlinear_arith);
}

proof fn lemma_be_u32_bytes(n: u32)
    ensures
        be_u32(n)[0] * 0x100_0000 + be_u32(n)[1] * 0x1_0000 + be_u32(n)[2] * 0x100 + be_u32(n)[3]
            == n,
{
    assert(((n / 0x100_0000) * 0x100 + (n / 0x1_0000) % 0x100) * 0x100 + (n / 0x100) % 0x100
        == n / 0x100) by (nonlinear_arith);
    assert((n / 0x100) * 0x100 + n % 0x100 == n) by (nonlinear_arith);
}

/// A read command is 15 bytes long; its fields give back the arguments it was
/// made from: it opens with the opcode bytes 0x11 0x0a, then the chip code at
/// byte 2 and four zero bytes; the size in network order at bytes 7..11, the
/// flags in network order at bytes 11..13, the voltage byte (1 for 5 V, else
/// 0) at 13 and a closing zero byte.
pub proof fn read_cmd_decodes(t: ChipType, size: u32, flags: u16, is5v: bool)
    ensures
        read_cmd(t, size, flags, is5v).len() == 15,
        read_cmd(t, size, flags, is5v)[2] == chip_code(t),
        be_value(read_cmd(t, size, flags, is5v).subrange(7, 11)) == size,
        be_value(read_cmd(t, size, flags, is5v).subrange(11, 13)) == flags,
        read_cmd(t, size, flags, is5v)[13] == voltage_byte(is5v),
        ({
            let c = read_cmd(t, size, flags, is5v);
            &&& c[0] == 0x11 && c[1] == 0x0a
            &&& c[3] == 0 && c[4] == 0 && c[5] == 0 && c[6] == 0
            &&& c[7] * 0x100_0000 + c[8] * 0x1_0000 + c[9] * 0x100 + c[10] == size
            &&& c[11] * 0x100 + c[12] == flags
            &&& c[13] == (if is5v { 1u8 } else { 0u8 })
            &&& c[14] == 0
        }),
{
    let c = read_cmd(t, size, flags, is5v);
    lemma_be_u32_bytes(size);
    lemma_be_u16_bytes(flags);
    assert(c.subrange(7, 11) =~= be_u32(size));
    assert(c.subrange(11, 13) =~= be_u16(flags));
    lemma_be_u32_value(size);
    lemma_be_u16_value(flags);
}

/// A write command is 17 bytes long; its fields give back the arguments it
/// was made from: it opens with the opcode bytes 0x12 0x0c, then the chip
/// code at byte 2 and four zero bytes, the size at bytes 7..11, the write
/// flags (1 when none were given) at bytes 11..13, the flags at bytes 13..15,
/// all in network order, the voltage byte (1 for 5 V, else 0) at 15 and a
/// closing zero byte.
pub proof fn write_cmd_decodes(
    t: ChipType,
    size: u32,
    flags: u16,
    write_flags: Option<u16>,
    is5v: bool,
)
    ensures
        write_cmd(t, size, flags, write_flags, is5v).len() == 17,
        write_cmd(t, size, flags, write_flags, is5v)[2] == chip_code(t),
        be_value(write_cmd(t, size, flags, write_flags, is5v).subrange(7, 11)) == size,
        be_value(write_cmd(t, size, flags, write_flags, is5v).subrange(11, 13))
            == effective_write_flags(write_flags),
        be_value(write_cmd(t, size, flags, write_flags, is5v).subrange(13, 15)) == flags,
        write_cmd(t, size, flags, write_flags, is5v)[15] == voltage_byte(is5v),
        ({
            let c = write_cmd(t, size, flags, write_flags, is5v);
            &&& c[0] == 0x12 && c[1] == 0x0c
            &&& c[3] == 0 && c[4] == 0 && c[5] == 0 && c[6] == 0
            &&& c[7] * 0x100_0000 + c[8] * 0x1_0000 + c[9] * 0x100 + c[10] == size
            &&& c[11] * 0x100 + c[12] == (match write_flags {
                Some(w) => w,
                None => 1u16,
            })
            &&& c[13] * 0x100 + c[14] == flags
            &&& c[15] == (if is5v { 1u8 } else { 0u8 })
            &&& c[16] == 0
        }),
{
    let c = write_cmd(t, size, flags, write_flags, is5v);
    lemma_be_u32_bytes(size);
    lemma_be_u16_bytes(flags);
    lemma_be_u16_bytes(effective_write_flags(write_flags));
    assert(c.subrange(7, 11) =~= be_u32(size));
    assert(c.subrange(11, 13) =~= be_u16(effective_write_flags(write_flags)));
    assert(c.subrange(13, 15) =~= be_u16(flags));
    lemma_be_u32_value(size);
    lemma_be_u16_value(effective_write_flags(write_flags));
    lemma_be_u16_value(flags);
}

/// A write command made without write flags is the one made with write flags 1.
pub proof fn write_cmd_default_write_flags(t: ChipType, size: u32, flags: u16, is5v: bool)
    ensures
        write_cmd(t, size, flags, None, is5v) == write_cmd(t, size, flags, Some(0x01u16), is5v),
{
}

/// Read and write commands for the same chip, size and flags agree on the chip
/// code, the size field and the voltage byte, and differ in their opcode.
pub proof fn read_and_write_cmd_agree(
    t: ChipType,
    size: u32,
    flags: u16,
    write_flags: Option<u16>,
    is5v: bool,
)
    ensures
        read_cmd(t, size, flags, is5v).subrange(2, 11) == write_cmd(
            t,
            size,
            flags,
            write_flags,
            is5v,
        ).subrange(2, 11),
        read_cmd(t, size, flags, is5v)[13] == write_cmd(t, size, flags, write_flags, is5v)[15],
        read_cmd(t, size, flags, is5v)[0] != write_cmd(t, size, flags, write_flags, is5v)[0],
{
    let r = read_cmd(t, size, flags, is5v);
    let w = write_cmd(t, size, flags, write_flags, is5v);
    assert(r.subrange(2, 11) =~= w.subrange(2, 11));
}

/// A response with the version header whose first zero at or after byte 2
/// sits at index `q >= 4` is accepted, and its text is the UTF-8 decoding of
/// the bytes from index 2 up to index `q - 2`, however long; when those bytes
/// are not UTF-8 the answer is `InvalidUtf8` with std's message.
pub proof fn version_text_law(s: Seq<u8>, q: int)
    requires
        s.len() >= 2,
        s[0] == 0x17,
        s[1] == 0x1e,
        4 <= q < s.len(),
        s[q] == 0,
        forall|j: int| 2 <= j < q ==> s[j] != 0,
    ensures
        version_response_in_bounds(s),
        valid_utf8(s.subrange(2, q - 2)) ==> version_of(s) == Ok::<Seq<char>, EzpErrorView>(
            decode_utf8(s.subrange(2, q - 2)),
        ),
        !valid_utf8(s.subrange(2, q - 2)) ==> version_of(s) == Err::<Seq<char>, EzpErrorView>(
            EzpErrorView::InvalidUtf8(utf8_error_message(s.subrange(2, q - 2))),
        ),
{
    first_zero_law(s, 2, q);
    text_decoding_law(s.subrange(2, q - 2), arbitrary(), arbitrary());
}

/// A response with the version header is accepted only when it has a zero at
/// or after byte 2 whose index is at least 4, with no zero before it from byte 2.
pub proof fn version_bounds_law(s: Seq<u8>)
    requires
        s.len() >= 2,
        s[0] == 0x17,
        s[1] == 0x1e,
        version_response_in_bounds(s),
    ensures
        exists|q: int|
            4 <= q < s.len() && s[q] == 0 && (forall|j: int| 2 <= j < q ==> s[j] != 0),
{
    let q = first_zero(s, 2).unwrap();
    assert(is_first_zero(s, 2, choose|p: int| is_first_zero(s, 2, p)));
    assert(4 <= q < s.len() && s[q] == 0 && (forall|j: int| 2 <= j < q ==> s[j] != 0));
}

/// Any response of two or more bytes that does not start with 0x17 0x1e is
/// rejected as an unexpected response.
pub proof fn version_rejects_other_headers(s: Seq<u8>)
    requires
        s.len() >= 2,
        !(s[0] == 0x17 && s[1] == 0x1e),
    ensures
        version_response_in_bounds(s),
        version_of(s) == Err::<Seq<char>, EzpErrorView>(EzpErrorView::UnexpectedResponse),
{
}

/// A response of at least 16 bytes with the serial header gives the UTF-8
/// decoding of its bytes 2..16; when those are not UTF-8 the answer is
/// `InvalidUtf8` with std's message. Any other header is rejected.
pub proof fn serial_text_law(s: Seq<u8>)
    requires
        s.len() >= 2,
    ensures
        !(s[0] == 0x18 && s[1] == 0x10) ==> serial_response_in_bounds(s) && serial_of(s)
            == Err::<Seq<char>, EzpErrorView>(EzpErrorView::UnexpectedResponse),
        (s[0] == 0x18 && s[1] == 0x10 && s.len() >= 16) ==> serial_response_in_bounds(s),
        (s[0] == 0x18 && s[1] == 0x10 && valid_utf8(s.subrange(2, 16))) ==> serial_of(s)
            == Ok::<Seq<char>, EzpErrorView>(decode_utf8(s.subrange(2, 16))),
        (s[0] == 0x18 && s[1] == 0x10 && !valid_utf8(s.subrange(2, 16))) ==> serial_of(s)
            == Err::<Seq<char>, EzpErrorView>(
            EzpErrorView::InvalidUtf8(utf8_error_message(s.subrange(2, 16))),
        ),
{
    text_decoding_law(s.subrange(2, 16), arbitrary(), arbitrary());
}

} // verus!
