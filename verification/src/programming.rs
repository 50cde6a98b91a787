use vstd::prelude::*;
use crate::db::{chip_flags, flags_in_range, ChipDbEntry};
use crate::error::EzpError;
use crate::ezp_commands::{create_read_cmd, read_cmd};
use crate::text::{copy_range, decode_text, text_view, utf8_text};

verus! {

/// Size of the buffer into which a chip's contents are read, chunk by chunk.
pub const READ_CHUNK: usize = 4096;

/// The lowercase hexadecimal digit of `d` (0 to 15).
pub open spec fn hex_digit(d: int) -> char {
    if d < 10 {
        (0x30 + d) as char
    } else {
        (0x57 + d) as char
    }
}

/// Each byte as two lowercase hexadecimal digits, high nibble first.
pub open spec fn hex_lower(s: Seq<u8>) -> Seq<char>
    decreases s.len(),
{
    if s.len() == 0 {
        Seq::empty()
    } else {
        seq![hex_digit((s[0] / 0x10) as int), hex_digit((s[0] % 0x10) as int)] + hex_lower(s.drop_first())
    }
}

/// The hexadecimal text of a sequence of bytes has two digits per byte.
pub proof fn hex_lower_len(s: Seq<u8>)
    ensures
        hex_lower(s).len() == 2 * s.len(),
    decreases s.len(),
{
    if s.len() > 0 {
        hex_lower_len(s.drop_first());
    }
}

/// Calls `hex::encode`, which writes each byte as two lowercase hexadecimal
/// digits, high nibble first.
#[verifier::external_body]
fn hex_encode(data: &[u8]) -> (s: String)
    ensures
        s@ == hex_lower(data@),
{
    hex::encode(data)
}

/// The command that reads the whole of `chip`.
pub fn read_cmd_for(chip: &ChipDbEntry) -> (cmd: Vec<u8>)
    requires
        flags_in_range(chip.chip_type, chip.ee93_unk),
    ensures
        cmd@ == read_cmd(
            chip.chip_type,
            chip.size,
            chip_flags(chip.chip_type, chip.size, chip.ee93_unk, chip.ee93_bits),
            chip.voltage > 0x28,
        ),
{
    create_read_cmd(&chip.chip_type, chip.size, chip.flags(), chip.is5v())
}

/// A response from the programmer as lowercase hexadecimal text, as the chip
/// detection reports it.
pub fn response_hex(response: &[u8]) -> (s: String)
    ensures
        s@ == hex_lower(response@),
{
    hex_encode(response)
}

/// The status text that the programmer answers to the self test.
pub fn self_test_status(response: &[u8]) -> (r: Result<String, EzpError>)
    ensures
        text_view(r) == utf8_text(response@),
{
    let bytes = copy_range(response, 0, response.len());
    assert(bytes@ == response@);
    decode_text(bytes)
}

/// A chip is read in chunks of 4096 bytes, and a read ends with the first
/// chunk shorter than that.
pub proof fn read_chunk_law(n: usize)
    ensures
        READ_CHUNK == 4096,
        n < 4096 ==> n < READ_CHUNK,
        n >= 4096 ==> !(n < READ_CHUNK),
{
}

/// A chunk of `n` bytes ends a chip read when it does not fill the buffer.
pub fn is_last_chunk(n: usize) -> (r: bool)
    ensures
        r == (n < READ_CHUNK),
{
    n < READ_CHUNK
}

/// The sixteen lowercase hexadecimal digits, in order.
pub open spec fn hex_table() -> Seq<char> {
    seq!['0', '1', '2', '3', '4', '5', '6', '7', '8', '9', 'a', 'b', 'c', 'd', 'e', 'f']
}

proof fn lemma_hex_digit(d: int)
    requires
        0 <= d < 16,
    ensures
        hex_digit(d) == hex_table()[d],
{
    if d == 0 { assert(hex_digit(0) == '0'); }
    else if d == 1 { assert(hex_digit(1) == '1'); }
    else if d == 2 { assert(hex_digit(2) == '2'); }
    else if d == 3 { assert(hex_digit(3) == '3'); }
    else if d == 4 { assert(hex_digit(4) == '4'); }
    else if d == 5 { assert(hex_digit(5) == '5'); }
    else if d == 6 { assert(hex_digit(6) == '6'); }
    else if d == 7 { assert(hex_digit(7) == '7'); }
    else if d == 8 { assert(hex_digit(8) == '8'); }
    else if d == 9 { assert(hex_digit(9) == '9'); }
    else if d == 10 { assert(hex_digit(10) == 'a'); }
    else if d == 11 { assert(hex_digit(11) == 'b'); }
    else if d == 12 { assert(hex_digit(12) == 'c'); }
    else if d == 13 { assert(hex_digit(13) == 'd'); }
    else if d == 14 { assert(hex_digit(14) == 'e'); }
    else { assert(hex_digit(15) == 'f'); }
}

/// The hexadecimal text of a byte sequence has two characters per byte: at
/// `2 i` the lowercase digit of byte `i`'s high nibble, at `2 i + 1` that of
/// its low nibble.
pub proof fn hex_text_law(s: Seq<u8>, i: int)
    requires
        0 <= i < s.len(),
    ensures
        hex_lower(s).len() == 2 * s.len(),
        hex_lower(s)[2 * i] == hex_table()[(s[i] / 0x10) as int],
        hex_lower(s)[2 * i + 1] == hex_table()[(s[i] % 0x10) as int],
    decreases i,
{
    hex_lower_len(s);
    hex_lower_len(s.drop_first());
    if i == 0 {
        lemma_hex_digit((s[0] / 0x10) as int);
        lemma_hex_digit((s[0] % 0x10) as int);
    } else {
        hex_text_law(s.drop_first(), i - 1);
        assert(s.drop_first()[i - 1] == s[i]);
    }
}

} // verus!
