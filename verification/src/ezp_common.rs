use vstd::prelude::*;

verus! {

/// The families of memory chips that the programmer can talk to.
#[derive(Debug, Clone, Copy, PartialEq, Eq, Structural)]
pub enum ChipType {
    Spi,
    EE24,
    EE25,
    EE93,
}

/// The code by which the programmer's protocol names a chip family.
pub open spec fn chip_code(t: ChipType) -> u8 {
    match t {
        ChipType::Spi => 0x01,
        ChipType::EE24 => 0x02,
        ChipType::EE25 => 0x03,
        ChipType::EE93 => 0x04,
    }
}

impl ChipType {
    /// The protocol code of this chip family.
    pub fn chip_to_u8(&self) -> (code: u8)
        ensures
            code == chip_code(*self),
    {
        match self {
            ChipType::Spi => 0x01,
            ChipType::EE24 => 0x02,
            ChipType::EE25 => 0x03,
            ChipType::EE93 => 0x04,
        }
    }
}

/// Two chip families share a protocol code only if they are the same family,
/// and every code lies between 1 and 4.
pub proof fn chip_code_is_injective(a: ChipType, b: ChipType)
    ensures
        chip_code(a) == chip_code(b) ==> a == b,
        1 <= chip_code(a) <= 4,
{
}

/// The protocol numbers SPI flash 1, 24-series EEPROM 2, 25-series EEPROM 3
/// and 93-series EEPROM 4.
pub proof fn chip_codes()
    ensures
        chip_code(ChipType::Spi) == 1,
        chip_code(ChipType::EE24) == 2,
        chip_code(ChipType::EE25) == 3,
        chip_code(ChipType::EE93) == 4,
{
}

} // verus!
