# ezp

A verified library for the EZP2010 USB programmer of SPI flash and 24/25/93
series EEPROM chips.

- `src/` (Verus): the command encoders (`ezp_commands`), the decoders of the
  programmer's answers, the chip database record decoder and lookup (`db`),
  and the pure steps of the programming sessions (`programming`).
- `app/`: the command line tool: USB transfers through `rusb`, argument
  parsing, reading the database image from disk and printing.
- `tests/`: tests of the library on concrete values.
