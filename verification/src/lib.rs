//! Command encoding, response decoding and chip database decoding for the
//! EZP2010 USB EEPROM / SPI flash programmer.

pub mod ezp_common;
pub mod error;
pub mod text;
pub mod ezp_commands;
pub mod db;
pub mod programming;
