//! A bridge from GPIO push buttons to a virtual joystick device.
//!
//! The library holds everything the bridge decides: the configuration grammar
//! and its parser, the fixed button table with its key codes, the translation
//! of pin edges into key events, and the startup and shutdown sequences of the
//! lifecycle controller. The thin binary around it performs the actual
//! hardware calls in the order this library prescribes.

pub mod config;
pub mod errors;
pub mod joystick;
pub mod keys;
