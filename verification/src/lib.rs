//! Verified core of a USB-to-MIDI bridge for the Traktor Kontrol X1 Mk1
//! controller: bit decoding of the controller's USB state reports, the
//! board model built from the YAML configuration, and the state machine
//! that turns state reports into MIDI messages and LED frames.

pub mod usb;
pub mod utils;
pub mod conf;
pub mod x1_board;
pub mod x1_process;
pub mod kontrol_x1mk1;
