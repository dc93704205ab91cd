//! Host-side input ingestion: descriptor-driven HID report decoding, XInput decoding,
//! raw-input packets, and a manager that keeps labelled per-device state.

use vstd::prelude::*;

pub mod binding;
pub mod channel_labels;
pub mod device;
pub mod discovery;
pub mod event;
pub mod eventbus;
pub mod hid_values;
pub mod hidp_parser;
pub mod label_map;
pub mod logger;
pub mod manager;
pub mod raw_input;
pub mod snapshot;
pub mod state;
pub mod text;
pub mod value;
pub mod virtual_input;
pub mod xinput;

verus! {

} // verus!
