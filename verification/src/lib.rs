//! Core logic of the screen / keyboard-mouse sharing companion: where its files
//! live, the wire formats it speaks, the cursor hand-over between two machines,
//! the device filters, the peer registry and the streaming relay decisions.
//! Sockets, processes, windows and the HID backend are driven by the program
//! around this library; everything it decides is here, with its contract.
pub mod config;
pub mod text;
pub mod transfer;
pub mod devices;
pub mod km;
pub mod peers;
pub mod capture;
pub mod event;
pub mod keyboard_mouse;
pub mod archive;
pub mod streaming;
