//! Library for programming channel memory on a handheld radio scanner over
//! USB, using the device's carriage-return terminated ASCII request/response
//! protocol.
//!
//! The verified core covers the fixed-field channel record codec, the
//! transport framing of one command/response exchange, and the device session
//! state machine (remote mode must be entered before commands run, and must be
//! left exactly once). The USB calls themselves, device discovery, tabular
//! file import/export, and the command line live outside the library and drive
//! it with plain values.

mod channel;
mod scanner;
mod text;
mod transport;
pub mod uniden;

pub use channel::Channel;
pub use channel::Modulation;
pub use channel::ParseError;
pub use scanner::Scanner;
pub use scanner::ScannerError;
pub use text::parse_bool;
pub use text::parse_usize;
pub use transport::ResponseAssembler;
pub use transport::frame_command;
pub use transport::TransportError;
