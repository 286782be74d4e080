//! Point-to-point binary framing protocol for byte-oriented transports:
//! a byte-stuffing codec, a checksummed frame wire format, a streaming
//! frame reassembler, and the session layer that multiplexes connections.

pub mod builder;
pub mod conformance;
pub mod display;
pub mod encoding;
pub mod frame;
pub mod session;

pub use builder::FrameBuilder;
pub use display::Device;
pub use display::DrawableFrame;
pub use encoding::DecodeError;
pub use encoding::Encoding;
pub use frame::CommandTooLongError;
pub use frame::DeserializeError;
pub use frame::Frame;
pub use frame::SerializeError;
pub use session::DeviceHandle;
