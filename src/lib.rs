//! A remote-framebuffer (RFB) protocol core: the wire codec, the inbound and
//! outbound byte buffers, framebuffer snapshots and the per-connection
//! session state machine. Socket readiness, screen capture and logging are
//! left to the program that embeds the library.
mod types;
pub mod wire;
pub mod message;
pub mod buffer;
pub mod frame;
pub mod session;

pub use types::{PixelFormat, Resolution, ScreenShot, ServerInit};
pub use message::{ClientMessage, Decoded, UpdateRequest, decode_message};
pub use buffer::{InboundBuffer, OutboundBuffer};
pub use frame::{Rect, clip, framebuffer_update};
pub use session::{CaptureOutcome, CaptureTarget, CloseReason, Session, Stage, Waiting};
