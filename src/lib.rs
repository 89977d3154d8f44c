//! Client-side core of the Event Socket protocol: the frame codec, the
//! status-line parser, the reply correlator and the connection handshake.

pub mod bytes;
pub mod code;
pub mod command;
pub mod correlator;
pub mod error;
pub mod event;
pub mod handshake;
pub mod io;
pub mod json;
pub mod laws;
pub mod reply;
pub mod text;

pub use code::{parse_api_response, Code};
pub use correlator::{Correlator, Dispatch};
pub use error::{EslError, ProtocolFault};
pub use event::Event;
pub use handshake::{ConnectionMode, Handshake, HandshakeState, Step};
pub use io::{decode_frame, get_header_end, parse_body, parse_header, EslCodec, InboundResponse};
pub use reply::{api_outcome, bgapi_outcome};
