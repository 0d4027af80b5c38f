//! A dual-protocol HTTP runtime core: the HTTP/1 connection state machine,
//! the streaming body abstraction shared by HTTP/1 and HTTP/2, the chunked
//! transfer framing, the HTTP/2 stream prioritisation engine and the
//! per-stream response encoder, with machine-checked contracts.
//!
//! Socket I/O, timers and the async select loops live outside this crate;
//! the state machines here take plain bytes and events in and hand plain
//! bytes and decisions back.

pub mod buffer;
pub mod error;
pub mod file_server;
pub mod frame;
pub mod helper;
pub mod http1;
pub mod parsing;
pub mod priority;
pub mod send_response;
pub mod bytesearch;
pub mod chunked;
pub mod message;
pub mod recv_stream;

pub use buffer::BinaryMut;
pub use recv_stream::RecvStream;
pub use message::{Method, RecvRequest, RecvResponse, OutRequest, ClientResponse};
pub use error::{ProtError, Initiator};
pub use http1::{IoBuffer, RequestPoll, ResponsePoll, ConnectionInfo};
pub use frame::Frame;
pub use priority::{PriorityQueue, QueuedFrame};
pub use send_response::SendResponse;
pub use helper::HttpHelper;
pub use file_server::FileServer;
