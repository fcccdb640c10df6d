//! USB/IP protocol logic for sharing USB devices over TCP: the wire
//! encodings of devices and headers, the server's request handling and
//! the client's request building and reply checking.
pub mod bytes;
pub mod text;
pub mod protocol;
pub mod server;
pub mod client;
