//! The session logic of an MQTT 3.1.1 client that talks to its broker over QUIC.
//!
//! Nothing here performs I/O. `state` turns the packets of either direction
//! into changes of the session, notifications for the user and bytes for the
//! network; the caller moves those bytes.
//!
//! What holds of the library as a whole is proved in `laws`, what each operation
//! does to a session in `effects`, what a call gives in `operations`, and how
//! the bytes read in `reading`.

pub mod broker;
pub mod effects;
pub mod error;
pub mod laws;
pub mod operations;
pub mod packet;
pub mod reading;
pub mod session;
pub mod state;
pub mod transport;
pub mod wire;
