//! Login and live-broadcast control for a streaming platform: the QR login
//! handshake, the stored credential record, and the start / stop decisions of
//! a broadcast session, each stated and proved over plain values.

pub mod area;
pub mod cookies;
pub mod error;
pub mod live;
pub mod login;
pub mod qr;
pub mod query;
pub mod status;
pub mod text;
