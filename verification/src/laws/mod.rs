//! What holds of the library as a whole.

pub mod address;
pub mod client;
pub mod packet;
pub mod pump;
pub mod qr;
pub mod server;
pub mod text;
