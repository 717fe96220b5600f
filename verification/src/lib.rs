//! Control of a DG-LAB Coyote device over the WebSocket v2 protocol.
//!
//! The library decides; it does not touch the network. `server` is the embedded server that a
//! phone in the same network connects to, `client` the client of an external relay. Each takes an
//! event, changes its state and says what is to be done. `judge` turns the judgements of the game
//! into strengths, `qr` draws pairing codes, `address` reads and writes addresses. `laws` holds
//! what is proved of them together.

pub mod address;
pub mod client;
pub mod conns;
pub mod json;
pub mod judge;
pub mod laws;
pub mod packet;
pub mod qr;
pub mod server;
pub mod state;
pub mod text;
pub mod transport;

pub use crate::address::{detect_lan_ip, normalize_ws_url};
pub use crate::client::{test_ws_connection, WsTransport};
pub use crate::judge::{build_dglab_update_fn, pump_judgements, read_configured_strength, DglabKind};
pub use crate::qr::qr_texture;
pub use crate::server::{current_server, set_server, DglabServer, Stoppable};
pub use crate::state::DglabState;
pub use crate::transport::{DglabTransport, Transport};
