pub mod text;
pub mod json;
pub mod method;
pub mod message;
pub mod wsa;
pub mod params;
pub mod strmap;
pub mod pool;
pub mod client;
pub mod id;
pub mod server;
pub mod handler;
pub mod wire;
pub mod handshake;
pub mod process;
pub mod socket;
pub mod wsm;
pub mod pretty;
mod init;

pub use init::setup;
