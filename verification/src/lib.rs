//! Verified pieces of the IRIS SGI Indy emulator: the in-core NFS/UDP
//! backend and wire layer, and the decision logic behind the GUI front end.

pub mod nfsudp;
pub mod text;
pub mod config;
pub mod safe_stop;
pub mod input;
pub mod framebuffer;
pub mod config_ui;
pub mod launch;
