//! The decisions of a Matter BTP GATT peripheral that runs on a BLE host.
//!
//! BTP, the Bluetooth transport of Matter, carries its frames over two GATT characteristics: the
//! peer writes to C1, and the device indicates on C2. This crate decides what a peripheral that
//! offers that service does: which address it takes, what it advertises, how it answers the events
//! of a connection, when it indicates, and what ends it. The radio, the BLE host and the BTP engine
//! are driven by the caller, who performs each action and hands back what came of it.

pub mod address;
pub mod advertising;
pub mod connection;
pub mod context;
pub mod error;
pub mod events;
pub mod host;
pub mod indications;
pub mod peripheral;
pub mod session;
