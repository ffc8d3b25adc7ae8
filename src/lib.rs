//! Upload agent core: decision logic of a multi-instance FTP upload agent.
pub mod clock;
pub mod connection;
pub mod controller;
pub mod fingerprint;
pub mod hash_store;
pub mod numbers;
pub mod pipeline;
pub mod presence;
pub mod session;
pub mod text;
pub mod transfer;
