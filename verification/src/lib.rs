//! FileDrop's transfer library: wire framing, offer validation, file naming,
//! device discovery bookkeeping and transfer progress.

pub mod text;
pub mod integrity;
pub mod models;
pub mod names;
pub mod protocol;
pub mod offer;
pub mod identity;
pub mod registry;
pub mod order;
pub mod discovery;
pub mod cancel;
pub mod transfer;
pub mod sending;
pub mod receiving;
