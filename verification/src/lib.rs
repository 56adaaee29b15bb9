//! Transfers between the devices of a local network: the registry of
//! transfers in flight, the progress that is broadcast about them, the
//! reception of uploads and the packaging of received files.

pub mod channel;
pub mod decimal;
pub mod device;
pub mod index;
pub mod ingest;
pub mod packaging;
pub mod presence;
pub mod progress;
pub mod pump;
pub mod registry;
pub mod slot;
pub mod staging;
pub mod text;
pub mod wire;
pub mod zipper;
