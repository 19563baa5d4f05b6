//! The HID++ protocol: reports, exchanges with a device and its features.

pub mod asking;
pub mod features;
pub mod framing;
pub mod protocol;
pub mod session;

pub use features::{feature_name, Feature, FeatureTable};
pub use protocol::{HidppMessage, HidppTransport, ProtocolVersion};
