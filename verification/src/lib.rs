pub mod ca_bundle;
pub mod clock;
pub mod ebcdic;
pub mod lib3270;
pub mod lib5250;
pub mod negotiation;
pub mod network;
pub mod protocol_common;
pub mod terminal;
pub mod text;
pub mod monitoring;
pub mod platform;
pub mod performance_metrics;
pub mod protocol;
pub mod receive;
