//! Borrow the WiFi of an ESP32: the decisions of the host daemon and of the
//! device firmware, as verified state machines and functions on plain values.
//!
//! The host and the device talk over a lossy request/response link. Each module
//! holds the rules of one part; the programs around this library perform the
//! actions that the rules ask for and hand the outcomes back.
pub mod address;
pub mod bridge;
pub mod device;
pub mod download;
pub mod download_run;
pub mod exchange;
pub mod frame_log;
pub mod icd;
pub mod link;
pub mod metrics;
pub mod network_session;
pub mod nusb_transport;
pub mod radio;
pub mod scan;
pub mod serial_transport;
pub mod system_network;
pub mod targets;
pub mod test_mode;
pub mod text;
pub mod throughput;
