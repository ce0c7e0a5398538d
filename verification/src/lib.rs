//! Local, cloud-free control of TP-Link Tapo smart bulbs: the KLAP v2 and
//! legacy secure-passthrough session logic, HTTP response framing, device
//! request construction and the decision logic of the control service.

pub mod ambilight;
pub mod api;
pub mod bytes;
pub mod config;
pub mod crypto;
pub mod device;
pub mod diagnose;
pub mod discover;
pub mod error;
pub mod http;
pub mod klap;
pub mod passthrough;
pub mod service;
pub mod text;

pub use config::{ApiConfig, DeviceConfig, UiConfigFile};
pub use device::{DeviceInfo, Protocol, TapoDevice};
pub use diagnose::{diagnosis, Diagnosis, Verdict};
pub use error::TapoError;
