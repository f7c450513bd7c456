//! Device-identity and GATT-topology core of a cross-platform Bluetooth
//! Low Energy central-role abstraction.
//!
//! The crate keeps one stable, backend-agnostic model of the peripherals an
//! adapter has seen: a bijective identity map from backend-native transient
//! identifiers to stable [`peripheral::PeripheralId`]s, a registry of
//! peripheral records with insert-or-update reconciliation, a per-peripheral
//! GATT topology cache (services, characteristics, descriptors), and an
//! ordered multi-subscriber event stream of lifecycle transitions.
//!
//! Backend transport work (scanning, connecting, transferring bytes) is left
//! to external collaborators; this crate computes the decisions and holds the
//! shared state, so those parts carry contracts and are verified.

pub mod adapter;
pub mod errors;
pub mod events;
pub mod gatt;
pub mod identity;
pub mod manager;
pub mod models;
pub mod peripheral;
