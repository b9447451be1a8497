//! Core logic of the JX key mapper client: membership session rules,
//! device fingerprinting, settings cycling, mapping editor helpers and
//! window/projection decisions.

pub mod text;
pub mod membership;
pub mod fingerprint;
pub mod settings;
pub mod mapping;
pub mod window;
pub mod control;
pub mod startup;
pub mod editor;
pub mod dashboard;
