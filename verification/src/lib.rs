//! Domain library of an advertising engine: campaign rules, statistics
//! aggregation, audience targeting and text moderation.

pub mod text;
pub mod moderation;
pub mod stats;
pub mod error;
pub mod campaigns;
pub mod ads;
pub mod people;
pub mod location;
pub mod gpt;
pub mod metrics;
pub mod services;
pub mod config;
pub mod usecase;
