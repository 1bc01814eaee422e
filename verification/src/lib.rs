//! Soul Lantern server library: the ledger and its tables, account rules, licence codes,
//! rate limiting, SMS request signing, AI usage pricing and the Minecraft command builders
//! behind the AI generation endpoint.

pub mod ai_proxy;
pub mod auth;
pub mod crypto;
pub mod ledger;
pub mod flows;
pub mod sms;
pub mod store;
pub mod text;
pub mod give;
