//! Core logic of a federated, peer-to-peer social node: retry policies,
//! network metrics, media probing, ActivityPub helpers and delivery rules.

pub mod retry;
pub mod text;
pub mod media;
pub mod order;
pub mod metrics;
pub mod json;
pub mod activity;
pub mod digest;
pub mod queue;
pub mod report;
pub mod limits;
pub mod content;
pub mod urls;
pub mod httpsig;
pub mod appconfig;
pub mod inbox;
pub mod startup;
pub mod discovery;
pub mod chat;
pub mod service;
pub mod devicesync;
pub mod legacysync;
pub mod p2pframe;
pub mod actordoc;
pub mod relayenc;
pub mod canonjson;
pub mod sigroundtrip;
pub mod identity;
pub mod jsontext;
pub mod p2psync;
pub mod relaypost;
