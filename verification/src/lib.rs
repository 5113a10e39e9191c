//! Routing, registry and request-metrics core of the app router.

use vstd::prelude::*;

pub mod text;
mod clock;
pub mod ranking;
pub mod metrics_catalog;
pub mod selfcheck;
pub mod registry;
pub mod proxy;
pub mod tunnel_provider;
pub mod tunnel_metrics;
pub mod analytics;
pub mod setup;
pub mod ingress_direct;
pub mod cloudflare;
pub mod cf_answer;
pub mod cf_body;
pub mod api;
pub mod config;
pub mod metrics_api;
pub mod dataset;
pub mod acme;
pub mod kova;
pub mod envfile;

verus! {

} // verus!
