//! Verified core of the decision-log storage layer: record validation,
//! persisted-enum encodings, budget admission, ledger arithmetic, knowledge
//! chunking, run snapshots and their data minimisation, job and delivery
//! leases, and review and usage analytics. Database I/O lives outside this
//! crate.

pub mod analytics;
pub mod api_key;
pub mod authorization;
pub mod budget_alert;
pub mod bench;
pub mod calendar;
pub mod crypto;
pub mod error;
pub mod environment;
pub mod escalation;
pub mod evaluation;
pub mod feature_flag;
pub mod gateway;
pub mod financial;
pub mod github;
pub mod ids;
pub mod json;
pub mod knowledge;
pub mod llm;
pub mod mcp;
pub mod memory;
pub mod notification;
pub mod order;
pub mod otel;
pub mod pay;
pub mod policy;
pub mod review;
pub mod review_analytics;
pub mod snapshot;
pub mod tally;
pub mod text;
