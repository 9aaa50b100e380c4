//! Verified core of the ledgerr MCP server: the ledger's transactions and
//! classifications with their audit trail, batch review, the work queue,
//! tax schedules and computations, the accountant's workbook, lifecycle
//! events, the schema registry, and the tool contract and its routing.
pub mod batch_executor;
pub mod batch_review;
pub mod capital_loss;
pub mod clock;
pub mod contract;
pub mod coverage;
pub mod decimal;
pub mod error;
pub mod events;
pub mod export;
pub mod fbar;
pub mod feie;
pub mod gate;
pub mod hash;
pub mod ledger;
pub mod mcp_adapter;
pub mod ofx;
pub mod ontology;
pub mod openmetadata;
pub mod rpc;
pub mod schedule;
pub mod schema;
pub mod service;
pub mod strmap;
pub mod text;
pub mod types;
pub mod work_queue;

pub use error::ToolError;
pub use strmap::StringMap;
