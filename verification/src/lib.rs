//! Cost-estimation core: catalog inference, region filtering, LLM rate
//! extraction and the period cost engine.
pub mod azure_retail;
pub mod azure_scan;
pub mod bedrock_book;
pub mod catalog;
pub mod estimate;
pub mod gcp_catalog;
pub mod importing;
pub mod json;
pub mod llm;
pub mod models;
pub mod offer_index;
pub mod money;
pub mod order;
pub mod pricing;
pub mod regions;
pub mod report;
pub mod requests;
pub mod service_rules;
pub mod store;
pub mod sync_plan;
pub mod text;
pub mod workload;
