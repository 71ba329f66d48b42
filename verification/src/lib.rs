//! In-memory caches of a checkpoint-driven ledger indexer.
//!
//! The crate holds the object cache that is built once per checkpoint, the
//! package cache that lives as long as the process and is swept against the
//! commit watermark, the object provider that answers exact and
//! nearest-version lookups for one checkpoint, and the read-only view over a
//! checkpoint's output objects that epoch-end processing uses.

pub mod base_types;
pub mod assoc;
mod sharing;
pub mod object_cache;
pub mod tx_processor;
pub mod changes;
pub mod package_cache;
pub mod epoch_end;
pub mod store_config;
