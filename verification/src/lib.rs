//! Topology snapshots of a sharded database cluster and the differences
//! between two of them.
//!
//! A snapshot holds what one node of the cluster reported of its databases,
//! tables, shards and shard replicas ([`model`]); it is read from the JSON
//! document that the node answers with ([`json`]). A pass over the cluster
//! gathers the snapshots of the nodes that answered in full. The pass can be
//! listed ([`live_report`]), asked for the host that leads a colocated
//! database ([`coloc`]), and compared with another pass: the difference
//! engine ([`diff`], [`merge`]) keeps a change record ([`records`],
//! [`change`]) for every identifier that either pass holds, classifies each
//! record ([`classify`]) and reports what changed ([`diff_report`]).
//!
//! Reports are sequences of lines made of coloured spans ([`report`]);
//! writing them out is left to the caller. Identifiers are read by
//! [`identifier`] and ordered by [`text`]; records are kept in maps that are
//! walked in identifier order ([`idmap`]). [`laws`] states what holds of
//! every difference.

pub mod change;
pub mod classify;
pub mod coloc;
pub mod diff;
pub mod diff_report;
pub mod filter;
pub mod identifier;
pub mod idmap;
pub mod json;
pub mod laws;
pub mod live_report;
pub mod merge;
pub mod model;
pub mod records;
pub mod report;
pub mod text;
pub mod views;
