//! Local code-intelligence helpers: command-output compaction, the local
//! project registry, graph request validation and bounded graph queries,
//! benchmark text helpers, and the small fixture repositories the
//! benchmarks index.

pub mod bench;
pub mod call_graph;
pub mod clock;
pub mod compaction;
pub mod control;
pub mod line_set;
pub mod medium_rust;
pub mod orders;
pub mod paths;
pub mod registry;
pub mod setup;
pub mod text;
