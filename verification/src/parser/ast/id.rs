pub mod adt;
pub mod builder;
pub mod def;
pub mod id;
pub mod id_counts;
pub mod node_map;
pub mod range;
pub mod snapshot;
