//! Verified integer core of the WG10 terrain runtime: the NumPy-compatible random
//! stream, grid index helpers, pass-network path reconstruction, page-pool
//! producer state and small encoding helpers.

pub mod grid_ops;
pub mod lattice_hash;
pub mod names;
pub mod npy_random;
pub mod page_acquire;
pub mod pass_network;
pub mod payload_layout;
pub mod pool_state;
pub mod probe;
pub mod region_queue;
pub mod slot_table;
pub mod static_stitch;
pub mod tile_layout;
pub mod world_build;
pub mod world_layer_contract;
