use vstd::prelude::*;

pub mod block;
pub mod channel;
pub mod chunk_column;
pub mod chunk_data;
pub mod chunk_data_formatter;
pub mod chunk_generator;
pub mod chunk_section;
pub mod chunks_map;
pub mod chunks_table;
pub mod debug;
pub mod mesh;
pub mod near_chunk_data;
pub mod position;
pub mod queue;
pub mod shape;
pub mod store_laws;
pub mod store_state;
pub mod world_manager;

verus! {

/// Edge length, in blocks, of one cubic section.
pub const CHUNK_SIZE: u8 = 16;

/// Number of sections stacked in one chunk column.
pub const VERTICAL_SECTIONS: usize = 8;

/// Edge length of a section together with its one-block halo on each side.
pub const CHUNK_SIZE_BOUNDARY: u32 = 18;

} // verus!
