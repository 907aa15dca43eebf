pub mod chain;
pub mod errors;
pub mod functions;
pub mod grants;
pub mod laws;
pub mod meta;
pub mod num_text;
pub mod number;
pub mod ordered_map;
pub mod processors;
pub mod registry;
pub mod state_codec;
pub mod text;
pub mod values;

pub use errors::ErrorCode;
