pub mod codec;
pub mod tracker;
pub mod wire;
