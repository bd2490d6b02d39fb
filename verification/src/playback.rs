pub mod events;
pub mod interface;
