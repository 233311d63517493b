pub mod arena;
