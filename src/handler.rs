pub mod api;
pub mod data;
pub mod text;
