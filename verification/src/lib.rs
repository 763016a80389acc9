pub mod text;
pub mod value;
pub mod row;
pub mod screens;
pub mod layout;
pub mod query;
pub mod app;
pub mod laws;
