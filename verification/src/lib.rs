pub mod text;
pub mod patterns;
pub mod status;
pub mod mqtt;
pub mod server;
pub mod setup;
pub mod setup_model;
