pub mod config;
pub mod text;
pub mod mention;
pub mod relay;
pub mod bridge;
pub mod queue;
pub mod worker;
