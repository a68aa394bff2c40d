pub mod address;
pub mod ai;
pub mod analysis;
pub mod clock;
pub mod commands;
pub mod context;
pub mod hash;
pub mod json;
pub mod market;
pub mod memory;
pub mod monitor;
pub mod rag;
pub mod reply;
pub mod reports;
pub mod session;
pub mod startup;
pub mod state;
pub mod text;
