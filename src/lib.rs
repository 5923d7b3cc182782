pub mod state;
pub mod writer;
pub mod builder;
pub mod worker;
