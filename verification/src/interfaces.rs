pub mod rerun;
pub mod zenoh;
