pub mod activity;
pub mod gradient;
pub mod viz;
