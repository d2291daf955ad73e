pub mod payment;
pub mod upload;
pub mod visualize;
