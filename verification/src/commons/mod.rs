pub mod errors;
pub mod naming;
pub mod packages;
pub mod utility;
