pub mod bookmark;
pub mod reference;
