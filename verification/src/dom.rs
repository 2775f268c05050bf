pub mod attribute;
pub mod element;
