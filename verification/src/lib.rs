pub mod date;
pub mod display;
pub mod meta;
pub mod width;
