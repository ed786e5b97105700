pub mod variance;
pub mod working_capital;
