pub mod commodities;
pub mod decimal_math;
pub mod fx;
