//! Corporate finance analytics over exact decimal numbers.
pub mod dec;
pub mod error;
pub mod financial_forensics;
pub mod fixed_income;
pub mod fpa;
pub mod fund_of_funds;
pub mod fx_commodities;
pub mod types;
