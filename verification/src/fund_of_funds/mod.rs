pub mod commitment_pacing;
pub mod j_curve;
pub mod manager_selection;
pub mod portfolio_construction;
pub mod secondaries;
