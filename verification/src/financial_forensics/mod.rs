pub mod peer_benchmarking;
pub mod dupont_analysis;
pub mod red_flag_scoring;
pub mod zscore_models;
pub mod benfords_law;
