pub mod k_means;
