pub mod algorithms;
pub mod basic_data_structures;
