pub mod data_structs;
pub mod lemmas;
