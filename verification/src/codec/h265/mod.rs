pub mod decoding;
pub mod defaults;
pub mod elements;
pub mod heads;
pub mod inference;
pub mod laws;
pub mod nalu;
pub mod parser;
pub mod synthesizer;
pub mod tables;
pub mod types;
pub mod writing;
