pub mod decoding;
pub mod elements;
pub mod leb128;
pub mod parser;
pub mod sequence;
pub mod synthesizer;
pub mod tables;
pub mod types;
