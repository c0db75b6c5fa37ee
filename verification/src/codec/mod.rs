pub mod av1;
pub mod bit_reader;
pub mod codes;
pub mod emulation;
pub mod h264;
pub mod h265;
pub mod nalu_writer;
