pub mod bits;
pub mod codec;
pub mod encoder;
pub mod frame;
pub mod reading;
mod shared;
pub mod syntax;
