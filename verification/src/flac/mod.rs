pub mod bitwriter;
pub mod frame;
pub mod rice;
pub mod subframe;
pub mod encoder;
