//! The parts of the audio processors that are about the layout of sample
//! buffers and the choice of positions, and the processors' parameter
//! types that hold no floating-point values.
pub mod gain_distortion;
pub mod time_pitch;
pub mod cross;
pub mod filter;
pub mod modulation;
