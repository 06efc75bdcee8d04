//! Values of the core's control registers.

pub mod mpu;
pub mod npriv;
