//! Protocol layers found inside a captured Ethernet frame.

pub mod bip;
pub mod ecpri;
pub mod ethernet;
pub mod types;
pub mod uplane;
