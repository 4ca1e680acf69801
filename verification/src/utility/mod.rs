//! Analysis of decoded eCPRI traffic.

pub mod drain;
pub mod ecpri_analysis;
