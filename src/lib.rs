//! Small integer tools with proved contracts: ranking of tile boards
//! (`hashboard`), reading hex color codes (`hex2rgb`), base-ten numbers
//! (`number`), the decisions of a guessing game (`guessing`), and the fixed
//! order of body pairs that an N-body integrator walks (`pairs`).

pub mod guessing;
pub mod hashboard;
pub mod hex2rgb;
pub mod number;
pub mod pairs;
