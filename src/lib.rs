//! A speedcubing practice timer: the timing state machine, the scramble
//! generator and the statistics over the solve history.

pub mod utils;
pub mod history;
pub mod seq_gen;
pub mod shuffle;
pub mod timer;
pub mod preferences;
pub mod stats;
