//! The statistics screen: the figures it shows and its confirmation step
//! before the history is cleared.

use crate::history::{
    all_time_average, average_of_5, average_of_n, get_ao, get_ao5, get_avg, get_pb,
    personal_best, History,
};
use vstd::prelude::*;

verus! {

/// The figures of the statistics screen, in milliseconds.
pub struct Summary {
    pub pb: u64,
    pub average: u64,
    pub ao5: u64,
    pub ao50: u64,
    pub ao100: u64,
}

/// Computes the figures shown for `history`.
pub fn summarize(history: &History) -> (r: Summary)
    ensures
        r.pb == personal_best(history@),
        r.average == all_time_average(history@),
        r.ao5 == average_of_5(history@),
        r.ao50 == average_of_n(history@, 50),
        r.ao100 == average_of_n(history@, 100),
{
    Summary {
        pb: get_pb(history),
        average: get_avg(history),
        ao5: get_ao5(history),
        ao50: get_ao(history, 50),
        ao100: get_ao(history, 100),
    }
}

/// The events of the statistics screen.
pub enum Message {
    DeleteHistory,
    ToggleConfirmation,
}

/// The statistics screen: whether the clearing of the history awaits
/// confirmation.
pub struct Stats {
    pub show_confirmation: bool,
}

impl Stats {
    pub fn new() -> (r: Self)
        ensures
            !r.show_confirmation,
    {
        Self { show_confirmation: false }
    }

    /// Handles one event; returns whether the stored history is to be
    /// cleared.
    pub fn update(&mut self, msg: Message) -> (r: bool)
        ensures
            final(self).show_confirmation == !old(self).show_confirmation,
            r == (msg is DeleteHistory),
    {
        self.show_confirmation = !self.show_confirmation;
        match msg {
            Message::DeleteHistory => true,
            Message::ToggleConfirmation => false,
        }
    }
}

} // verus!
