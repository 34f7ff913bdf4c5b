//! The timing state machine: shuffle, inspection, solve, finished, and back.

use crate::history::Solve;
use crate::seq_gen::is_scramble;
use crate::shuffle::{parsed_length, LengthError, Shuffle, error_text};
use crate::utils::{
    dec_time, elapsed_since, inc_time, inspection_left, sat_sub, saturating_unwrap_sub,
    time_string, time_text, INSPECTION_TIME,
};
use vstd::prelude::*;

verus! {

/// The phase of a solve.
#[derive(Clone, Copy, Debug, PartialEq, Eq, Structural)]
pub enum Stage {
    Shuffle,
    Inspection,
    Solve,
    Finished,
}

pub open spec fn stage_name(s: Stage) -> Seq<char> {
    match s {
        Stage::Solve => "Solve"@,
        Stage::Inspection => "Inspection"@,
        Stage::Finished => "Finished"@,
        Stage::Shuffle => "Shuffle"@,
    }
}

impl Stage {
    /// The name of the stage, as shown above the timer.
    pub fn as_str(&self) -> (r: &'static str)
        ensures
            r@ == stage_name(*self),
    {
        match self {
            Stage::Solve => "Solve",
            Stage::Inspection => "Inspection",
            Stage::Finished => "Finished",
            Stage::Shuffle => "Shuffle",
        }
    }
}

/// What the timer shows and keeps between events, the scramble aside.
pub struct Clock {
    pub stage: Stage,
    pub start_time: Option<u64>,
    pub end_time: Option<u64>,
    pub display: Seq<char>,
    pub label: Seq<char>,
}

impl Clock {
    /// An end time exists exactly in the finished stage, and then a start
    /// time too; the shuffle stage holds no time at all.
    pub open spec fn wf(self) -> bool {
        &&& (self.stage == Stage::Finished <==> self.end_time.is_some())
        &&& self.stage == Stage::Finished ==> self.start_time.is_some()
        &&& self.stage == Stage::Shuffle ==> self.start_time.is_none()
    }
}

/// The clock between solves.
pub open spec fn idle() -> Clock {
    Clock {
        stage: Stage::Shuffle,
        start_time: None,
        end_time: None,
        display: time_text(INSPECTION_TIME as nat),
        label: "Inspect (Space)"@,
    }
}

/// The clock after a toggle at time `now`.
pub open spec fn toggled(c: Clock, now: u64) -> Clock {
    match c.stage {
        Stage::Shuffle => Clock { stage: Stage::Inspection, ..c },
        Stage::Inspection => if c.start_time.is_none() {
            Clock { start_time: Some(now), label: "Inspecting!"@, ..c }
        } else {
            c
        },
        Stage::Solve => if c.start_time.is_some() {
            Clock {
                stage: Stage::Finished,
                end_time: Some(now),
                label: "Log Solve (Space)"@,
                ..c
            }
        } else {
            Clock { start_time: Some(now), label: "Stop (Space)"@, ..c }
        },
        Stage::Finished => idle(),
    }
}

/// The clock after a periodic tick at time `now`: the inspection counts
/// down and gives way to the solve at zero; the solve counts up.
pub open spec fn ticked(c: Clock, now: u64) -> Clock {
    match c.stage {
        Stage::Inspection => if c.start_time.is_some() {
            let left = inspection_left(c.start_time, now);
            if left == 0 {
                Clock {
                    stage: Stage::Solve,
                    start_time: None,
                    display: time_text(0),
                    label: "Begin (Space)"@,
                    ..c
                }
            } else {
                Clock { display: time_text(left as nat), ..c }
            }
        } else {
            Clock { display: time_text(INSPECTION_TIME as nat), ..c }
        },
        Stage::Solve => if c.start_time.is_some() {
            Clock { display: time_text(elapsed_since(c.start_time, now) as nat), ..c }
        } else {
            Clock { display: time_text(0), ..c }
        },
        _ => c,
    }
}

/// The turns of a scramble joined by `", "`.
pub open spec fn joined(items: Seq<String>) -> Seq<char>
    decreases items.len(),
{
    if items.len() == 0 {
        Seq::empty()
    } else if items.len() == 1 {
        items[0]@
    } else {
        joined(items.drop_last()) + seq![',', ' '] + items.last()@
    }
}

/// The kind of a key press: 0 toggles, 1 reshuffles or discards, 2 is ignored.
pub open spec fn key_kind(key: Seq<char>) -> int {
    if key == seq![' '] {
        0
    } else if key == seq!['r'] || key == seq!['R'] {
        1
    } else {
        2
    }
}

/// What the surrounding program is asked to do after an event.
pub enum Effect {
    /// Nothing beyond showing the new state.
    Nothing,
    /// Append this solve to the stored history.
    LogSolve(Solve),
    /// Store this scramble length as the preference.
    StoreLength(u64),
}

/// The events that drive the timer. `input` is the text of the scramble
/// length box at the time of the event.
pub enum Message {
    ToggleTimer,
    GenerateShuffle { input: String },
    Discard,
    UpdateTime,
    KeyPress { key: String, input: String },
}

/// The timer: its clock, its texts and the active scramble.
pub struct Timer {
    pub start_time: Option<u64>,
    pub current_time: String,
    pub end_time: Option<u64>,
    pub stage: Stage,
    pub toggle_label: String,
    pub shuffle: Shuffle,
}

impl View for Timer {
    type V = Clock;

    open spec fn view(&self) -> Clock {
        Clock {
            stage: self.stage,
            start_time: self.start_time,
            end_time: self.end_time,
            display: self.current_time@,
            label: self.toggle_label@,
        }
    }
}

/// The outcome of a toggle at `now` from `old` to `new`: the clock steps, and
/// a finished solve is handed out as `logged` and replaced by a new scramble.
pub open spec fn toggle_outcome(old: Timer, new: Timer, now: u64, logged: Option<Solve>) -> bool {
    &&& new@ == toggled(old@, now)
    &&& new.shuffle.length == old.shuffle.length
    &&& new.shuffle.error@ == old.shuffle.error@
    &&& if old.stage == Stage::Finished {
        &&& logged matches Some(s) && {
            &&& s.timestamp == old.end_time.unwrap()
            &&& s.solvetime == sat_sub(old.end_time.unwrap() as int, old.start_time.unwrap() as int)
            &&& s.shuffle@ == joined(old.shuffle.sequence@)
        }
        &&& new.shuffle.sequence@.len() == old.shuffle.length
        &&& is_scramble(new.shuffle.sequence@)
    } else {
        &&& logged.is_none()
        &&& new.shuffle.sequence@ == old.shuffle.sequence@
    }
}

/// The solve that an effect hands out for logging, if any.
pub open spec fn logged_solve(r: Effect) -> Option<Solve> {
    match r {
        Effect::LogSolve(s) => Some(s),
        _ => None,
    }
}

/// The outcome of a typed length `input` from `old` to `new`: the clock
/// stays, the scramble follows `Shuffle::generate_shuffle`.
pub open spec fn shuffle_outcome(old: Timer, new: Timer, input: Seq<char>, r: Effect) -> bool {
    &&& new@ == old@
    &&& match parsed_length(input) {
        Ok(v) => {
            &&& r == Effect::StoreLength(v)
            &&& new.shuffle.length == v
            &&& new.shuffle.error@.len() == 0
            &&& new.shuffle.sequence@.len() == v
            &&& is_scramble(new.shuffle.sequence@)
        },
        Err(LengthError::Empty) => {
            &&& r == Effect::Nothing
            &&& new.shuffle.length == old.shuffle.length
            &&& new.shuffle.error@ == old.shuffle.error@
            &&& new.shuffle.sequence@.len() == old.shuffle.length
            &&& is_scramble(new.shuffle.sequence@)
        },
        Err(e) => {
            &&& r == Effect::Nothing
            &&& new.shuffle.length == old.shuffle.length
            &&& new.shuffle.error@ == error_text(e)
            &&& new.shuffle.sequence@ == old.shuffle.sequence@
        },
    }
}

/// The outcome of a discard: the clock is idle, nothing is logged, the
/// scramble stays.
pub open spec fn discard_outcome(old: Timer, new: Timer, r: Effect) -> bool {
    &&& new@ == idle()
    &&& r == Effect::Nothing
    &&& new.shuffle.sequence@ == old.shuffle.sequence@
    &&& new.shuffle.length == old.shuffle.length
    &&& new.shuffle.error@ == old.shuffle.error@
}

/// The outcome of a tick: the clock steps, nothing else changes.
pub open spec fn tick_outcome(old: Timer, new: Timer, now: u64, r: Effect) -> bool {
    &&& new@ == ticked(old@, now)
    &&& r == Effect::Nothing
    &&& new.shuffle.sequence@ == old.shuffle.sequence@
    &&& new.shuffle.length == old.shuffle.length
    &&& new.shuffle.error@ == old.shuffle.error@
}

/// The steps of the clock keep it well formed.
pub proof fn lemma_steps_keep_wf(c: Clock, now: u64)
    requires
        c.wf(),
    ensures
        idle().wf(),
        toggled(c, now).wf(),
        ticked(c, now).wf(),
{
}

/// From the shuffle stage, one toggle starts the inspection, a second one
/// starts its countdown, and a tick once the countdown has run out moves to
/// the solve, with no start time yet.
pub proof fn lemma_inspection_runs_out(c: Clock, t1: u64, t2: u64, t3: u64)
    requires
        c.wf(),
        c.stage == Stage::Shuffle,
        t3 >= t2 + INSPECTION_TIME,
    ensures
        toggled(c, t1).stage == Stage::Inspection,
        toggled(toggled(c, t1), t2).stage == Stage::Inspection,
        toggled(toggled(c, t1), t2).start_time == Some(t2),
        ticked(toggled(toggled(c, t1), t2), t3).stage == Stage::Solve,
        ticked(toggled(toggled(c, t1), t2), t3).start_time.is_none(),
{
}

/// The turns of `items` joined by `", "`.
fn join_turns(items: &Vec<String>) -> (r: String)
    ensures
        r@ == joined(items@),
{
    let mut out = String::new();
    let mut i: usize = 0;
    while i < items.len()
        invariant
            i <= items@.len(),
            out@ == joined(items@.subrange(0, i as int)),
        decreases items@.len() - i,
    {
        let ghost p = items@.subrange(0, i + 1);
        assert(p.drop_last() =~= items@.subrange(0, i as int));
        proof {
            reveal_strlit(", ");
        }
        if i > 0 {
            out.append(", ");
        }
        assert(p.last() == items@[i as int]);
        out.append(items[i].as_str());
        assert(out@ =~= joined(p));
        i = i + 1;
    }
    assert(items@.subrange(0, i as int) =~= items@);
    out
}

fn key_is(key: &str, c: char) -> (r: bool)
    ensures
        r == (key@ == seq![c]),
{
    if key.unicode_len() != 1 {
        return false;
    }
    let k = key.get_char(0);
    assert(key@ == seq![c] <==> key@ =~= seq![c] && k == c);
    k == c
}

impl Timer {
    /// An idle timer with a fresh scramble of `length` turns.
    pub fn new(length: u64) -> (r: Self)
        ensures
            r@ == idle(),
            r.shuffle.length == length,
            r.shuffle.sequence@.len() == length,
            is_scramble(r.shuffle.sequence@),
            r.shuffle.error@.len() == 0,
    {
        Self {
            start_time: None,
            current_time: time_string(INSPECTION_TIME),
            end_time: None,
            stage: Stage::Shuffle,
            toggle_label: String::from_str("Inspect (Space)"),
            shuffle: Shuffle::new(length),
        }
    }

    /// Back to the shuffle stage, with no time kept; the scramble stays.
    pub fn reset(&mut self)
        ensures
            final(self)@ == idle(),
            final(self).shuffle == old(self).shuffle,
    {
        self.stage = Stage::Shuffle;
        self.start_time = None;
        self.end_time = None;
        self.current_time = time_string(INSPECTION_TIME);
        self.toggle_label = String::from_str("Inspect (Space)");
    }

    /// The toggle at time `now`; a finished solve is returned for logging.
    pub fn handle_toggle(&mut self, now: u64) -> (r: Option<Solve>)
        requires
            old(self)@.wf(),
        ensures
            final(self)@.wf(),
            toggle_outcome(*old(self), *final(self), now, r),
    {
        proof {
            lemma_steps_keep_wf(self@, now);
        }
        match self.stage {
            Stage::Shuffle => {
                self.stage = Stage::Inspection;
                None
            },
            Stage::Inspection => {
                if self.start_time.is_none() {
                    self.toggle_label = String::from_str("Inspecting!");
                    self.start_time = Some(now);
                }
                None
            },
            Stage::Solve => {
                if self.start_time.is_some() {
                    self.end_time = Some(now);
                    self.stage = Stage::Finished;
                    self.toggle_label = String::from_str("Log Solve (Space)");
                } else {
                    self.toggle_label = String::from_str("Stop (Space)");
                    self.start_time = Some(now);
                }
                None
            },
            Stage::Finished => {
                let end = match self.end_time {
                    Some(t) => t,
                    None => 0,
                };
                let solvetime = saturating_unwrap_sub(self.end_time, self.start_time);
                let solve = Solve::new(end, solvetime, join_turns(&self.shuffle.sequence));
                self.reset();
                self.shuffle.regenerate();
                Some(solve)
            },
        }
    }

    /// The periodic tick at time `now`.
    pub fn update_time(&mut self, now: u64)
        requires
            old(self)@.wf(),
        ensures
            final(self)@.wf(),
            final(self)@ == ticked(old(self)@, now),
            final(self).shuffle == old(self).shuffle,
    {
        proof {
            lemma_steps_keep_wf(self@, now);
        }
        match self.stage {
            Stage::Inspection => {
                if self.start_time.is_some() {
                    let res = dec_time(self.start_time, now);
                    if res == 0 {
                        self.stage = Stage::Solve;
                        self.start_time = None;
                        self.toggle_label = String::from_str("Begin (Space)");
                    }
                    self.current_time = time_string(res);
                } else {
                    self.current_time = time_string(INSPECTION_TIME);
                }
            },
            Stage::Solve => {
                if self.start_time.is_some() {
                    self.current_time = time_string(inc_time(self.start_time, now));
                } else {
                    self.current_time = time_string(0);
                }
            },
            _ => {},
        }
    }

    /// Handles one event at time `now` and says what is left to do outside.
    pub fn update(&mut self, msg: Message, now: u64) -> (r: Effect)
        requires
            old(self)@.wf(),
        ensures
            final(self)@.wf(),
            match msg {
                Message::ToggleTimer => {
                    &&& toggle_outcome(*old(self), *final(self), now, logged_solve(r))
                    &&& !(r is StoreLength)
                },
                Message::GenerateShuffle { input } => shuffle_outcome(
                    *old(self),
                    *final(self),
                    input@,
                    r,
                ),
                Message::Discard => discard_outcome(*old(self), *final(self), r),
                Message::UpdateTime => tick_outcome(*old(self), *final(self), now, r),
                Message::KeyPress { key, input } => if key_kind(key@) == 0 {
                    &&& toggle_outcome(*old(self), *final(self), now, logged_solve(r))
                    &&& !(r is StoreLength)
                } else if key_kind(key@) == 1 {
                    if old(self).stage == Stage::Shuffle {
                        shuffle_outcome(*old(self), *final(self), input@, r)
                    } else {
                        discard_outcome(*old(self), *final(self), r)
                    }
                } else {
                    *final(self) == *old(self) && r == Effect::Nothing
                },
            },
    {
        match msg {
            Message::ToggleTimer => self.toggle_effect(now),
            Message::GenerateShuffle { input } => self.shuffle_effect(input.as_str()),
            Message::Discard => {
                self.reset();
                Effect::Nothing
            },
            Message::UpdateTime => {
                self.update_time(now);
                Effect::Nothing
            },
            Message::KeyPress { key, input } => {
                if key_is(key.as_str(), ' ') {
                    self.toggle_effect(now)
                } else if key_is(key.as_str(), 'r') || key_is(key.as_str(), 'R') {
                    match self.stage {
                        Stage::Shuffle => self.shuffle_effect(input.as_str()),
                        _ => {
                            self.reset();
                            Effect::Nothing
                        },
                    }
                } else {
                    Effect::Nothing
                }
            },
        }
    }

    fn toggle_effect(&mut self, now: u64) -> (r: Effect)
        requires
            old(self)@.wf(),
        ensures
            final(self)@.wf(),
            toggle_outcome(*old(self), *final(self), now, logged_solve(r)),
            !(r is StoreLength),
    {
        match self.handle_toggle(now) {
            Some(solve) => Effect::LogSolve(solve),
            None => Effect::Nothing,
        }
    }

    fn shuffle_effect(&mut self, input: &str) -> (r: Effect)
        requires
            old(self)@.wf(),
        ensures
            final(self)@.wf(),
            shuffle_outcome(*old(self), *final(self), input@, r),
    {
        match self.shuffle.generate_shuffle(input) {
            Some(v) => Effect::StoreLength(v),
            None => Effect::Nothing,
        }
    }
}

} // verus!
