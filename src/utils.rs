//! Time arithmetic and the display form of durations.

use vstd::prelude::*;

verus! {

/// Length of the inspection countdown, in milliseconds.
pub const INSPECTION_TIME: u64 = 15_000;

pub const SECOND: u64 = 1_000;

pub const MINUTE: u64 = 60_000;

pub const HOUR: u64 = 3_600_000;

/// `a - b`, or zero where `b` exceeds `a`.
pub open spec fn sat_sub(a: int, b: int) -> int {
    if b > a {
        0
    } else {
        a - b
    }
}

/// Milliseconds left of the inspection that began at `start` (zero when none
/// began), seen at `now`; the end of the inspection is capped at `u64::MAX`.
pub open spec fn inspection_left(start: Option<u64>, now: u64) -> int {
    let s = start.unwrap_or(0) + INSPECTION_TIME;
    let end = if s > u64::MAX {
        u64::MAX as int
    } else {
        s
    };
    sat_sub(end, now as int)
}

/// Milliseconds elapsed since `start` (zero when none), seen at `now`.
pub open spec fn elapsed_since(start: Option<u64>, now: u64) -> int {
    sat_sub(now as int, start.unwrap_or(0) as int)
}

pub fn saturating_sub(lhs: u64, rhs: u64) -> (r: u64)
    ensures
        r == sat_sub(lhs as int, rhs as int),
{
    if rhs > lhs {
        0
    } else {
        lhs - rhs
    }
}

/// Integer division that yields zero for a zero divisor.
pub fn saturating_div(lhs: u64, rhs: u64) -> (r: u64)
    ensures
        rhs == 0 ==> r == 0,
        rhs != 0 ==> r == lhs / rhs,
{
    if rhs == 0 {
        0
    } else {
        lhs / rhs
    }
}

/// Time left of the inspection that began at `start_time`.
pub fn dec_time(start_time: Option<u64>, now: u64) -> (r: u64)
    ensures
        r == inspection_left(start_time, now),
{
    let s = match start_time {
        Some(t) => t,
        None => 0,
    };
    let end = s.saturating_add(INSPECTION_TIME);
    saturating_sub(end, now)
}

/// Time elapsed since `start_time`.
pub fn inc_time(start_time: Option<u64>, now: u64) -> (r: u64)
    ensures
        r == elapsed_since(start_time, now),
{
    let s = match start_time {
        Some(t) => t,
        None => 0,
    };
    saturating_sub(now, s)
}

/// `lhs - rhs` with a missing value read as zero, and zero where `rhs` is larger.
pub fn saturating_unwrap_sub(lhs: Option<u64>, rhs: Option<u64>) -> (r: u64)
    ensures
        r == sat_sub(lhs.unwrap_or(0) as int, rhs.unwrap_or(0) as int),
{
    let l = match lhs {
        Some(v) => v,
        None => 0,
    };
    let r = match rhs {
        Some(v) => v,
        None => 0,
    };
    saturating_sub(l, r)
}


/// The character of the decimal digit `d`.
pub open spec fn digit_char(d: nat) -> char {
    if d == 0 {
        '0'
    } else if d == 1 {
        '1'
    } else if d == 2 {
        '2'
    } else if d == 3 {
        '3'
    } else if d == 4 {
        '4'
    } else if d == 5 {
        '5'
    } else if d == 6 {
        '6'
    } else if d == 7 {
        '7'
    } else if d == 8 {
        '8'
    } else {
        '9'
    }
}

/// The decimal digits of `n`, without leading zeros.
pub open spec fn decimal(n: nat) -> Seq<char>
    decreases n,
{
    if n < 10 {
        seq![digit_char(n)]
    } else {
        decimal(n / 10) + seq![digit_char(n % 10)]
    }
}

/// The decimal digits of `n`, with a leading zero below ten.
pub open spec fn padded(n: nat) -> Seq<char> {
    if n < 10 {
        seq!['0'] + decimal(n)
    } else {
        decimal(n)
    }
}

/// `MM:SS.CC` for a duration under an hour, `HH:MM:SS.CC` from one hour on.
pub open spec fn time_text(t: nat) -> Seq<char> {
    let min = (t / MINUTE as nat) % 60;
    let sec = (t / SECOND as nat) % 60;
    let centis = (t % SECOND as nat) / 10;
    let tail = padded(min) + seq![':'] + padded(sec) + seq!['.'] + padded(centis);
    if t >= HOUR {
        padded(t / HOUR as nat) + seq![':'] + tail
    } else {
        tail
    }
}

fn digit_str(d: u64) -> (r: &'static str)
    requires
        d < 10,
    ensures
        r@ == seq![digit_char(d as nat)],
{
    if d == 0 {
        proof { reveal_strlit("0"); }
        "0"
    } else if d == 1 {
        proof { reveal_strlit("1"); }
        "1"
    } else if d == 2 {
        proof { reveal_strlit("2"); }
        "2"
    } else if d == 3 {
        proof { reveal_strlit("3"); }
        "3"
    } else if d == 4 {
        proof { reveal_strlit("4"); }
        "4"
    } else if d == 5 {
        proof { reveal_strlit("5"); }
        "5"
    } else if d == 6 {
        proof { reveal_strlit("6"); }
        "6"
    } else if d == 7 {
        proof { reveal_strlit("7"); }
        "7"
    } else if d == 8 {
        proof { reveal_strlit("8"); }
        "8"
    } else {
        proof { reveal_strlit("9"); }
        "9"
    }
}

fn push_decimal(out: &mut String, n: u64)
    ensures
        final(out)@ == old(out)@ + decimal(n as nat),
    decreases n,
{
    if n >= 10 {
        push_decimal(out, n / 10);
    }
    out.append(digit_str(n % 10));
    assert(final(out)@ =~= old(out)@ + decimal(n as nat));
}

fn push_padded(out: &mut String, n: u64)
    ensures
        final(out)@ == old(out)@ + padded(n as nat),
{
    if n < 10 {
        proof { reveal_strlit("0"); }
        out.append("0");
    }
    push_decimal(out, n);
    assert(final(out)@ =~= old(out)@ + padded(n as nat));
}

fn push_char_str(out: &mut String, s: &str)
    ensures
        final(out)@ == old(out)@ + s@,
{
    out.append(s);
}

/// Formats a duration in milliseconds as `MM:SS.CC`, or `HH:MM:SS.CC` from
/// one hour on.
pub fn time_string(time: u64) -> (r: String)
    ensures
        r@ == time_text(time as nat),
{
    let min = (time / MINUTE) % 60;
    let s = (time / SECOND) % 60;
    let ms = (time % SECOND) / 10;
    let mut out = String::new();
    if time >= HOUR {
        push_padded(&mut out, time / HOUR);
        proof { reveal_strlit(":"); }
        out.append(":");
    }
    push_padded(&mut out, min);
    proof { reveal_strlit(":"); reveal_strlit("."); }
    out.append(":");
    push_padded(&mut out, s);
    out.append(".");
    push_padded(&mut out, ms);
    assert(out@ =~= time_text(time as nat));
    out
}

/// The rows of `shuffle`, five items each, the last one shorter where the
/// length is not a multiple of five.
pub open spec fn rows_of_five(shuffle: Seq<String>, i: int) -> Seq<String> {
    let end = if 5 * i + 5 < shuffle.len() {
        5 * i + 5
    } else {
        shuffle.len() as int
    };
    shuffle.subrange(5 * i, end)
}

/// Splits the shuffle sequence into rows of five.
pub fn chunk_vec(shuffle: &Vec<String>) -> (r: Vec<Vec<String>>)
    ensures
        r@.len() == (shuffle@.len() + 4) / 5,
        forall|i: int| 0 <= i < r@.len() ==> #[trigger] r@[i]@ == rows_of_five(shuffle@, i),
{
    let n = shuffle.len();
    let mut rows: Vec<Vec<String>> = Vec::new();
    let mut start: usize = 0;
    while start < n
        invariant
            n == shuffle@.len(),
            start <= n,
            start == 5 * rows@.len() || start == n,
            rows@.len() == (start + 4) / 5,
            forall|i: int| 0 <= i < rows@.len() ==> #[trigger] rows@[i]@ == rows_of_five(shuffle@, i),
        decreases n - start,
    {
        let end: usize = if n - start > 5 { start + 5 } else { n };
        let mut row: Vec<String> = Vec::new();
        let mut j: usize = start;
        while j < end
            invariant
                start <= j <= end <= n,
                n == shuffle@.len(),
                row@ == shuffle@.subrange(start as int, j as int),
            decreases end - j,
        {
            row.push(shuffle[j].clone());
            assert(row@ =~= shuffle@.subrange(start as int, j + 1));
            j = j + 1;
        }
        assert(row@ == rows_of_five(shuffle@, rows@.len() as int));
        rows.push(row);
        start = end;
    }
    rows
}

} // verus!
