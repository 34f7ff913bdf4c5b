//! Scramble generation: a random walk over the twelve face turns in which
//! two consecutive turns never share an axis.

use rand::seq::SliceRandom;
use vstd::prelude::*;

verus! {

/// The name of turn `id`: R R' L L' F F' B B' U U' D D' for 0 to 11.
pub open spec fn turn_text(id: int) -> Seq<char> {
    let face = if id / 2 == 0 {
        'R'
    } else if id / 2 == 1 {
        'L'
    } else if id / 2 == 2 {
        'F'
    } else if id / 2 == 3 {
        'B'
    } else if id / 2 == 4 {
        'U'
    } else {
        'D'
    };
    if id % 2 == 0 {
        seq![face]
    } else {
        seq![face, '\'']
    }
}

/// The axis of a face: 0 for R and L, 1 for F and B, 2 for U and D.
pub open spec fn face_axis(c: char) -> int {
    if c == 'R' || c == 'L' {
        0
    } else if c == 'F' || c == 'B' {
        1
    } else if c == 'U' || c == 'D' {
        2
    } else {
        3
    }
}

/// A turn is a face letter, alone or followed by a prime.
pub open spec fn is_turn(t: Seq<char>) -> bool {
    &&& t.len() == 1 || (t.len() == 2 && t[1] == '\'')
    &&& face_axis(t[0]) < 3
}

/// The axis of a turn, by its face.
pub open spec fn turn_axis(t: Seq<char>) -> int {
    face_axis(t[0])
}

/// Every item is a turn and no two consecutive turns share an axis.
pub open spec fn is_scramble(s: Seq<String>) -> bool {
    &&& forall|i: int| 0 <= i < s.len() ==> is_turn(#[trigger] s[i]@)
    &&& forall|i: int|
        0 <= i < s.len() - 1 ==> turn_axis(#[trigger] s[i]@) != turn_axis(s[i + 1]@)
}

proof fn lemma_turn_text(id: int)
    requires
        0 <= id < 12,
    ensures
        is_turn(turn_text(id)),
        turn_axis(turn_text(id)) == id / 4,
{
}

/// Relies on rand's `SliceRandom::choose` over `thread_rng`: one element of a
/// non-empty slice, drawn at random.
#[verifier::external_body]
fn choose_turn(options: &Vec<u8>) -> (r: u8)
    requires
        options@.len() > 0,
    ensures
        options@.contains(r),
{
    *options.choose(&mut rand::thread_rng()).unwrap()
}

/// The name of turn `id`.
fn id_to_str(id: u8) -> (r: String)
    requires
        id < 12,
    ensures
        r@ == turn_text(id as int),
{
    let name = if id == 0 {
        proof { reveal_strlit("R"); }
        "R"
    } else if id == 1 {
        proof { reveal_strlit("R'"); }
        "R'"
    } else if id == 2 {
        proof { reveal_strlit("L"); }
        "L"
    } else if id == 3 {
        proof { reveal_strlit("L'"); }
        "L'"
    } else if id == 4 {
        proof { reveal_strlit("F"); }
        "F"
    } else if id == 5 {
        proof { reveal_strlit("F'"); }
        "F'"
    } else if id == 6 {
        proof { reveal_strlit("B"); }
        "B"
    } else if id == 7 {
        proof { reveal_strlit("B'"); }
        "B'"
    } else if id == 8 {
        proof { reveal_strlit("U"); }
        "U"
    } else if id == 9 {
        proof { reveal_strlit("U'"); }
        "U'"
    } else if id == 10 {
        proof { reveal_strlit("D"); }
        "D"
    } else {
        proof { reveal_strlit("D'"); }
        "D'"
    };
    assert(name@ =~= turn_text(id as int));
    String::from_str(name)
}

/// A turn drawn from the eight whose axis differs from that of `prev`.
fn pick_turn(prev: u8) -> (r: u8)
    requires
        prev < 12,
    ensures
        r < 12,
        r / 4 != prev / 4,
{
    let options: Vec<u8> = if prev < 4 {
        vec![4, 5, 6, 7, 8, 9, 10, 11]
    } else if 3 < prev && prev < 8 {
        vec![0, 1, 2, 3, 8, 9, 10, 11]
    } else {
        vec![0, 1, 2, 3, 4, 5, 6, 7]
    };
    choose_turn(&options)
}

/// A scramble of `length` turns: the first drawn from all twelve, each next
/// one from the eight off the axis of the one before it.
pub fn shuffler(length: u64) -> (r: Vec<String>)
    ensures
        r@.len() == length,
        is_scramble(r@),
{
    let mut sequence: Vec<String> = Vec::new();
    if length == 0 {
        return sequence;
    }
    let all: Vec<u8> = vec![0, 1, 2, 3, 4, 5, 6, 7, 8, 9, 10, 11];
    let mut last: u8 = choose_turn(&all);
    proof {
        lemma_turn_text(last as int);
    }
    sequence.push(id_to_str(last));
    let mut i: u64 = 1;
    while i < length
        invariant
            1 <= i <= length,
            last < 12,
            sequence@.len() == i,
            sequence@[i - 1]@ == turn_text(last as int),
            is_scramble(sequence@),
        decreases length - i,
    {
        let next = pick_turn(last);
        proof {
            lemma_turn_text(last as int);
            lemma_turn_text(next as int);
        }
        let ghost before = sequence@;
        sequence.push(id_to_str(next));
        assert forall|k: int| 0 <= k < sequence@.len() - 1 implies turn_axis(
            #[trigger] sequence@[k]@,
        ) != turn_axis(sequence@[k + 1]@) by {
            if k < before.len() - 1 {
                assert(sequence@[k] == before[k]);
                assert(sequence@[k + 1] == before[k + 1]);
            }
        }
        last = next;
        i = i + 1;
    }
    sequence
}

} // verus!
