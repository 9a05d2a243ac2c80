//! Keys and the paddle commands that they stand for.

use crate::game::Direction;
use vstd::prelude::*;

verus! {

/// The paddle command that a key stands for: the arrow keys move the right
/// paddle (paddle `1`), `j` and `k` move the left one (paddle `0`), and every
/// other key stands for nothing.
pub open spec fn command_of(key: Seq<char>) -> Option<(Direction, usize)> {
    if key == "ArrowUp"@ {
        Some((Direction::Up, 1usize))
    } else if key == "ArrowDown"@ {
        Some((Direction::Down, 1usize))
    } else if key == "j"@ {
        Some((Direction::Up, 0usize))
    } else if key == "k"@ {
        Some((Direction::Down, 0usize))
    } else {
        None
    }
}

/// Whether two strings hold the same characters.
pub fn same_text(a: &str, b: &str) -> (same: bool)
    ensures
        same == (a@ == b@),
{
    let n = a.unicode_len();
    if b.unicode_len() != n {
        return false;
    }
    let mut i: usize = 0;
    while i < n
        invariant
            n == a@.len(),
            n == b@.len(),
            i <= n,
            forall|j: int| 0 <= j < i ==> a@[j] == b@[j],
        decreases n - i,
    {
        if a.get_char(i) != b.get_char(i) {
            return false;
        }
        i += 1;
    }
    assert(a@ =~= b@);
    true
}

/// The paddle command that the key named `key` stands for, if any.
pub fn command_for_key(key: &str) -> (command: Option<(Direction, usize)>)
    ensures
        command == command_of(key@),
{
    if same_text(key, "ArrowUp") {
        Some((Direction::Up, 1))
    } else if same_text(key, "ArrowDown") {
        Some((Direction::Down, 1))
    } else if same_text(key, "j") {
        Some((Direction::Up, 0))
    } else if same_text(key, "k") {
        Some((Direction::Down, 0))
    } else {
        None
    }
}

} // verus!
