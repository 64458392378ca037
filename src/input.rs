//! Keyboard input: key names to directions.

use crate::board::Direction;
use crate::game::GameState;
use vstd::prelude::*;

verus! {

/// The lower-case form of a key name, as `str::to_lowercase` gives it.
pub uninterp spec fn lower_of(s: Seq<char>) -> Seq<char>;

/// Relies on str::to_lowercase: the result depends on the characters alone.
#[verifier::external_body]
fn lowercase(s: &str) -> (r: String)
    ensures
        r@ == lower_of(s@),
{
    s.to_lowercase()
}

/// The direction that a lower-case key name stands for, if any.
pub open spec fn lowered_key_direction(k: Seq<char>) -> Option<Direction> {
    if k == "w"@ || k == "uparrow"@ {
        Some(Direction::Up)
    } else if k == "s"@ || k == "downarrow"@ {
        Some(Direction::Down)
    } else if k == "a"@ || k == "leftarrow"@ {
        Some(Direction::Left)
    } else if k == "d"@ || k == "rightarrow"@ {
        Some(Direction::Right)
    } else {
        None
    }
}

/// Whether `a` and `b` hold the same characters.
fn same_text(a: &String, b: &str) -> (r: bool)
    ensures
        r == (a@ == b@),
{
    let t = b.to_owned();
    a.eq(&t)
}

/// The direction that the lower-case key name `k` stands for, if any.
pub fn lowered_direction(k: &str) -> (r: Option<Direction>)
    ensures
        r == lowered_key_direction(k@),
{
    let k = k.to_owned();
    if same_text(&k, "w") || same_text(&k, "uparrow") {
        Some(Direction::Up)
    } else if same_text(&k, "s") || same_text(&k, "downarrow") {
        Some(Direction::Down)
    } else if same_text(&k, "a") || same_text(&k, "leftarrow") {
        Some(Direction::Left)
    } else if same_text(&k, "d") || same_text(&k, "rightarrow") {
        Some(Direction::Right)
    } else {
        None
    }
}

/// The direction that the key name `key` stands for, in any case, if any.
pub fn key_direction(key: &str) -> (r: Option<Direction>)
    ensures
        r == lowered_key_direction(lower_of(key@)),
{
    let k = lowercase(key);
    lowered_direction(k.as_str())
}

impl GameState {
    /// Turns the snake as the key `key` asks; a key that names no direction
    /// leaves it as it is.
    pub fn press_key(&mut self, key: &str)
        ensures
            final(self).dir == match lowered_key_direction(lower_of(key@)) {
                Some(d) => d,
                None => old(self).dir,
            },
            final(self).width == old(self).width,
            final(self).height == old(self).height,
            final(self).body@ == old(self).body@,
            final(self).food == old(self).food,
            final(self).wf() == old(self).wf(),
    {
        if let Some(d) = key_direction(key) {
            self.dir = d;
        }
    }
}

} // verus!
