//! Sums, rectangles that fit into one another, and guesses within bounds.

use vstd::prelude::*;

verus! {

/// The sum of two numbers that fits the machine word.
pub fn add(left: usize, right: usize) -> (sum: usize)
    requires
        left + right <= usize::MAX,
    ensures
        sum == left + right,
{
    left + right
}

/// A rectangle with sides of whole length.
#[derive(Clone, Copy, Debug, PartialEq, Eq, Structural)]
pub struct Rectangle {
    pub width: u32,
    pub height: u32,
}

impl Rectangle {
    /// Whether `other` fits inside with room to spare on both sides.
    pub fn can_hold(&self, other: &Rectangle) -> (fits: bool)
        ensures
            fits == (self.width > other.width && self.height > other.height),
    {
        self.width > other.width && self.height > other.height
    }
}

/// A guess between 1 and 100.
#[derive(Debug)]
pub struct Guess {
    val: i32,
}

impl Guess {
    /// The number guessed.
    pub closed spec fn value(&self) -> int {
        self.val as int
    }

    /// Every guess lies between 1 and 100.
    pub closed spec fn in_bounds(&self) -> bool {
        1 <= self.val <= 100
    }

    /// The guess `val`, which must lie between 1 and 100.
    pub fn new(val: i32) -> (guess: Guess)
        requires
            1 <= val <= 100,
        ensures
            guess.value() == val,
            guess.in_bounds(),
    {
        Guess { val }
    }
}

/// Fitting inside is strict: no rectangle holds itself, and of two
/// rectangles at most one holds the other.
pub proof fn holding_is_strict(a: Rectangle, b: Rectangle)
    ensures
        !(a.width > a.width && a.height > a.height),
        !((a.width > b.width && a.height > b.height) && (b.width > a.width && b.height
            > a.height)),
{
}

} // verus!
