use vstd::prelude::*;
use vstd::std_specs::convert::FromSpecImpl;

verus! {

/// A truth value that occupies one 32-bit word, so that it has the same
/// layout on every side of a buffer.
#[derive(Clone, Copy, Debug, PartialEq, Eq, Structural)]
pub struct Bool32(u32);

impl View for Bool32 {
    type V = bool;

    /// True exactly for the word 1.
    closed spec fn view(&self) -> bool {
        self.0 == 1
    }
}

impl Bool32 {
    /// The value that `new` gives for `b`.
    pub closed spec fn of(b: bool) -> Bool32 {
        if b {
            Bool32(1)
        } else {
            Bool32(0)
        }
    }

    /// The word behind the value.
    pub closed spec fn word(self) -> u32 {
        self.0
    }

    /// Whether the word is one of the two that the constructors produce.
    pub open spec fn canonical(self) -> bool {
        self.word() == 0 || self.word() == 1
    }

    /// The value for a `bool`: the word 1 for true, 0 for false.
    pub fn new(b: bool) -> (r: Bool32)
        ensures
            r == Bool32::of(b),
            r@ == b,
            r.word() == (if b { 1u32 } else { 0u32 }),
    {
        if b {
            Bool32(1)
        } else {
            Bool32(0)
        }
    }

    /// The truth value as a `bool`.
    pub fn get(self) -> (b: bool)
        ensures
            b == self@,
    {
        self.0 == 1
    }

    /// The word as stored in a buffer.
    pub fn to_word(self) -> (w: u32)
        ensures
            w == self.word(),
    {
        self.0
    }

    /// True where either is.
    pub fn or(self, other: Bool32) -> (r: Bool32)
        ensures
            r == Bool32::of(self@ || other@),
            r@ == (self@ || other@),
    {
        Bool32::new(self.get() || other.get())
    }

    /// True where `self` is not.
    pub fn not(self) -> (r: Bool32)
        ensures
            r == Bool32::of(!self@),
            r@ == !self@,
    {
        Bool32::new(!self.get())
    }
}

impl Default for Bool32 {
    fn default() -> (r: Bool32)
        ensures
            r == Bool32::of(false),
            !r@,
    {
        Bool32(0)
    }
}

impl From<bool> for Bool32 {
    fn from(b: bool) -> (r: Bool32) {
        if b {
            Bool32(1)
        } else {
            Bool32(0)
        }
    }
}

impl FromSpecImpl<bool> for Bool32 {
    open spec fn obeys_from_spec() -> bool {
        true
    }

    open spec fn from_spec(b: bool) -> Bool32 {
        Bool32::of(b)
    }
}

impl From<Bool32> for bool {
    fn from(b: Bool32) -> (r: bool) {
        b.0 == 1
    }
}

impl FromSpecImpl<Bool32> for bool {
    open spec fn obeys_from_spec() -> bool {
        true
    }

    open spec fn from_spec(b: Bool32) -> bool {
        b@
    }
}

/// `of` is the one value with the given truth and a canonical word.
pub proof fn lemma_of(b: bool)
    ensures
        Bool32::of(b)@ == b,
        Bool32::of(b).canonical(),
        Bool32::of(b).word() == (if b { 1u32 } else { 0u32 }),
{
}

} // verus!
