//! The surface cache: five fixed named surfaces, each holding a committed
//! baseline pixel buffer.  A baseline is either uninitialized (zero-length)
//! or a full RGBA buffer; the only legal mutation is full replacement.

use vstd::prelude::*;

verus! {

/// Identifies one of the five fixed raster surfaces, one per on-screen glyph.
#[derive(Clone, Copy, PartialEq, Eq, Structural, Debug)]
pub enum Letter {
    A,
    L,
    I,
    V,
    E,
}

impl Letter {
    /// Position of this surface in the fixed order A, L, I, V, E.
    pub open spec fn spec_index(self) -> int {
        match self {
            Letter::A => 0,
            Letter::L => 1,
            Letter::I => 2,
            Letter::V => 3,
            Letter::E => 4,
        }
    }

    /// The surface standing at position `k` of the fixed order.
    pub open spec fn spec_at(k: int) -> Letter {
        if k == 0 {
            Letter::A
        } else if k == 1 {
            Letter::L
        } else if k == 2 {
            Letter::I
        } else if k == 3 {
            Letter::V
        } else {
            Letter::E
        }
    }

    /// Position of this surface in the fixed order A, L, I, V, E.
    pub fn index(&self) -> (k: usize)
        ensures
            k == self.spec_index(),
            k < 5,
    {
        match self {
            Letter::A => 0,
            Letter::L => 1,
            Letter::I => 2,
            Letter::V => 3,
            Letter::E => 4,
        }
    }

    /// The surface standing at position `k` of the fixed order.
    pub fn at_index(k: usize) -> (l: Letter)
        requires
            k < 5,
        ensures
            l == Letter::spec_at(k as int),
    {
        if k == 0 {
            Letter::A
        } else if k == 1 {
            Letter::L
        } else if k == 2 {
            Letter::I
        } else if k == 3 {
            Letter::V
        } else {
            Letter::E
        }
    }
}

/// Committed baseline pixel data for the five surfaces.  Each entry is either
/// uninitialized (empty) or a full row-major RGBA buffer.  Entries are only
/// ever replaced whole, never edited in place.
pub struct Caches {
    a: Vec<u8>,
    l: Vec<u8>,
    i: Vec<u8>,
    v: Vec<u8>,
    e: Vec<u8>,
}

impl Caches {
    /// The committed baseline bytes of `letter`.
    pub closed spec fn spec_get(self, letter: Letter) -> Seq<u8> {
        match letter {
            Letter::A => self.a@,
            Letter::L => self.l@,
            Letter::I => self.i@,
            Letter::V => self.v@,
            Letter::E => self.e@,
        }
    }

    /// A fresh cache: every surface starts uninitialized.
    pub fn new() -> (c: Caches)
        ensures
            forall|l: Letter| #[trigger] c.spec_get(l) == Seq::<u8>::empty(),
    {
        let c = Caches { a: Vec::new(), l: Vec::new(), i: Vec::new(), v: Vec::new(), e: Vec::new() };
        proof {
            assert forall|l: Letter| #[trigger] c.spec_get(l) == Seq::<u8>::empty() by {
                assert(c.a@ =~= Seq::<u8>::empty());
            }
        }
        c
    }

    /// Replace the baseline of `letter` entirely; every other surface keeps
    /// its bytes.
    pub fn set_data(&mut self, letter: &Letter, img: Vec<u8>)
        ensures
            final(self).spec_get(*letter) == img@,
            forall|l: Letter| l != *letter ==> final(self).spec_get(l) == old(self).spec_get(l),
    {
        match letter {
            Letter::A => self.a = img,
            Letter::L => self.l = img,
            Letter::I => self.i = img,
            Letter::V => self.v = img,
            Letter::E => self.e = img,
        }
    }

    /// Read the baseline of `letter`.
    pub fn get_data(&self, letter: &Letter) -> (r: &Vec<u8>)
        ensures
            r@ == self.spec_get(*letter),
    {
        match letter {
            Letter::A => &self.a,
            Letter::L => &self.l,
            Letter::I => &self.i,
            Letter::V => &self.v,
            Letter::E => &self.e,
        }
    }
}

} // verus!
