//! Stages that transform a traversal of pixels as it is pulled.

use vstd::prelude::*;
use crate::rgb::Iter;

verus! {

/// The grey value of a pixel: its red sample, unchanged. No weighting of the
/// three samples takes place.
pub open spec fn grey(pixel: (u8, u8, u8)) -> u8 {
    pixel.0
}

/// The grey value of one pixel.
pub fn grey_of(pixel: [u8; 3]) -> (value: u8)
    ensures
        value == grey((pixel[0], pixel[1], pixel[2])),
{
    pixel[0]
}

/// A traversal that reduces each pixel of another to one grey value.
pub struct Greyscale<'a> {
    iter: Iter<'a, u8>,
}

impl<'a> View for Greyscale<'a> {
    type V = Seq<u8>;

    /// The grey values still to come.
    closed spec fn view(&self) -> Seq<u8> {
        self.iter@.map_values(|pixel: (u8, u8, u8)| grey(pixel))
    }
}

impl<'a> Greyscale<'a> {
    /// The next grey value, or `None` once the pixels are exhausted.
    pub fn next(&mut self) -> (res: Option<u8>)
        ensures
            match res {
                Some(value) => {
                    &&& old(self)@.len() > 0
                    &&& value == old(self)@[0]
                    &&& final(self)@ == old(self)@.skip(1)
                },
                None => old(self)@.len() == 0 && final(self)@ == old(self)@,
            },
    {
        match self.iter.next() {
            Some(pixel) => {
                assert(final(self)@ =~= old(self)@.skip(1));
                Some(grey_of(pixel))
            },
            None => None,
        }
    }
}

impl<'a> Iter<'a, u8> {
    /// Turns a traversal of pixels into one of their grey values.
    pub fn greyscale(self) -> (it: Greyscale<'a>)
        ensures
            it@ == self@.map_values(|pixel: (u8, u8, u8)| grey(pixel)),
    {
        Greyscale { iter: self }
    }
}

} // verus!
