//! Synchronized traversal of three channels, pixel by pixel.

use vstd::prelude::*;
use crate::Numeric;

pub mod iter;

verus! {

/// The pixels that three channels describe together: as many as the shortest
/// channel holds samples, each with its red, green and blue sample.
pub open spec fn triples<N>(r: Seq<N>, g: Seq<N>, b: Seq<N>) -> Seq<(N, N, N)> {
    let len = if r.len() <= g.len() && r.len() <= b.len() {
        r.len()
    } else if g.len() <= b.len() {
        g.len()
    } else {
        b.len()
    };
    Seq::new(len, |i: int| (r[i], g[i], b[i]))
}

/// A forward traversal of three channels at once. Each step gives one pixel
/// as `[red, green, blue]`; the traversal ends where the shortest channel
/// ends.
pub struct Iter<'a, N: Numeric> {
    r: &'a [N],
    g: &'a [N],
    b: &'a [N],
    pos: usize,
}

impl<'a, N: Numeric> View for Iter<'a, N> {
    type V = Seq<(N, N, N)>;

    /// The pixels still to come.
    closed spec fn view(&self) -> Seq<(N, N, N)> {
        triples(self.r@, self.g@, self.b@).skip(self.pos as int)
    }
}

impl<'a, N: Numeric> Iter<'a, N> {
    #[verifier::type_invariant]
    spec fn inv(self) -> bool {
        self.pos <= triples(self.r@, self.g@, self.b@).len()
    }

    /// A traversal of the three channels from their first samples.
    pub fn new(r: &'a [N], g: &'a [N], b: &'a [N]) -> (it: Self)
        ensures
            it@ == triples(r@, g@, b@),
    {
        let it = Iter { r, g, b, pos: 0 };
        assert(it@ =~= triples(r@, g@, b@));
        it
    }

    /// The next pixel, or `None` once a channel is exhausted; from then on
    /// every call gives `None`.
    pub fn next(&mut self) -> (res: Option<[N; 3]>)
        ensures
            match res {
                Some(pixel) => {
                    &&& old(self)@.len() > 0
                    &&& (pixel[0], pixel[1], pixel[2]) == old(self)@[0]
                    &&& final(self)@ == old(self)@.skip(1)
                },
                None => old(self)@.len() == 0 && final(self)@ == old(self)@,
            },
    {
        proof {
            use_type_invariant(&*self);
        }
        let at = self.pos;
        if at < self.r.len() && at < self.g.len() && at < self.b.len() {
            let pixel = [self.r[at], self.g[at], self.b[at]];
            self.pos = at + 1;
            assert(final(self)@ =~= old(self)@.skip(1));
            Some(pixel)
        } else {
            None
        }
    }
}

} // verus!
