use vstd::prelude::*;

verus! {

/// A bounded cyclic index in `[0, N)` with modular `next`/`prev` stepping and
/// an explicit invalid sentinel (`i == -1`), used to name the corners and
/// edges of a triangle (`N == 3`).
#[derive(Debug, Clone, Copy, PartialEq, Eq)]
pub struct LocalId<const N: usize> {
    pub i: i8,
}

/// The corner/edge index type of a triangle.
pub type TriIt = LocalId<3>;

impl<const N: usize> LocalId<N> {
    /// A value is either the invalid sentinel or a real index below `N`.
    pub open spec fn wf(self) -> bool {
        -1 <= self.i < N
    }

    /// A real index below `N` (not the sentinel).
    pub open spec fn spec_valid(self) -> bool {
        0 <= self.i < N
    }

    fn ni8() -> (r: i8)
        requires
            1 <= N <= 64,
        ensures
            r as int == N as int,
    {
        N as i8
    }

    fn get_id(id: i8, offset: i8) -> (r: i8)
        requires
            1 <= N <= 64,
            0 <= id < N,
            -(N as int) <= offset <= N as int,
        ensures
            ({
                let s = id as int + offset as int;
                r as int == if s >= N as int {
                    s - N as int
                } else if s < 0 {
                    s + N as int
                } else {
                    s
                }
            }),
    {
        let n = Self::ni8();
        let s = id + offset;

        if s >= n {
            s - n
        } else if s < 0 {
            s + n
        } else {
            s
        }
    }

    pub fn new(i: i8) -> (r: Self)
        requires
            1 <= N <= 64,
            0 <= i < N,
        ensures
            r.i == i,
    {
        Self { i }
    }

    /// All real indices, in order: `0, 1, ..., N - 1`.
    pub fn range() -> (r: Vec<Self>)
        requires
            1 <= N <= 64,
        ensures
            r@.len() == N,
            forall|k: int| 0 <= k < N ==> (#[trigger] r@[k]).i == k,
    {
        let mut out: Vec<Self> = Vec::new();
        let mut k: usize = 0;
        while k < N
            invariant
                1 <= N <= 64,
                k <= N,
                out@.len() == k,
                forall|j: int| 0 <= j < k ==> (#[trigger] out@[j]).i == j,
            decreases N - k,
        {
            out.push(Self { i: k as i8 });
            k += 1;
        }
        out
    }

    pub fn make_invalid() -> (r: Self)
        ensures
            r.i == -1,
            !r.spec_valid(),
    {
        Self { i: -1 }
    }

    pub fn is_valid(self) -> (r: bool)
        requires
            self.wf(),
        ensures
            r == self.spec_valid(),
    {
        self.i >= 0
    }

    /// The index as a `usize`; calling this on the invalid sentinel is a
    /// programming error, so the sentinel is excluded up front.
    pub fn id(self) -> (r: usize)
        requires
            self.spec_valid(),
        ensures
            r == self.i as int,
    {
        self.i as usize
    }

    pub fn next(self) -> (r: Self)
        requires
            1 <= N <= 64,
            self.spec_valid(),
        ensures
            r.i as int == if self.i as int + 1 == N as int {
                0
            } else {
                self.i as int + 1
            },
            r.spec_valid(),
    {
        Self::new(Self::get_id(self.i, 1))
    }

    pub fn prev(self) -> (r: Self)
        requires
            1 <= N <= 64,
            self.spec_valid(),
        ensures
            r.i as int == if self.i as int == 0 {
                N as int - 1
            } else {
                self.i as int - 1
            },
            r.spec_valid(),
    {
        Self::new(Self::get_id(self.i, -1))
    }

    /// `next` when `sign` is true, `prev` otherwise.
    pub fn step(self, sign: bool) -> (r: Self)
        requires
            1 <= N <= 64,
            self.spec_valid(),
        ensures
            sign ==> r.i as int == if self.i as int + 1 == N as int {
                0
            } else {
                self.i as int + 1
            },
            !sign ==> r.i as int == if self.i as int == 0 {
                N as int - 1
            } else {
                self.i as int - 1
            },
            r.spec_valid(),
    {
        if sign {
            self.next()
        } else {
            self.prev()
        }
    }
}

} // verus!
