use vstd::prelude::*;

verus! {

/// Bit pattern of the IEEE-754 double-precision value one.
pub const ONE_BITS: u64 = 0x3FF0_0000_0000_0000;

/// Bit pattern of the IEEE-754 double-precision value zero.
pub const ZERO_BITS: u64 = 0;

/// The identity matrix of dimension `n`, as a sequence of columns of
/// scalar bit patterns.
pub open spec fn eye_seq(n: nat) -> Seq<Seq<u64>> {
    Seq::new(n, |j: int| Seq::new(n, |i: int| if i == j { ONE_BITS } else { ZERO_BITS }))
}

/// A square matrix of scalars, stored column by column.
///
/// Each scalar is carried opaquely as the bit pattern of an IEEE-754
/// double-precision number. Every value of this type is square: each stored
/// column holds exactly as many entries as there are columns.
#[derive(Debug)]
pub struct Mat {
    cols: Vec<Vec<u64>>,
}

impl View for Mat {
    type V = Seq<Seq<u64>>;

    /// The columns of the matrix, as mathematical sequences.
    closed spec fn view(&self) -> Seq<Seq<u64>> {
        self.cols@.map(|_j: int, c: Vec<u64>| c@)
    }
}

impl Mat {
    /// The dimension: the number of columns, and of entries in each column.
    pub open spec fn n(&self) -> nat {
        self@.len()
    }

    /// Squareness: every column has as many entries as there are columns.
    pub open spec fn wf(&self) -> bool {
        forall|j: int| 0 <= j < self@.len() ==> (#[trigger] self@[j]).len() == self@.len()
    }

    #[verifier::type_invariant]
    pub open spec fn square(&self) -> bool {
        self.wf()
    }

    /// The dimension, as an executable value.
    pub fn dim(&self) -> (r: usize)
        ensures
            r == self.n(),
    {
        self.cols.len()
    }

    /// Read one column.
    pub fn col(&self, j: usize) -> (r: &Vec<u64>)
        requires
            j < self.n(),
        ensures
            r@ == self@[j as int],
    {
        &self.cols[j]
    }

    /// Assemble a matrix from its columns. Returns the matrix exactly when
    /// the given columns form a square matrix, and nothing otherwise.
    pub fn from_cols(cols: Vec<Vec<u64>>) -> (r: Option<Mat>)
        ensures
            match r {
                Some(m) => {
                    &&& m@.len() == cols@.len()
                    &&& forall|j: int| 0 <= j < cols@.len() ==> m@[j] == (#[trigger] cols@[j])@
                    &&& m.wf()
                },
                None => exists|j: int|
                    0 <= j < cols@.len() && (#[trigger] cols@[j])@.len() != cols@.len(),
            },
    {
        let n = cols.len();
        let mut j: usize = 0;
        while j < n
            invariant
                j <= n,
                n == cols@.len(),
                forall|i: int| 0 <= i < j ==> (#[trigger] cols@[i])@.len() == n,
            decreases n - j,
        {
            if cols[j].len() != n {
                return None;
            }
            j += 1;
        }
        let m = Mat { cols };
        Some(m)
    }

    /// The identity matrix: one on the diagonal, zero elsewhere, as scalar
    /// bit patterns.
    pub fn eye(n: usize) -> (m: Mat)
        ensures
            m.n() == n,
            m.wf(),
            m@ == eye_seq(n as nat),
    {
        let mut cols: Vec<Vec<u64>> = Vec::new();
        let mut j: usize = 0;
        while j < n
            invariant
                j <= n,
                cols@.len() == j,
                forall|q: int| 0 <= q < j ==> (#[trigger] cols@[q])@.len() == n,
                forall|q: int, i: int|
                    0 <= q < j && 0 <= i < n ==> #[trigger] cols@[q]@[i] == if i == q {
                        ONE_BITS
                    } else {
                        ZERO_BITS
                    },
            decreases n - j,
        {
            let mut col: Vec<u64> = Vec::new();
            let mut i: usize = 0;
            while i < n
                invariant
                    i <= n,
                    col@.len() == i,
                    forall|p: int| 0 <= p < i ==> #[trigger] col@[p] == if p == j as int {
                        ONE_BITS
                    } else {
                        ZERO_BITS
                    },
                decreases n - i,
            {
                if i == j {
                    col.push(ONE_BITS);
                } else {
                    col.push(ZERO_BITS);
                }
                i += 1;
            }
            cols.push(col);
            j += 1;
        }
        let m = Mat { cols };
        proof {
            assert(m@ =~~= eye_seq(n as nat));
        }
        m
    }
}

} // verus!
