use vstd::prelude::*;

use crate::matrix::Mat;

verus! {

/// Smallest bit pattern that is not a positive finite IEEE-754 double.
pub const INF_BITS: u64 = 0x7FF0_0000_0000_0000;

/// The failure kinds of this library. Every failure is fatal for the run it
/// arises in: no retry and no partial result.
#[derive(Clone, Copy, Debug, PartialEq, Eq, Structural)]
pub enum Error {
    /// A parameter is rejected before any iteration begins (`alpha` not a
    /// positive finite scalar, `duration` zero or too large to count steps),
    /// or a collaborator hands back a value of the wrong dimension.
    InvalidParameter,
    /// QR factorization of the propagated frame cannot proceed: the
    /// numerical Jacobian has become rank-deficient.
    DegenerateJacobian,
    /// The triangular solve of the backward pass cannot proceed.
    SingularSystem,
}

/// Bit patterns of the positive finite IEEE-754 doubles: the sign bit clear,
/// the exponent not saturated, and the value not zero.
pub open spec fn pos_bits(a: u64) -> bool {
    0 < a < INF_BITS
}

/// Whether `a` is the bit pattern of a positive finite scalar.
pub fn is_pos_bits(a: u64) -> (r: bool)
    ensures
        r == pos_bits(a),
{
    0 < a && a < INF_BITS
}

/// Bit pattern of the IEEE-754 double-precision value negative zero.
pub const NEG_ZERO_BITS: u64 = 0x8000_0000_0000_0000;

/// The two bit patterns of a zero scalar.
pub open spec fn is_zero_bits(a: u64) -> bool {
    a == 0 || a == NEG_ZERO_BITS
}

/// Whether `a` is the bit pattern of a zero scalar.
pub fn scalar_is_zero(a: u64) -> (r: bool)
    ensures
        r == is_zero_bits(a),
{
    a == 0 || a == NEG_ZERO_BITS
}

/// Bit patterns whose scalar is neither zero nor infinite nor undefined:
/// the exponent field is not saturated and the value is not a zero.
pub open spec fn nonzero_finite_bits(a: u64) -> bool {
    !is_zero_bits(a) && (a & INF_BITS) != INF_BITS
}

/// Whether `a` is the bit pattern of a nonzero finite scalar.
pub fn scalar_is_nonzero_finite(a: u64) -> (r: bool)
    ensures
        r == nonzero_finite_bits(a),
{
    !(a == 0 || a == NEG_ZERO_BITS) && (a & INF_BITS) != INF_BITS
}

/// A state or scalar vector, as a mathematical sequence of scalar bit
/// patterns.
pub type ScalarSeq = Seq<u64>;

/// A matrix as a mathematical sequence of columns.
pub type MatrixSeq = Seq<Seq<u64>>;

/// A discrete-time dynamical system, supplied by the caller: the
/// state-advance capability.
///
/// An implementation must be deterministic and side-effect-free from this
/// library's point of view — the library may call `advance` many times per
/// logical step, and everything it proves about the orbit rests on
/// `advance` returning exactly `advance_spec` of its argument.
pub trait TimeEvolution {
    /// The map that one application of the capability computes.
    spec fn advance_spec(&self, x: Seq<u64>) -> Seq<u64>;

    /// The scalar time step, as a bit pattern.
    spec fn dt_spec(&self) -> u64;

    /// Advance a state by one discrete step.
    fn advance(&self, x: &Vec<u64>) -> (r: Vec<u64>)
        ensures
            r@ == self.advance_spec(x@),
    ;

    /// The time step; used only to normalize exponents to per-unit-time
    /// rates.
    fn time_step(&self) -> (r: u64)
        ensures
            r == self.dt_spec(),
    ;
}

/// The state reached from `x0` by `k` applications of the capability.
pub open spec fn orbit<TEO: TimeEvolution>(teo: TEO, x0: Seq<u64>, k: nat) -> Seq<u64>
    decreases k,
{
    if k == 0 {
        x0
    } else {
        teo.advance_spec(orbit(teo, x0, (k - 1) as nat))
    }
}

/// The dense linear-algebra kernel, supplied by the caller: scalar and
/// vector arithmetic, QR factorization, triangular solve, column
/// normalization. Its choice is outside this library's scope, so nothing is
/// assumed about the numeric values it computes. Each method is bound to a
/// model spec function of the implementation, in the way `advance` is bound
/// to `advance_spec`: verified callers can thereby state their own results
/// as functions of the kernel's, while the models themselves stay
/// uninterpreted. The library still checks the dimension of every value a
/// kernel hands back.
pub trait Kernel {
    /// Model of `norm_l2`.
    spec fn norm_l2_spec(&self, v: ScalarSeq) -> u64;

    /// Model of `max_scalar`.
    spec fn max_scalar_spec(&self, a: u64, b: u64) -> u64;

    /// Model of `div_scalar`.
    spec fn div_scalar_spec(&self, a: u64, b: u64) -> u64;

    /// Model of `scale_add`.
    spec fn scale_add_spec(&self, s: u64, dx: ScalarSeq, x: ScalarSeq) -> ScalarSeq;

    /// Model of `sub_div`.
    spec fn sub_div_spec(&self, y: ScalarSeq, fx: ScalarSeq, s: u64) -> ScalarSeq;

    /// Model of `qr`: the factors, or nothing where factorization cannot
    /// proceed.
    spec fn qr_spec(&self, m: MatrixSeq) -> Option<(MatrixSeq, MatrixSeq)>;

    /// Model of `log_abs_diag`.
    spec fn log_abs_diag_spec(&self, r: MatrixSeq) -> ScalarSeq;

    /// Model of `add_vec`.
    spec fn add_vec_spec(&self, a: ScalarSeq, b: ScalarSeq) -> ScalarSeq;

    /// Model of `scale_sum`.
    spec fn scale_sum_spec(&self, sum: ScalarSeq, dt: u64, steps: usize) -> ScalarSeq;

    /// Model of `solve_upper`: the solution, or nothing where the system is
    /// singular.
    spec fn solve_upper_spec(&self, r: MatrixSeq, c: MatrixSeq) -> Option<MatrixSeq>;

    /// Model of `normalize_columns`.
    spec fn normalize_columns_spec(&self, m: MatrixSeq) -> (MatrixSeq, ScalarSeq);

    /// Model of `recip`.
    spec fn recip_spec(&self, v: ScalarSeq) -> ScalarSeq;

    /// Model of `matmul`.
    spec fn matmul_spec(&self, a: MatrixSeq, b: MatrixSeq) -> MatrixSeq;

    /// L2 norm of a vector, as a scalar.
    fn norm_l2(&self, v: &Vec<u64>) -> (r: u64)
        ensures
            r == self.norm_l2_spec(v@),
    ;

    /// The larger of two scalars.
    fn max_scalar(&self, a: u64, b: u64) -> (r: u64)
        ensures
            r == self.max_scalar_spec(a, b),
    ;

    /// The quotient of two scalars.
    fn div_scalar(&self, a: u64, b: u64) -> (r: u64)
        ensures
            r == self.div_scalar_spec(a, b),
    ;

    /// `s * dx + x`, elementwise over the scalar `s`.
    fn scale_add(&self, s: u64, dx: &Vec<u64>, x: &Vec<u64>) -> (r: Vec<u64>)
        ensures
            r@ == self.scale_add_spec(s, dx@, x@),
    ;

    /// `(y - fx) / s`, elementwise over the scalar `s`.
    fn sub_div(&self, y: &Vec<u64>, fx: &Vec<u64>, s: u64) -> (r: Vec<u64>)
        ensures
            r@ == self.sub_div_spec(y@, fx@, s),
    ;

    /// QR factorization of a square matrix: orthonormal `Q` and
    /// upper-triangular `R`, or nothing when factorization cannot proceed.
    fn qr(&self, m: &Mat) -> (r: Option<(Mat, Mat)>)
        ensures
            match r {
                Some(p) => self.qr_spec(m@) == Some((p.0@, p.1@)),
                None => self.qr_spec(m@) is None,
            },
    ;

    /// The natural logarithm of the absolute value of each diagonal entry.
    fn log_abs_diag(&self, r: &Mat) -> (d: Vec<u64>)
        ensures
            d@ == self.log_abs_diag_spec(r@),
    ;

    /// Elementwise sum of two vectors.
    fn add_vec(&self, a: &Vec<u64>, b: &Vec<u64>) -> (r: Vec<u64>)
        ensures
            r@ == self.add_vec_spec(a@, b@),
    ;

    /// `sum / (dt * steps)`, elementwise over the scalar `dt`.
    fn scale_sum(&self, sum: &Vec<u64>, dt: u64, steps: usize) -> (r: Vec<u64>)
        ensures
            r@ == self.scale_sum_spec(sum@, dt, steps),
    ;

    /// Solve the upper-triangular system `R * X = C` for `X`, or nothing
    /// when the system is singular.
    fn solve_upper(&self, r: &Mat, c: &Mat) -> (x: Option<Mat>)
        ensures
            match x {
                Some(m) => self.solve_upper_spec(r@, c@) == Some(m@),
                None => self.solve_upper_spec(r@, c@) is None,
            },
    ;

    /// Normalize each column to unit L2 norm; also return the vector of the
    /// norms the columns had.
    fn normalize_columns(&self, m: &Mat) -> (r: (Mat, Vec<u64>))
        ensures
            (r.0@, r.1@) == self.normalize_columns_spec(m@),
    ;

    /// Elementwise reciprocal.
    fn recip(&self, v: &Vec<u64>) -> (r: Vec<u64>)
        ensures
            r@ == self.recip_spec(v@),
    ;

    /// The matrix product `a * b`.
    fn matmul(&self, a: &Mat, b: &Mat) -> (r: Mat)
        ensures
            r@ == self.matmul_spec(a@, b@),
    ;
}

} // verus!
