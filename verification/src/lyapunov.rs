use vstd::prelude::*;

use crate::evolution::{
    is_pos_bits, is_zero_bits, orbit, pos_bits, scalar_is_nonzero_finite, scalar_is_zero, Error,
    Kernel, MatrixSeq, ScalarSeq, TimeEvolution,
};
use crate::matrix::{eye_seq, Mat, ZERO_BITS};

verus! {

/// The numerical Jacobian operator at a base point: a forward
/// finite-difference approximation of directional derivatives of the
/// state-advance map, with the perturbation scaled relative to the larger of
/// the base-point and direction magnitudes.
pub struct Jacobian {
    /// The base point.
    pub x: Vec<u64>,
    /// The advanced base point, computed once at construction.
    pub fx: Vec<u64>,
    /// The perturbation scale, as a scalar bit pattern.
    pub alpha: u64,
}

/// Capabilities that can be differentiated numerically. Implemented for
/// every state-advance capability.
pub trait NumDifferentiable: TimeEvolution {
    /// Bundle the capability's map at the base point `x` into a Jacobian
    /// operator, advancing `x` once.
    fn jacobian(&self, x: Vec<u64>, alpha: u64) -> (j: Jacobian)
        ensures
            j.x@ == x@,
            j.fx@ == self.advance_spec(x@),
            j.alpha == alpha,
    ;
}

impl<TEO: TimeEvolution> NumDifferentiable for TEO {
    fn jacobian(&self, x: Vec<u64>, alpha: u64) -> (j: Jacobian) {
        let fx = self.advance(&x);
        Jacobian { x, fx, alpha }
    }
}

/// The finite-difference scale: `alpha` divided by the larger of the two L2
/// norms, over kernel models.
pub open spec fn dir_scale<K: Kernel>(kernel: K, x: ScalarSeq, alpha: u64, dx: ScalarSeq) -> u64 {
    kernel.div_scalar_spec(
        alpha,
        kernel.max_scalar_spec(kernel.norm_l2_spec(x), kernel.norm_l2_spec(dx)),
    )
}

/// The directional product at base point `x` with cached advanced point
/// `fx`: the scaled forward difference `(advance(x + s*dx) - fx) / s`, over
/// the capability's and the kernel's models.
pub open spec fn dir_product<TEO: TimeEvolution, K: Kernel>(
    teo: TEO,
    kernel: K,
    x: ScalarSeq,
    fx: ScalarSeq,
    alpha: u64,
    dx: ScalarSeq,
) -> ScalarSeq {
    let s = dir_scale(kernel, x, alpha, dx);
    kernel.sub_div_spec(teo.advance_spec(kernel.scale_add_spec(s, dx, x)), fx, s)
}

/// Where the directional product is accepted: the larger of the two norms
/// is not a zero scalar (whose quotient would be meaningless), and every
/// intermediate vector has dimension `n`.
pub open spec fn dir_defined<TEO: TimeEvolution, K: Kernel>(
    teo: TEO,
    kernel: K,
    x: ScalarSeq,
    fx: ScalarSeq,
    alpha: u64,
    dx: ScalarSeq,
    n: nat,
) -> bool {
    let s = dir_scale(kernel, x, alpha, dx);
    let xp = kernel.scale_add_spec(s, dx, x);
    &&& !is_zero_bits(kernel.max_scalar_spec(kernel.norm_l2_spec(x), kernel.norm_l2_spec(dx)))
    &&& xp.len() == n
    &&& teo.advance_spec(xp).len() == n
    &&& kernel.sub_div_spec(teo.advance_spec(xp), fx, s).len() == n
}

/// The directional product applied to every column of `q`.
pub open spec fn jac_cols<TEO: TimeEvolution, K: Kernel>(
    teo: TEO,
    kernel: K,
    x: ScalarSeq,
    fx: ScalarSeq,
    alpha: u64,
    q: MatrixSeq,
) -> MatrixSeq {
    Seq::new(q.len(), |j: int| dir_product(teo, kernel, x, fx, alpha, q[j]))
}

/// Whether the directional product is accepted on every column of `q`.
pub open spec fn jac_defined<TEO: TimeEvolution, K: Kernel>(
    teo: TEO,
    kernel: K,
    x: ScalarSeq,
    fx: ScalarSeq,
    alpha: u64,
    q: MatrixSeq,
    n: nat,
) -> bool {
    forall|j: int| 0 <= j < q.len() ==> dir_defined(teo, kernel, x, fx, alpha, #[trigger] q[j], n)
}

impl Jacobian {
    /// The operator was built from this capability: its stored advanced
    /// point is the capability's map applied to its base point.
    pub open spec fn from_teo<TEO: TimeEvolution>(&self, teo: TEO) -> bool {
        self.fx@ == teo.advance_spec(self.x@)
    }

    /// Directional product against a single direction `dx`: approximate
    /// `J(x) * dx` by one scaled forward difference of the capability.
    /// A zero perturbation scale (both norms zero) is rejected explicitly
    /// rather than divided by.
    pub fn dot_vec<TEO: TimeEvolution, K: Kernel>(
        &self,
        teo: &TEO,
        kernel: &K,
        dx: &Vec<u64>,
    ) -> (r: Result<Vec<u64>, Error>)
        requires
            self.from_teo(*teo),
            dx@.len() == self.x@.len(),
        ensures
            (r is Ok) == dir_defined(
                *teo,
                *kernel,
                self.x@,
                self.fx@,
                self.alpha,
                dx@,
                self.x@.len(),
            ),
            r matches Ok(v) ==> v@ == dir_product(*teo, *kernel, self.x@, self.fx@, self.alpha, dx@)
                && v@.len() == self.x@.len(),
            r matches Err(e) ==> e == Error::InvalidParameter,
    {
        let n = self.x.len();
        let nx = kernel.norm_l2(&self.x);
        let nd = kernel.norm_l2(dx);
        let nrm = kernel.max_scalar(nx, nd);
        if scalar_is_zero(nrm) {
            return Err(Error::InvalidParameter);
        }
        let s = kernel.div_scalar(self.alpha, nrm);
        let xp = kernel.scale_add(s, dx, &self.x);
        if xp.len() != n {
            return Err(Error::InvalidParameter);
        }
        let y = teo.advance(&xp);
        if y.len() != n {
            return Err(Error::InvalidParameter);
        }
        let out = kernel.sub_div(&y, &self.fx, s);
        if out.len() != n {
            return Err(Error::InvalidParameter);
        }
        Ok(out)
    }

    /// Directional product against a matrix of column directions: the
    /// vector product applied to each column independently, reassembled
    /// column-wise.
    pub fn dot_mat<TEO: TimeEvolution, K: Kernel>(
        &self,
        teo: &TEO,
        kernel: &K,
        q: &Mat,
    ) -> (r: Result<Mat, Error>)
        requires
            self.from_teo(*teo),
            q.n() == self.x@.len(),
        ensures
            (r is Ok) == jac_defined(
                *teo,
                *kernel,
                self.x@,
                self.fx@,
                self.alpha,
                q@,
                self.x@.len(),
            ),
            r matches Ok(m) ==> m@ == jac_cols(*teo, *kernel, self.x@, self.fx@, self.alpha, q@)
                && m.n() == self.x@.len(),
            r matches Err(e) ==> e == Error::InvalidParameter,
    {
        let n = self.x.len();
        proof {
            use_type_invariant(q);
        }
        let mut cols: Vec<Vec<u64>> = Vec::new();
        let mut j: usize = 0;
        while j < n
            invariant
                j <= n,
                n == self.x@.len(),
                q.n() == n,
                q.wf(),
                self.from_teo(*teo),
                cols@.len() == j,
                forall|i: int| 0 <= i < j ==> (#[trigger] cols@[i])@.len() == n,
                forall|i: int|
                    0 <= i < j ==> dir_defined(
                        *teo,
                        *kernel,
                        self.x@,
                        self.fx@,
                        self.alpha,
                        #[trigger] q@[i],
                        n as nat,
                    ),
                forall|i: int|
                    0 <= i < j ==> (#[trigger] cols@[i])@ == dir_product(
                        *teo,
                        *kernel,
                        self.x@,
                        self.fx@,
                        self.alpha,
                        q@[i],
                    ),
            decreases n - j,
        {
            let cj = q.col(j);
            let v = match self.dot_vec(teo, kernel, cj) {
                Ok(v) => v,
                Err(e) => {
                    return Err(e);
                },
            };
            proof {
                assert(cj@ == q@[j as int]);
            }
            cols.push(v);
            j += 1;
        }
        let ghost gcols = cols@;
        match Mat::from_cols(cols) {
            Some(m) => {
                proof {
                    assert forall|i: int| 0 <= i < n implies #[trigger] m@[i] == dir_product(
                        *teo,
                        *kernel,
                        self.x@,
                        self.fx@,
                        self.alpha,
                        q@[i],
                    ) by {
                        assert(m@[i] == (gcols[i])@);
                        assert((gcols[i])@ == dir_product(
                            *teo,
                            *kernel,
                            self.x@,
                            self.fx@,
                            self.alpha,
                            q@[i],
                        ));
                    }
                    assert(m@ =~~= jac_cols(*teo, *kernel, self.x@, self.fx@, self.alpha, q@));
                }
                Ok(m)
            },
            None => {
                proof {
                    assert(false);
                }
                Err(Error::InvalidParameter)
            },
        }
    }
}

/// How many initial steps are discarded from averaging, for a run of
/// `duration` averaged steps: the burn-in, one tenth of the duration.
pub open spec fn burn_in(duration: nat) -> nat {
    duration / 10
}

/// The views of a sequence of retained forward-pass triples.
pub open spec fn fwd_views(s: Seq<(Vec<u64>, Mat, Mat)>) -> Seq<(ScalarSeq, MatrixSeq, MatrixSeq)> {
    Seq::new(s.len(), |i: int| (s[i].0@, s[i].1@, s[i].2@))
}

/// The views of a sequence of emitted covariant-vector records.
pub open spec fn rec_views(s: Seq<(Vec<u64>, Mat, Vec<u64>)>) -> Seq<(ScalarSeq, MatrixSeq, ScalarSeq)> {
    Seq::new(s.len(), |i: int| (s[i].0@, s[i].1@, s[i].2@))
}

/// A vector of `n` zero scalars.
pub open spec fn zero_seq(n: nat) -> ScalarSeq {
    Seq::new(n, |i: int| ZERO_BITS)
}

/// Whether every diagonal entry of `r` is a nonzero finite scalar: where
/// one is zero, infinite or undefined, the factored matrix was numerically
/// rank-deficient.
pub open spec fn diag_nonzero_finite(r: MatrixSeq) -> bool {
    forall|j: int| 0 <= j < r.len() ==> crate::evolution::nonzero_finite_bits(#[trigger] r[j][j])
}

/// One forward step of the Benettin loop at state `x` with frame `q`:
/// multiply the frame by the numerical Jacobian column by column,
/// QR-factorize, and hand back the advanced state, the new frame and the
/// triangular factor. Failures mirror the library's checks: a dimension
/// fault is `InvalidParameter`; a declined factorization, or a triangular
/// factor whose diagonal holds a zero or non-finite scalar, is
/// `DegenerateJacobian`.
pub open spec fn fwd_step<TEO: TimeEvolution, K: Kernel>(
    teo: TEO,
    kernel: K,
    alpha: u64,
    n: nat,
    x: ScalarSeq,
    q: MatrixSeq,
) -> Result<(ScalarSeq, MatrixSeq, MatrixSeq), Error> {
    let fx = teo.advance_spec(x);
    if fx.len() != n {
        Err(Error::InvalidParameter)
    } else if !jac_defined(teo, kernel, x, fx, alpha, q, n) {
        Err(Error::InvalidParameter)
    } else {
        match kernel.qr_spec(jac_cols(teo, kernel, x, fx, alpha, q)) {
            None => Err(Error::DegenerateJacobian),
            Some(p) => if p.0.len() != n || p.1.len() != n {
                Err(Error::InvalidParameter)
            } else if !diag_nonzero_finite(p.1) {
                Err(Error::DegenerateJacobian)
            } else {
                Ok((fx, p.0, p.1))
            },
        }
    }
}

/// The forward pass after `k` steps from `x0` with the identity frame: the
/// current state, the current frame, and one `(state, frame before the
/// step, triangular factor)` triple per step taken.
pub open spec fn fwd<TEO: TimeEvolution, K: Kernel>(
    teo: TEO,
    kernel: K,
    x0: ScalarSeq,
    alpha: u64,
    n: nat,
    k: nat,
) -> Result<(ScalarSeq, MatrixSeq, Seq<(ScalarSeq, MatrixSeq, MatrixSeq)>), Error>
    decreases k,
{
    if k == 0 {
        Ok((x0, eye_seq(n), Seq::empty()))
    } else {
        match fwd(teo, kernel, x0, alpha, n, (k - 1) as nat) {
            Err(e) => Err(e),
            Ok(st) => match fwd_step(teo, kernel, alpha, n, st.0, st.1) {
                Err(e) => Err(e),
                Ok(sp) => Ok((sp.0, sp.1, st.2.push((st.0, st.1, sp.2)))),
            },
        }
    }
}

/// A forward-pass failure at `k` steps persists at every later step count.
proof fn lemma_fwd_err<TEO: TimeEvolution, K: Kernel>(
    teo: TEO,
    kernel: K,
    x0: ScalarSeq,
    alpha: u64,
    n: nat,
    k: nat,
    m: nat,
)
    requires
        k <= m,
        fwd(teo, kernel, x0, alpha, n, k) is Err,
    ensures
        fwd(teo, kernel, x0, alpha, n, m) == fwd(teo, kernel, x0, alpha, n, k),
    decreases m,
{
    if m > k {
        lemma_fwd_err(teo, kernel, x0, alpha, n, k, (m - 1) as nat);
    }
}

/// The Benettin accumulation after `k` steps: the forward pass, where each
/// step past the burn-in also adds the logarithms of the triangular
/// factor's diagonal into the running sum.
pub open spec fn benettin<TEO: TimeEvolution, K: Kernel>(
    teo: TEO,
    kernel: K,
    x0: ScalarSeq,
    alpha: u64,
    n: nat,
    burn: nat,
    k: nat,
) -> Result<(ScalarSeq, MatrixSeq, ScalarSeq), Error>
    decreases k,
{
    if k == 0 {
        Ok((x0, eye_seq(n), zero_seq(n)))
    } else {
        match benettin(teo, kernel, x0, alpha, n, burn, (k - 1) as nat) {
            Err(e) => Err(e),
            Ok(st) => match fwd_step(teo, kernel, alpha, n, st.0, st.1) {
                Err(e) => Err(e),
                Ok(sp) => if k - 1 >= burn {
                    let d = kernel.log_abs_diag_spec(sp.2);
                    if d.len() != n {
                        Err(Error::InvalidParameter)
                    } else {
                        let s2 = kernel.add_vec_spec(st.2, d);
                        if s2.len() != n {
                            Err(Error::InvalidParameter)
                        } else {
                            Ok((sp.0, sp.1, s2))
                        }
                    }
                } else {
                    Ok((sp.0, sp.1, st.2))
                },
            },
        }
    }
}

/// A Benettin failure at `k` steps persists at every later step count.
proof fn lemma_benettin_err<TEO: TimeEvolution, K: Kernel>(
    teo: TEO,
    kernel: K,
    x0: ScalarSeq,
    alpha: u64,
    n: nat,
    burn: nat,
    k: nat,
    m: nat,
)
    requires
        k <= m,
        benettin(teo, kernel, x0, alpha, n, burn, k) is Err,
    ensures
        benettin(teo, kernel, x0, alpha, n, burn, m) == benettin(teo, kernel, x0, alpha, n, burn, k),
    decreases m,
{
    if m > k {
        lemma_benettin_err(teo, kernel, x0, alpha, n, burn, k, (m - 1) as nat);
    }
}

/// What `exponents` returns on validated parameters: run the Benettin
/// accumulation over burn-in plus `duration` steps, then divide the sum by
/// the time step times `duration`.
pub open spec fn exponents_model<TEO: TimeEvolution, K: Kernel>(
    teo: TEO,
    kernel: K,
    x0: ScalarSeq,
    alpha: u64,
    duration: usize,
) -> Result<ScalarSeq, Error> {
    let n = x0.len();
    let b = burn_in(duration as nat);
    match benettin(teo, kernel, x0, alpha, n, b, b + duration as nat) {
        Err(e) => Err(e),
        Ok(st) => {
            let out = kernel.scale_sum_spec(st.2, teo.dt_spec(), duration);
            if out.len() != n {
                Err(Error::InvalidParameter)
            } else {
                Ok(out)
            }
        },
    }
}

/// All Lyapunov exponents of the system, by the Benettin algorithm: drive
/// the orbit from `x0`, repeatedly multiply an orthonormal frame by the
/// numerical Jacobian, re-orthonormalize by QR, accumulate the logarithms of
/// the triangular factor's diagonal over the `duration` steps after burn-in,
/// and normalize by `duration` times the time step.
///
/// On validated parameters the result is exactly [`exponents_model`]:
/// `Error::InvalidParameter` when `duration` is zero, when `alpha` is not a
/// positive finite scalar, when the step count overflows the machine, or
/// when a collaborator hands back a value of the wrong dimension (the state
/// dimension is probed before the loop begins);
/// `Error::DegenerateJacobian` when a QR factorization declines or yields a
/// triangular factor with a zero or non-finite diagonal entry.
pub fn exponents<TEO: TimeEvolution, K: Kernel>(
    teo: &TEO,
    kernel: &K,
    x0: Vec<u64>,
    alpha: u64,
    duration: usize,
) -> (r: Result<Vec<u64>, Error>)
    ensures
        duration == 0 || !pos_bits(alpha) ==> r == Err::<Vec<u64>, Error>(Error::InvalidParameter),
        duration > 0 && pos_bits(alpha) && duration + burn_in(duration as nat) > usize::MAX ==> r
            == Err::<Vec<u64>, Error>(Error::InvalidParameter),
        duration > 0 && pos_bits(alpha) && duration + burn_in(duration as nat) <= usize::MAX
            ==> match exponents_model(*teo, *kernel, x0@, alpha, duration) {
            Ok(v) => r matches Ok(rv) && rv@ == v,
            Err(e) => r == Err::<Vec<u64>, Error>(e),
        },
        duration > 0 && pos_bits(alpha) && duration + burn_in(duration as nat) <= usize::MAX
            && teo.advance_spec(x0@).len() != x0@.len() ==> r == Err::<Vec<u64>, Error>(
            Error::InvalidParameter,
        ),
        r matches Ok(v) ==> v@.len() == x0@.len() && duration > 0 && pos_bits(alpha),
        r matches Err(e) ==> e == Error::InvalidParameter || e == Error::DegenerateJacobian,
{
    if duration == 0 || !is_pos_bits(alpha) {
        return Err(Error::InvalidParameter);
    }
    let ghost x0s = x0@;
    let n = x0.len();
    let burn = duration / 10;
    if duration > usize::MAX - burn {
        return Err(Error::InvalidParameter);
    }
    let total = burn + duration;
    let mut x = x0;
    // Probe the capability's dimension eagerly, before any iteration.
    let probe = teo.advance(&x);
    if probe.len() != n {
        proof {
            assert(benettin(*teo, *kernel, x0s, alpha, n as nat, burn as nat, 0nat) is Ok);
            assert(benettin(*teo, *kernel, x0s, alpha, n as nat, burn as nat, 1nat) == Err::<
                (ScalarSeq, MatrixSeq, ScalarSeq),
                Error,
            >(Error::InvalidParameter));
            lemma_benettin_err(*teo, *kernel, x0s, alpha, n as nat, burn as nat, 1nat, total as nat);
        }
        return Err(Error::InvalidParameter);
    }
    let mut q = Mat::eye(n);
    let mut sum = zero_vec(n);
    let mut step: usize = 0;
    while step < total
        invariant
            duration > 0,
            pos_bits(alpha),
            x0s == x0@,
            n == x0s.len(),
            burn == burn_in(duration as nat),
            total == burn + duration,
            step <= total,
            teo.advance_spec(x0s).len() == n,
            benettin(*teo, *kernel, x0s, alpha, n as nat, burn as nat, step as nat) == Ok::<
                (ScalarSeq, MatrixSeq, ScalarSeq),
                Error,
            >((x@, q@, sum@)),
            x@.len() == n,
            q.n() == n,
            sum@.len() == n,
        decreases total - step,
    {
        let ghost prev = (x@, q@, sum@);
        let j = teo.jacobian(x, alpha);
        if j.fx.len() != n {
            proof {
                lemma_benettin_err(
                    *teo,
                    *kernel,
                    x0s,
                    alpha,
                    n as nat,
                    burn as nat,
                    (step + 1) as nat,
                    total as nat,
                );
            }
            return Err(Error::InvalidParameter);
        }
        let jq = match j.dot_mat(teo, kernel, &q) {
            Ok(m) => m,
            Err(e) => {
                proof {
                    lemma_benettin_err(
                        *teo,
                        *kernel,
                        x0s,
                        alpha,
                        n as nat,
                        burn as nat,
                        (step + 1) as nat,
                        total as nat,
                    );
                }
                return Err(e);
            },
        };
        let (q_next, r_mat) = match kernel.qr(&jq) {
            Some(p) => p,
            None => {
                proof {
                    lemma_benettin_err(
                        *teo,
                        *kernel,
                        x0s,
                        alpha,
                        n as nat,
                        burn as nat,
                        (step + 1) as nat,
                        total as nat,
                    );
                }
                return Err(Error::DegenerateJacobian);
            },
        };
        if q_next.dim() != n || r_mat.dim() != n {
            proof {
                lemma_benettin_err(
                    *teo,
                    *kernel,
                    x0s,
                    alpha,
                    n as nat,
                    burn as nat,
                    (step + 1) as nat,
                    total as nat,
                );
            }
            return Err(Error::InvalidParameter);
        }
        if !diag_all_nonzero_finite(&r_mat) {
            proof {
                lemma_benettin_err(
                    *teo,
                    *kernel,
                    x0s,
                    alpha,
                    n as nat,
                    burn as nat,
                    (step + 1) as nat,
                    total as nat,
                );
            }
            return Err(Error::DegenerateJacobian);
        }
        if step >= burn {
            let d = kernel.log_abs_diag(&r_mat);
            if d.len() != n {
                proof {
                    lemma_benettin_err(
                        *teo,
                        *kernel,
                        x0s,
                        alpha,
                        n as nat,
                        burn as nat,
                        (step + 1) as nat,
                        total as nat,
                    );
                }
                return Err(Error::InvalidParameter);
            }
            let s2 = kernel.add_vec(&sum, &d);
            if s2.len() != n {
                proof {
                    lemma_benettin_err(
                        *teo,
                        *kernel,
                        x0s,
                        alpha,
                        n as nat,
                        burn as nat,
                        (step + 1) as nat,
                        total as nat,
                    );
                }
                return Err(Error::InvalidParameter);
            }
            sum = s2;
        }
        let Jacobian { x: _, fx, alpha: _ } = j;
        x = fx;
        q = q_next;
        step += 1;
        proof {
            assert(benettin(*teo, *kernel, x0s, alpha, n as nat, burn as nat, step as nat) == Ok::<
                (ScalarSeq, MatrixSeq, ScalarSeq),
                Error,
            >((x@, q@, sum@)));
        }
    }
    let dt = teo.time_step();
    let out = kernel.scale_sum(&sum, dt, duration);
    if out.len() != n {
        return Err(Error::InvalidParameter);
    }
    Ok(out)
}

/// Whether every diagonal entry of the square matrix is a nonzero finite
/// scalar.
fn diag_all_nonzero_finite(r: &Mat) -> (ok: bool)
    ensures
        ok == diag_nonzero_finite(r@),
{
    proof {
        use_type_invariant(r);
    }
    let n = r.dim();
    let mut j: usize = 0;
    let mut ok = true;
    while j < n
        invariant
            j <= n,
            n == r.n(),
            r.wf(),
            ok == forall|t: int|
                0 <= t < j ==> crate::evolution::nonzero_finite_bits(#[trigger] r@[t][t]),
        decreases n - j,
    {
        let e = r.col(j)[j];
        if !scalar_is_nonzero_finite(e) {
            ok = false;
        }
        j += 1;
    }
    ok
}

/// A vector of `n` zero scalars, as bit patterns.
fn zero_vec(n: usize) -> (r: Vec<u64>)
    ensures
        r@.len() == n,
        r@ == zero_seq(n as nat),
{
    let mut v: Vec<u64> = Vec::new();
    let mut i: usize = 0;
    while i < n
        invariant
            i <= n,
            v@.len() == i,
            forall|p: int| 0 <= p < i ==> v@[p] == ZERO_BITS,
        decreases n - i,
    {
        v.push(ZERO_BITS);
        i += 1;
    }
    proof {
        assert(v@ =~= zero_seq(n as nat));
    }
    v
}

/// One backward step of Ginelli's method over models: solve the
/// upper-triangular system `R * C_now = C`, normalize the columns of
/// `C_now`, and return `C_now` beside the elementwise reciprocals of the
/// pre-normalization column norms. A declined solve is `SingularSystem`; a
/// dimension fault is `InvalidParameter`.
pub open spec fn bwd_step<K: Kernel>(kernel: K, c: MatrixSeq, r: MatrixSeq, n: nat) -> Result<
    (MatrixSeq, ScalarSeq),
    Error,
> {
    match kernel.solve_upper_spec(r, c) {
        None => Err(Error::SingularSystem),
        Some(cd) => if cd.len() != n {
            Err(Error::InvalidParameter)
        } else {
            let p = kernel.normalize_columns_spec(cd);
            if p.0.len() != n || p.1.len() != n {
                Err(Error::InvalidParameter)
            } else {
                let f = kernel.recip_spec(p.1);
                if f.len() != n {
                    Err(Error::InvalidParameter)
                } else {
                    Ok((p.0, f))
                }
            }
        },
    }
}

/// The backward pass over the retained `(state, frame, factor)` triples,
/// walked from the latest to the earliest with coefficient matrix `c`:
/// the emitted `(state, covariant-vector matrix, growth-rate reciprocals)`
/// records, latest first.
pub open spec fn bwd<K: Kernel>(
    kernel: K,
    recs: Seq<(ScalarSeq, MatrixSeq, MatrixSeq)>,
    c: MatrixSeq,
    n: nat,
) -> Result<Seq<(ScalarSeq, MatrixSeq, ScalarSeq)>, Error>
    decreases recs.len(),
{
    if recs.len() == 0 {
        Ok(Seq::empty())
    } else {
        let t = recs.last();
        match bwd_step(kernel, c, t.2, n) {
            Err(e) => Err(e),
            Ok(p) => {
                let v = kernel.matmul_spec(t.1, p.0);
                if v.len() != n {
                    Err(Error::InvalidParameter)
                } else {
                    match bwd(kernel, recs.drop_last(), p.0, n) {
                        Err(e) => Err(e),
                        Ok(rest) => Ok(seq![(t.0, v, p.1)] + rest),
                    }
                }
            },
        }
    }
}

/// One backward step of Ginelli's method: solve the upper-triangular system
/// `R * C_now = C`, normalize the columns of `C_now`, and return `C_now`
/// beside the elementwise reciprocals of the pre-normalization column
/// norms. The result is exactly [`bwd_step`] of the kernel's models.
fn clv_backward<K: Kernel>(kernel: &K, c: &Mat, r: &Mat) -> (res: Result<(Mat, Vec<u64>), Error>)
    ensures
        match res {
            Ok(p) => bwd_step(*kernel, c@, r@, c.n()) == Ok::<(MatrixSeq, ScalarSeq), Error>(
                (p.0@, p.1@),
            ) && p.0.n() == c.n() && p.1@.len() == c.n(),
            Err(e) => bwd_step(*kernel, c@, r@, c.n()) == Err::<(MatrixSeq, ScalarSeq), Error>(e),
        },
{
    let n = c.dim();
    let cd = match kernel.solve_upper(r, c) {
        Some(m) => m,
        None => {
            return Err(Error::SingularSystem);
        },
    };
    if cd.dim() != n {
        return Err(Error::InvalidParameter);
    }
    let (c_now, d) = kernel.normalize_columns(&cd);
    if c_now.dim() != n || d.len() != n {
        return Err(Error::InvalidParameter);
    }
    let f = kernel.recip(&d);
    if f.len() != n {
        return Err(Error::InvalidParameter);
    }
    Ok((c_now, f))
}

/// What `clv` returns on validated parameters: run the forward pass over
/// `duration` plus two burn-in margins of steps, keep the triples past the
/// leading burn-in, run the backward pass from the identity coefficient
/// matrix, and keep the emitted records past the trailing margin, restored
/// to chronological order.
pub open spec fn clv_model<TEO: TimeEvolution, K: Kernel>(
    teo: TEO,
    kernel: K,
    x0: ScalarSeq,
    alpha: u64,
    duration: usize,
) -> Result<Seq<(ScalarSeq, MatrixSeq, ScalarSeq)>, Error> {
    let n = x0.len();
    let b = burn_in(duration as nat);
    match fwd(teo, kernel, x0, alpha, n, b + duration as nat + b) {
        Err(e) => Err(e),
        Ok(st) => {
            let kept = st.2.subrange(b as int, b + duration + b);
            match bwd(kernel, kept, eye_seq(n), n) {
                Err(e) => Err(e),
                Ok(em) => Ok(Seq::new(duration as nat, |i: int| em[kept.len() - 1 - i])),
            }
        },
    }
}

/// Covariant Lyapunov vectors of the system, by Ginelli's two-pass method.
///
/// The forward pass is the Benettin loop over `duration` plus two burn-in
/// margins of steps, retaining every (state, frame, triangular factor)
/// triple past the leading burn-in; the backward pass walks the retained
/// triples in reverse, solving one upper-triangular system per step, and
/// the trailing margin is trimmed away. This is memory-heavy: the whole
/// retained series is materialized.
///
/// On validated parameters the result is exactly [`clv_model`]: exactly
/// `duration` records in chronological order, record `i` holding the orbit
/// state after burn-in plus `i` steps, the covariant-vector matrix and the
/// growth-rate reciprocals that the backward pass assigns to that state.
/// Errors are as for [`exponents`], and additionally
/// `Error::SingularSystem` when a backward triangular solve declines.
#[verifier::rlimit(100)]
pub fn clv<TEO: TimeEvolution, K: Kernel>(
    teo: &TEO,
    kernel: &K,
    x0: Vec<u64>,
    alpha: u64,
    duration: usize,
) -> (r: Result<Vec<(Vec<u64>, Mat, Vec<u64>)>, Error>)
    ensures
        duration == 0 || !pos_bits(alpha) ==> r == Err::<Vec<(Vec<u64>, Mat, Vec<u64>)>, Error>(
            Error::InvalidParameter,
        ),
        duration > 0 && pos_bits(alpha) && duration + 2 * burn_in(duration as nat) > usize::MAX
            ==> r == Err::<Vec<(Vec<u64>, Mat, Vec<u64>)>, Error>(Error::InvalidParameter),
        duration > 0 && pos_bits(alpha) && duration + 2 * burn_in(duration as nat) <= usize::MAX
            ==> match clv_model(*teo, *kernel, x0@, alpha, duration) {
            Err(e) => r == Err::<Vec<(Vec<u64>, Mat, Vec<u64>)>, Error>(e),
            Ok(em) => r matches Ok(recs) && recs@.len() == duration && forall|i: int|
                0 <= i < duration ==> ((#[trigger] recs@[i]).0@, recs@[i].1@, recs@[i].2@) == em[i],
        },
        duration > 0 && pos_bits(alpha) && duration + 2 * burn_in(duration as nat) <= usize::MAX
            && teo.advance_spec(x0@).len() != x0@.len() ==> r == Err::<
            Vec<(Vec<u64>, Mat, Vec<u64>)>,
            Error,
        >(Error::InvalidParameter),
        r matches Ok(recs) ==> {
            &&& recs@.len() == duration
            &&& forall|i: int|
                0 <= i < duration ==> {
                    &&& (#[trigger] recs@[i]).0@ == orbit(
                        *teo,
                        x0@,
                        (burn_in(duration as nat) + i) as nat,
                    )
                    &&& recs@[i].0@.len() == x0@.len()
                    &&& recs@[i].1.n() == x0@.len()
                    &&& recs@[i].2@.len() == x0@.len()
                }
            &&& duration > 0
            &&& pos_bits(alpha)
        },
        r matches Err(e) ==> e == Error::InvalidParameter || e == Error::DegenerateJacobian || e
            == Error::SingularSystem,
{
    if duration == 0 || !is_pos_bits(alpha) {
        return Err(Error::InvalidParameter);
    }
    let ghost x0s = x0@;
    let n = x0.len();
    let burn = duration / 10;
    if duration > usize::MAX - burn {
        return Err(Error::InvalidParameter);
    }
    let keep = duration + burn;
    if keep > usize::MAX - burn {
        return Err(Error::InvalidParameter);
    }
    let total = burn + keep;
    let mut x = x0;
    // Probe the capability's dimension eagerly, before any iteration.
    let probe = teo.advance(&x);
    if probe.len() != n {
        proof {
            assert(fwd(*teo, *kernel, x0s, alpha, n as nat, 0nat) is Ok);
            assert(fwd(*teo, *kernel, x0s, alpha, n as nat, 1nat) == Err::<
                (ScalarSeq, MatrixSeq, Seq<(ScalarSeq, MatrixSeq, MatrixSeq)>),
                Error,
            >(Error::InvalidParameter));
            lemma_fwd_err(*teo, *kernel, x0s, alpha, n as nat, 1nat, total as nat);
        }
        return Err(Error::InvalidParameter);
    }
    let mut q = Mat::eye(n);
    let mut records: Vec<(Vec<u64>, Mat, Mat)> = Vec::new();
    let ghost mut grecs: Seq<(ScalarSeq, MatrixSeq, MatrixSeq)> = Seq::empty();
    let mut step: usize = 0;
    while step < total
        invariant
            duration > 0,
            pos_bits(alpha),
            x0s == x0@,
            n == x0s.len(),
            burn == burn_in(duration as nat),
            keep == duration + burn,
            total == burn + keep,
            step <= total,
            teo.advance_spec(x0s).len() == n,
            fwd(*teo, *kernel, x0s, alpha, n as nat, step as nat) == Ok::<
                (ScalarSeq, MatrixSeq, Seq<(ScalarSeq, MatrixSeq, MatrixSeq)>),
                Error,
            >((x@, q@, grecs)),
            grecs.len() == step,
            x@ == orbit(*teo, x0s, step as nat),
            x@.len() == n,
            q.n() == n,
            records@.len() == if step >= burn {
                step - burn
            } else {
                0
            },
            fwd_views(records@) == grecs.subrange(
                if step >= burn {
                    burn as int
                } else {
                    step as int
                },
                step as int,
            ),
            forall|i: int|
                0 <= i < records@.len() ==> {
                    &&& (#[trigger] records@[i]).0@ == orbit(*teo, x0s, (burn + i) as nat)
                    &&& records@[i].0@.len() == n
                    &&& records@[i].1.n() == n
                    &&& records@[i].2.n() == n
                },
        decreases total - step,
    {
        let j = teo.jacobian(x, alpha);
        if j.fx.len() != n {
            proof {
                lemma_fwd_err(*teo, *kernel, x0s, alpha, n as nat, (step + 1) as nat, total as nat);
            }
            return Err(Error::InvalidParameter);
        }
        let jq = match j.dot_mat(teo, kernel, &q) {
            Ok(m) => m,
            Err(e) => {
                proof {
                    lemma_fwd_err(
                        *teo,
                        *kernel,
                        x0s,
                        alpha,
                        n as nat,
                        (step + 1) as nat,
                        total as nat,
                    );
                }
                return Err(e);
            },
        };
        let (q_next, r_mat) = match kernel.qr(&jq) {
            Some(p) => p,
            None => {
                proof {
                    lemma_fwd_err(
                        *teo,
                        *kernel,
                        x0s,
                        alpha,
                        n as nat,
                        (step + 1) as nat,
                        total as nat,
                    );
                }
                return Err(Error::DegenerateJacobian);
            },
        };
        if q_next.dim() != n || r_mat.dim() != n {
            proof {
                lemma_fwd_err(*teo, *kernel, x0s, alpha, n as nat, (step + 1) as nat, total as nat);
            }
            return Err(Error::InvalidParameter);
        }
        if !diag_all_nonzero_finite(&r_mat) {
            proof {
                lemma_fwd_err(*teo, *kernel, x0s, alpha, n as nat, (step + 1) as nat, total as nat);
            }
            return Err(Error::DegenerateJacobian);
        }
        let Jacobian { x: x_here, fx, alpha: _ } = j;
        let ghost old_grecs = grecs;
        let ghost old_records = records@;
        proof {
            grecs = grecs.push((x_here@, q@, r_mat@));
        }
        if step >= burn {
            records.push((x_here, q, r_mat));
        }
        x = fx;
        q = q_next;
        step += 1;
        proof {
            assert(fwd(*teo, *kernel, x0s, alpha, n as nat, step as nat) == Ok::<
                (ScalarSeq, MatrixSeq, Seq<(ScalarSeq, MatrixSeq, MatrixSeq)>),
                Error,
            >((x@, q@, grecs)));
            if step - 1 >= burn {
                assert(records@ == old_records.push((records@[records@.len() - 1])));
                assert forall|i: int| 0 <= i < records@.len() implies fwd_views(records@)[i]
                    == grecs.subrange(burn as int, step as int)[i] by {
                    if i < records@.len() - 1 {
                        assert(fwd_views(old_records)[i] == old_grecs.subrange(
                            burn as int,
                            (step - 1) as int,
                        )[i]);
                    }
                }
                assert(fwd_views(records@) =~= grecs
                    .subrange(burn as int, step as int));
            } else {
                assert(fwd_views(records@) =~= grecs
                    .subrange(
                    if step >= burn {
                        burn as int
                    } else {
                        step as int
                    },
                    step as int,
                ));
            }
        }
    }
    let ghost gfwd = (x@, q@, grecs);
    let ghost gkept = grecs.subrange(burn as int, total as int);
    proof {
        assert(fwd_views(records@) == gkept);
        assert(gkept.len() == keep);
    }
    // Backward pass: walk the retained triples from the latest to the
    // earliest, threading the coefficient matrix through the triangular
    // solves.
    let mut c = Mat::eye(n);
    let mut rev: Vec<(Vec<u64>, Mat, Vec<u64>)> = Vec::new();
    proof {
        assert(gkept.subrange(0, records@.len() as int) =~= gkept);
        assert(rec_views(rev@) + Seq::<
            (ScalarSeq, MatrixSeq, ScalarSeq),
        >::empty() =~= Seq::<(ScalarSeq, MatrixSeq, ScalarSeq)>::empty());
    }
    while records.len() > 0
        invariant
            duration > 0,
            pos_bits(alpha),
            x0s == x0@,
            n == x0s.len(),
            burn == burn_in(duration as nat),
            keep == duration + burn,
            total == burn + keep,
            teo.advance_spec(x0s).len() == n,
            c.n() == n,
            records@.len() + rev@.len() == keep,
            fwd(*teo, *kernel, x0s, alpha, n as nat, total as nat) == Ok::<
                (ScalarSeq, MatrixSeq, Seq<(ScalarSeq, MatrixSeq, MatrixSeq)>),
                Error,
            >(gfwd),
            gkept == gfwd.2.subrange(burn as int, total as int),
            gkept.len() == keep,
            fwd_views(records@) == gkept.subrange(
                0,
                records@.len() as int,
            ),
            bwd(*kernel, gkept, eye_seq(n as nat), n as nat) == (match bwd(
                *kernel,
                gkept.subrange(0, records@.len() as int),
                c@,
                n as nat,
            ) {
                Ok(rest) => Ok::<Seq<(ScalarSeq, MatrixSeq, ScalarSeq)>, Error>(
                    rec_views(rev@) + rest,
                ),
                Err(e) => Err::<Seq<(ScalarSeq, MatrixSeq, ScalarSeq)>, Error>(e),
            }),
            forall|i: int|
                0 <= i < records@.len() ==> {
                    &&& (#[trigger] records@[i]).0@ == orbit(*teo, x0s, (burn + i) as nat)
                    &&& records@[i].0@.len() == n
                    &&& records@[i].1.n() == n
                    &&& records@[i].2.n() == n
                },
            forall|t: int|
                0 <= t < rev@.len() ==> {
                    &&& (#[trigger] rev@[t]).0@ == orbit(*teo, x0s, (burn + keep - 1 - t) as nat)
                    &&& rev@[t].0@.len() == n
                    &&& rev@[t].1.n() == n
                    &&& rev@[t].2@.len() == n
                },
        decreases records@.len(),
    {
        let ghost old_len = records@.len() as int;
        let ghost old_records = records@;
        let ghost sub_m = gkept.subrange(0, old_len);
        let ghost old_c = c@;
        let ghost old_rev = rev@;
        let (x_t, q_t, r_t) = match records.pop() {
            Some(rec) => rec,
            None => {
                proof {
                    assert(false);
                }
                return Err(Error::InvalidParameter);
            },
        };
        proof {
            assert(fwd_views(old_records)[old_len - 1] == (x_t@, q_t@, r_t@));
            assert(sub_m.last() == (x_t@, q_t@, r_t@));
            assert(gkept.subrange(0, records@.len() as int) =~= sub_m.drop_last());
            assert forall|i: int| 0 <= i < records@.len() implies fwd_views(records@)[i]
                == gkept.subrange(0, records@.len() as int)[i] by {
                assert(fwd_views(old_records)[i] == sub_m[i]);
            }
            assert(fwd_views(records@) =~= gkept.subrange(0, records@.len() as int));
        }
        let (c_now, f) = match clv_backward(kernel, &c, &r_t) {
            Ok(p) => p,
            Err(e) => {
                proof {
                    assert(bwd(*kernel, sub_m, old_c, n as nat) == Err::<
                        Seq<(ScalarSeq, MatrixSeq, ScalarSeq)>,
                        Error,
                    >(e));
                }
                return Err(e);
            },
        };
        let v = kernel.matmul(&q_t, &c_now);
        if v.dim() != n {
            proof {
                assert(bwd(*kernel, sub_m, old_c, n as nat) == Err::<
                    Seq<(ScalarSeq, MatrixSeq, ScalarSeq)>,
                    Error,
                >(Error::InvalidParameter));
            }
            return Err(Error::InvalidParameter);
        }
        rev.push((x_t, v, f));
        c = c_now;
        proof {
            let sub_new = gkept.subrange(0, records@.len() as int);
            assert(bwd(*kernel, sub_m, old_c, n as nat) == (match bwd(
                *kernel,
                sub_new,
                c@,
                n as nat,
            ) {
                Ok(rest) => Ok::<Seq<(ScalarSeq, MatrixSeq, ScalarSeq)>, Error>(
                    seq![(x_t@, v@, f@)] + rest,
                ),
                Err(e) => Err::<Seq<(ScalarSeq, MatrixSeq, ScalarSeq)>, Error>(e),
            }));
            assert(rec_views(rev@) =~= rec_views(old_rev).push((x_t@, v@, f@)));
            let rnew = bwd(*kernel, sub_new, c@, n as nat);
            if rnew is Ok {
                let rest = rnew->Ok_0;
                assert(rec_views(old_rev) + (seq![(x_t@, v@, f@)] + rest) =~= rec_views(rev@)
                    + rest);
                assert(bwd(*kernel, gkept, eye_seq(n as nat), n as nat) == Ok::<
                    Seq<(ScalarSeq, MatrixSeq, ScalarSeq)>,
                    Error,
                >(rec_views(rev@) + rest));
            } else {
                assert(bwd(*kernel, gkept, eye_seq(n as nat), n as nat) == rnew);
            }
        }
    }
    proof {
        assert(gkept.subrange(0, 0) =~= Seq::<(ScalarSeq, MatrixSeq, MatrixSeq)>::empty());
        assert(rec_views(rev@) + Seq::<
            (ScalarSeq, MatrixSeq, ScalarSeq),
        >::empty() =~= rec_views(rev@));
    }
    let ghost gem = rec_views(rev@);
    // Trim the trailing margin (emitted first) and restore chronological
    // order.
    let mut out: Vec<(Vec<u64>, Mat, Vec<u64>)> = Vec::new();
    let mut t: usize = 0;
    while t < duration
        invariant
            duration > 0,
            pos_bits(alpha),
            x0s == x0@,
            n == x0s.len(),
            burn == burn_in(duration as nat),
            keep == duration + burn,
            total == burn + keep,
            teo.advance_spec(x0s).len() == n,
            t <= duration,
            rev@.len() == keep - t,
            out@.len() == t,
            gem.len() == keep,
            fwd(*teo, *kernel, x0s, alpha, n as nat, total as nat) == Ok::<
                (ScalarSeq, MatrixSeq, Seq<(ScalarSeq, MatrixSeq, MatrixSeq)>),
                Error,
            >(gfwd),
            gkept == gfwd.2.subrange(burn as int, total as int),
            bwd(*kernel, gkept, eye_seq(n as nat), n as nat) == Ok::<
                Seq<(ScalarSeq, MatrixSeq, ScalarSeq)>,
                Error,
            >(gem),
            rec_views(rev@) == gem.subrange(
                0,
                (keep - t) as int,
            ),
            forall|i: int|
                0 <= i < out@.len() ==> ((#[trigger] out@[i]).0@, out@[i].1@, out@[i].2@) == gem[
                    keep - 1 - i
                ],
            forall|i: int|
                0 <= i < out@.len() ==> {
                    &&& (#[trigger] out@[i]).0@ == orbit(*teo, x0s, (burn + i) as nat)
                    &&& out@[i].0@.len() == n
                    &&& out@[i].1.n() == n
                    &&& out@[i].2@.len() == n
                },
            forall|s2: int|
                0 <= s2 < rev@.len() ==> {
                    &&& (#[trigger] rev@[s2]).0@ == orbit(*teo, x0s, (burn + keep - 1 - s2) as nat)
                    &&& rev@[s2].0@.len() == n
                    &&& rev@[s2].1.n() == n
                    &&& rev@[s2].2@.len() == n
                },
        decreases duration - t,
    {
        let ghost old_rev = rev@;
        let rec = match rev.pop() {
            Some(rec) => rec,
            None => {
                proof {
                    assert(false);
                }
                return Err(Error::InvalidParameter);
            },
        };
        proof {
            assert(rec_views(old_rev).last()
                == (rec.0@, rec.1@, rec.2@));
            assert(rec_views(rev@) =~= gem
                .subrange(0, (keep - t - 1) as int));
        }
        out.push(rec);
        t += 1;
    }
    Ok(out)
}

} // verus!
