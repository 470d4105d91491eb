use lyapunov::{clv, exponents, time_series, Error, Kernel, Mat, NumDifferentiable, TimeEvolution};
use std::cell::RefCell;
use vstd::prelude::Seq;

// ---------- scalar and matrix helpers ----------

fn fb(x: f64) -> u64 {
    x.to_bits()
}

fn bf(x: u64) -> f64 {
    f64::from_bits(x)
}

fn vec_fb(v: &[f64]) -> Vec<u64> {
    v.iter().map(|&x| fb(x)).collect()
}

fn vec_bf(v: &[u64]) -> Vec<f64> {
    v.iter().map(|&x| bf(x)).collect()
}

fn mat_cols(m: &Mat) -> Vec<Vec<f64>> {
    (0..m.dim()).map(|j| vec_bf(m.col(j))).collect()
}

fn mat_from(cols: Vec<Vec<f64>>) -> Mat {
    Mat::from_cols(cols.into_iter().map(|c| vec_fb(&c)).collect()).unwrap()
}

// ---------- a plain dense kernel, column-major ----------

fn qr_f(a: &[Vec<f64>]) -> Option<(Vec<Vec<f64>>, Vec<Vec<f64>>)> {
    let n = a.len();
    let mut q: Vec<Vec<f64>> = Vec::new();
    let mut r = vec![vec![0.0; n]; n];
    for j in 0..n {
        let mut v = a[j].clone();
        for i in 0..j {
            let dot: f64 = (0..n).map(|t| q[i][t] * v[t]).sum();
            r[j][i] = dot;
            for t in 0..n {
                v[t] -= dot * q[i][t];
            }
        }
        let nrm = v.iter().map(|x| x * x).sum::<f64>().sqrt();
        if !(nrm > 1e-154) {
            return None;
        }
        r[j][j] = nrm;
        q.push(v.iter().map(|x| x / nrm).collect());
    }
    Some((q, r))
}

/// Factorizes like a LAPACK-style kernel that never declines: a
/// rank-deficient column yields a zero diagonal entry instead of an error.
fn qr_lax_f(a: &[Vec<f64>]) -> (Vec<Vec<f64>>, Vec<Vec<f64>>) {
    let n = a.len();
    let mut q: Vec<Vec<f64>> = Vec::new();
    let mut r = vec![vec![0.0; n]; n];
    for j in 0..n {
        let mut v = a[j].clone();
        for i in 0..j {
            let dot: f64 = (0..n).map(|t| q[i][t] * v[t]).sum();
            r[j][i] = dot;
            for t in 0..n {
                v[t] -= dot * q[i][t];
            }
        }
        let nrm = v.iter().map(|x| x * x).sum::<f64>().sqrt();
        if nrm > 1e-154 {
            r[j][j] = nrm;
            q.push(v.iter().map(|x| x / nrm).collect());
        } else {
            r[j][j] = 0.0;
            let mut e = vec![0.0; n];
            e[j] = 1.0;
            q.push(e);
        }
    }
    (q, r)
}

fn solve_upper_f(r: &[Vec<f64>], c: &[Vec<f64>]) -> Option<Vec<Vec<f64>>> {
    let n = r.len();
    for i in 0..n {
        if r[i][i].abs() < 1e-300 {
            return None;
        }
    }
    let mut out: Vec<Vec<f64>> = Vec::new();
    for cj in c.iter() {
        let mut x = vec![0.0; n];
        for ii in (0..n).rev() {
            let mut s = cj[ii];
            for k in (ii + 1)..n {
                s -= r[k][ii] * x[k];
            }
            x[ii] = s / r[ii][ii];
        }
        out.push(x);
    }
    Some(out)
}

fn matmul_f(a: &[Vec<f64>], b: &[Vec<f64>]) -> Vec<Vec<f64>> {
    let n = a.len();
    let mut out: Vec<Vec<f64>> = Vec::new();
    for bj in b.iter() {
        let mut col = vec![0.0; n];
        for i in 0..n {
            let mut s = 0.0;
            for k in 0..n {
                s += a[k][i] * bj[k];
            }
            col[i] = s;
        }
        out.push(col);
    }
    out
}

struct TestKernel {
    logged_q: RefCell<Vec<Vec<Vec<f64>>>>,
    fail_solve: bool,
    lax_qr: bool,
}

impl TestKernel {
    fn new() -> Self {
        TestKernel { logged_q: RefCell::new(Vec::new()), fail_solve: false, lax_qr: false }
    }
}

impl Kernel for TestKernel {
    fn norm_l2_spec(&self, _v: Seq<u64>) -> u64 {
        panic!()
    }

    fn max_scalar_spec(&self, _a: u64, _b: u64) -> u64 {
        panic!()
    }

    fn div_scalar_spec(&self, _a: u64, _b: u64) -> u64 {
        panic!()
    }

    fn scale_add_spec(&self, _s: u64, _dx: Seq<u64>, _x: Seq<u64>) -> Seq<u64> {
        panic!()
    }

    fn sub_div_spec(&self, _y: Seq<u64>, _fx: Seq<u64>, _s: u64) -> Seq<u64> {
        panic!()
    }

    fn qr_spec(&self, _m: Seq<Seq<u64>>) -> Option<(Seq<Seq<u64>>, Seq<Seq<u64>>)> {
        panic!()
    }

    fn log_abs_diag_spec(&self, _r: Seq<Seq<u64>>) -> Seq<u64> {
        panic!()
    }

    fn add_vec_spec(&self, _a: Seq<u64>, _b: Seq<u64>) -> Seq<u64> {
        panic!()
    }

    fn scale_sum_spec(&self, _sum: Seq<u64>, _dt: u64, _steps: usize) -> Seq<u64> {
        panic!()
    }

    fn solve_upper_spec(&self, _r: Seq<Seq<u64>>, _c: Seq<Seq<u64>>) -> Option<Seq<Seq<u64>>> {
        panic!()
    }

    fn normalize_columns_spec(&self, _m: Seq<Seq<u64>>) -> (Seq<Seq<u64>>, Seq<u64>) {
        panic!()
    }

    fn recip_spec(&self, _v: Seq<u64>) -> Seq<u64> {
        panic!()
    }

    fn matmul_spec(&self, _a: Seq<Seq<u64>>, _b: Seq<Seq<u64>>) -> Seq<Seq<u64>> {
        panic!()
    }
    fn norm_l2(&self, v: &Vec<u64>) -> u64 {
        fb(vec_bf(v).iter().map(|x| x * x).sum::<f64>().sqrt())
    }

    fn max_scalar(&self, a: u64, b: u64) -> u64 {
        fb(bf(a).max(bf(b)))
    }

    fn div_scalar(&self, a: u64, b: u64) -> u64 {
        fb(bf(a) / bf(b))
    }

    fn scale_add(&self, s: u64, dx: &Vec<u64>, x: &Vec<u64>) -> Vec<u64> {
        let sf = bf(s);
        dx.iter().zip(x.iter()).map(|(&d, &xx)| fb(sf * bf(d) + bf(xx))).collect()
    }

    fn sub_div(&self, y: &Vec<u64>, fx: &Vec<u64>, s: u64) -> Vec<u64> {
        let sf = bf(s);
        y.iter().zip(fx.iter()).map(|(&a, &b)| fb((bf(a) - bf(b)) / sf)).collect()
    }

    fn qr(&self, m: &Mat) -> Option<(Mat, Mat)> {
        let a = mat_cols(m);
        if self.lax_qr {
            let (q, r) = qr_lax_f(&a);
            return Some((mat_from(q), mat_from(r)));
        }
        let (q, r) = qr_f(&a)?;
        self.logged_q.borrow_mut().push(q.clone());
        Some((mat_from(q), mat_from(r)))
    }

    fn log_abs_diag(&self, r: &Mat) -> Vec<u64> {
        (0..r.dim()).map(|j| fb(bf(r.col(j)[j]).abs().ln())).collect()
    }

    fn add_vec(&self, a: &Vec<u64>, b: &Vec<u64>) -> Vec<u64> {
        a.iter().zip(b.iter()).map(|(&x, &y)| fb(bf(x) + bf(y))).collect()
    }

    fn scale_sum(&self, sum: &Vec<u64>, dt: u64, steps: usize) -> Vec<u64> {
        let d = bf(dt) * steps as f64;
        sum.iter().map(|&x| fb(bf(x) / d)).collect()
    }

    fn solve_upper(&self, r: &Mat, c: &Mat) -> Option<Mat> {
        if self.fail_solve {
            return None;
        }
        let sol = solve_upper_f(&mat_cols(r), &mat_cols(c))?;
        Some(mat_from(sol))
    }

    fn normalize_columns(&self, m: &Mat) -> (Mat, Vec<u64>) {
        let cols = mat_cols(m);
        let norms: Vec<f64> = cols.iter().map(|c| c.iter().map(|x| x * x).sum::<f64>().sqrt()).collect();
        let normed: Vec<Vec<f64>> =
            cols.iter().zip(norms.iter()).map(|(c, &nn)| c.iter().map(|x| x / nn).collect()).collect();
        (mat_from(normed), vec_fb(&norms))
    }

    fn recip(&self, v: &Vec<u64>) -> Vec<u64> {
        v.iter().map(|&x| fb(1.0 / bf(x))).collect()
    }

    fn matmul(&self, a: &Mat, b: &Mat) -> Mat {
        mat_from(matmul_f(&mat_cols(a), &mat_cols(b)))
    }
}

// ---------- example dynamical systems ----------

struct Logistic {
    r: f64,
}

impl TimeEvolution for Logistic {
    fn advance_spec(&self, _x: Seq<u64>) -> Seq<u64> {
        panic!()
    }

    fn dt_spec(&self) -> u64 {
        panic!()
    }

    fn advance(&self, x: &Vec<u64>) -> Vec<u64> {
        let v = bf(x[0]);
        vec![fb(self.r * v * (1.0 - v))]
    }

    fn time_step(&self) -> u64 {
        fb(1.0)
    }
}

/// advance(x) = A * x for a fixed matrix A, stored by rows.
struct LinearMap {
    a: Vec<Vec<f64>>,
}

impl TimeEvolution for LinearMap {
    fn advance_spec(&self, _x: Seq<u64>) -> Seq<u64> {
        panic!()
    }

    fn dt_spec(&self) -> u64 {
        panic!()
    }

    fn advance(&self, x: &Vec<u64>) -> Vec<u64> {
        let xf = vec_bf(x);
        self.a.iter().map(|row| fb(row.iter().zip(xf.iter()).map(|(r, v)| r * v).sum())).collect()
    }

    fn time_step(&self) -> u64 {
        fb(1.0)
    }
}

/// advance(x) = x: the Jacobian is exactly the identity.
struct IdentityMap;

impl TimeEvolution for IdentityMap {
    fn advance_spec(&self, _x: Seq<u64>) -> Seq<u64> {
        panic!()
    }

    fn dt_spec(&self) -> u64 {
        panic!()
    }

    fn advance(&self, x: &Vec<u64>) -> Vec<u64> {
        x.clone()
    }

    fn time_step(&self) -> u64 {
        fb(1.0)
    }
}

/// Collapses every state to one point: the Jacobian is numerically zero.
struct CollapseMap;

impl TimeEvolution for CollapseMap {
    fn advance_spec(&self, _x: Seq<u64>) -> Seq<u64> {
        panic!()
    }

    fn dt_spec(&self) -> u64 {
        panic!()
    }

    fn advance(&self, x: &Vec<u64>) -> Vec<u64> {
        x.iter().map(|_| fb(0.25)).collect()
    }

    fn time_step(&self) -> u64 {
        fb(1.0)
    }
}

/// Hands back a state of the wrong dimension.
struct BadDimMap;

impl TimeEvolution for BadDimMap {
    fn advance_spec(&self, _x: Seq<u64>) -> Seq<u64> {
        panic!()
    }

    fn dt_spec(&self) -> u64 {
        panic!()
    }

    fn advance(&self, x: &Vec<u64>) -> Vec<u64> {
        let mut y = x.clone();
        y.push(fb(0.0));
        y
    }

    fn time_step(&self) -> u64 {
        fb(1.0)
    }
}

fn two_d_map() -> LinearMap {
    LinearMap { a: vec![vec![0.4, 1.1], vec![-0.9, 0.2]] }
}

// ---------- matrix basics ----------

#[test]
fn eye_holds_unit_bit_patterns() {
    let m = Mat::eye(3);
    assert_eq!(m.dim(), 3);
    for j in 0..3 {
        let c = m.col(j);
        assert_eq!(c.len(), 3);
        for i in 0..3 {
            let want = if i == j { 1.0 } else { 0.0 };
            assert_eq!(bf(c[i]), want);
        }
    }
}

#[test]
fn from_cols_rejects_ragged_columns() {
    let cols = vec![vec_fb(&[1.0, 2.0]), vec_fb(&[3.0])];
    assert!(Mat::from_cols(cols).is_none());
    let square = vec![vec_fb(&[1.0, 2.0]), vec_fb(&[3.0, 4.0])];
    assert!(Mat::from_cols(square).is_some());
}

// ---------- the orbit adaptor ----------

#[test]
fn time_series_advances_then_emits() {
    let teo = Logistic { r: 3.7 };
    let x0 = 0.42;
    let mut ts = time_series(vec![fb(x0)], teo);
    let mut expect = x0;
    for _ in 0..5 {
        expect = 3.7 * expect * (1.0 - expect);
        let got = ts.next_state();
        assert_eq!(bf(got[0]), expect);
    }
}

// ---------- the numerical Jacobian operator ----------

#[test]
fn directional_product_exact_for_linear_map() {
    let teo = two_d_map();
    let kernel = TestKernel::new();
    let x = vec_fb(&[0.7, -1.3]);
    let dx = vec_fb(&[0.6, 0.8]);
    // A * dx computed directly.
    let want = [0.4 * 0.6 + 1.1 * 0.8, -0.9 * 0.6 + 0.2 * 0.8];
    for alpha in [1e-2, 1e-4, 1e-6] {
        let j = teo.jacobian(x.clone(), fb(alpha));
        let got = vec_bf(&j.dot_vec(&teo, &kernel, &dx).unwrap());
        for i in 0..2 {
            assert!((got[i] - want[i]).abs() < 1e-8, "alpha {alpha}: {got:?} vs {want:?}");
        }
    }
}

#[test]
fn directional_product_against_matrix_is_columnwise() {
    let teo = two_d_map();
    let kernel = TestKernel::new();
    let x = vec_fb(&[0.2, 0.1]);
    let j = teo.jacobian(x, fb(1e-6));
    let m = j.dot_mat(&teo, &kernel, &Mat::eye(2)).unwrap();
    // Against the identity frame the columns approximate A's columns.
    let got = mat_cols(&m);
    assert!((got[0][0] - 0.4).abs() < 1e-8);
    assert!((got[0][1] - -0.9).abs() < 1e-8);
    assert!((got[1][0] - 1.1).abs() < 1e-8);
    assert!((got[1][1] - 0.2).abs() < 1e-8);
}

// ---------- Lyapunov exponents ----------

#[test]
fn logistic_exponent_near_ln_two() {
    let teo = Logistic { r: 4.0 };
    let kernel = TestKernel::new();
    let got = exponents(&teo, &kernel, vec![fb(0.3)], fb(1e-7), 3000).unwrap();
    assert_eq!(got.len(), 1);
    let lam = bf(got[0]);
    assert!((lam - (2.0f64).ln()).abs() < 0.1, "exponent {lam}");
}

#[test]
fn identity_map_yields_zero_exponents() {
    let teo = IdentityMap;
    let kernel = TestKernel::new();
    let got = exponents(&teo, &kernel, vec_fb(&[0.5, -2.0]), fb(1e-3), 50).unwrap();
    assert_eq!(got.len(), 2);
    for &g in got.iter() {
        assert!(bf(g).abs() < 1e-6, "exponent {}", bf(g));
    }
}

#[test]
fn collapsing_map_reports_degenerate_jacobian() {
    let teo = CollapseMap;
    let kernel = TestKernel::new();
    let got = exponents(&teo, &kernel, vec_fb(&[0.5, 0.6]), fb(1e-6), 50);
    assert_eq!(got, Err(Error::DegenerateJacobian));
}

#[test]
fn invalid_parameters_are_rejected_eagerly() {
    let teo = Logistic { r: 4.0 };
    let kernel = TestKernel::new();
    let x0 = vec![fb(0.3)];
    assert_eq!(exponents(&teo, &kernel, x0.clone(), fb(1e-6), 0), Err(Error::InvalidParameter));
    assert_eq!(exponents(&teo, &kernel, x0.clone(), fb(0.0), 100), Err(Error::InvalidParameter));
    assert_eq!(exponents(&teo, &kernel, x0.clone(), fb(-1e-6), 100), Err(Error::InvalidParameter));
    assert_eq!(exponents(&teo, &kernel, x0.clone(), fb(f64::INFINITY), 100), Err(Error::InvalidParameter));
    assert_eq!(exponents(&teo, &kernel, x0.clone(), f64::NAN.to_bits(), 100), Err(Error::InvalidParameter));
    assert_eq!(clv(&teo, &kernel, x0.clone(), fb(1e-6), 0).unwrap_err(), Error::InvalidParameter);
    assert_eq!(clv(&teo, &kernel, x0, fb(0.0), 10).unwrap_err(), Error::InvalidParameter);
}

#[test]
fn wrong_dimension_capability_is_invalid() {
    let teo = BadDimMap;
    let kernel = TestKernel::new();
    let got = exponents(&teo, &kernel, vec_fb(&[0.1, 0.2]), fb(1e-6), 20);
    assert_eq!(got, Err(Error::InvalidParameter));
}

#[test]
fn frames_stay_orthonormal_through_forward_pass() {
    let teo = two_d_map();
    let kernel = TestKernel::new();
    exponents(&teo, &kernel, vec_fb(&[0.3, 0.8]), fb(1e-7), 40).unwrap();
    let logged = kernel.logged_q.borrow();
    assert!(logged.len() >= 40);
    for q in logged.iter() {
        for a in 0..2 {
            for b in 0..2 {
                let dot: f64 = (0..2).map(|t| q[a][t] * q[b][t]).sum();
                let want = if a == b { 1.0 } else { 0.0 };
                assert!((dot - want).abs() < 1e-10, "frame not orthonormal: {dot}");
            }
        }
    }
}

#[test]
fn longer_duration_tightens_exponent_variance() {
    let kernel = TestKernel::new();
    let starts = [0.12, 0.27, 0.34, 0.41, 0.58, 0.66];
    let variance = |duration: usize| {
        let ests: Vec<f64> = starts
            .iter()
            .map(|&x0| {
                let teo = Logistic { r: 4.0 };
                bf(exponents(&teo, &kernel, vec![fb(x0)], fb(1e-7), duration).unwrap()[0])
            })
            .collect();
        let mean = ests.iter().sum::<f64>() / ests.len() as f64;
        ests.iter().map(|e| (e - mean) * (e - mean)).sum::<f64>() / ests.len() as f64
    };
    assert!(variance(3000) < variance(300));
}

// ---------- covariant Lyapunov vectors ----------

#[test]
fn clv_returns_duration_records_of_the_right_shape() {
    let teo = two_d_map();
    let kernel = TestKernel::new();
    let duration = 7;
    let recs = clv(&teo, &kernel, vec_fb(&[0.3, 0.8]), fb(1e-7), duration).unwrap();
    assert_eq!(recs.len(), duration);
    for (state, v, f) in recs.iter() {
        assert_eq!(state.len(), 2);
        assert_eq!(v.dim(), 2);
        assert_eq!(f.len(), 2);
        for &s in state.iter() {
            assert!(bf(s).is_finite());
        }
        for j in 0..2 {
            for &e in v.col(j).iter() {
                assert!(bf(e).is_finite());
            }
        }
        for &g in f.iter() {
            assert!(bf(g).is_finite());
        }
    }
}

#[test]
fn clv_states_walk_the_orbit_from_burn_in() {
    let teo = Logistic { r: 3.9 };
    let kernel = TestKernel::new();
    let duration = 20;
    let x0 = 0.37;
    let recs = clv(&teo, &kernel, vec![fb(x0)], fb(1e-7), duration).unwrap();
    let burn = duration / 10;
    let mut x = x0;
    let mut states = Vec::new();
    for _ in 0..(burn + duration) {
        states.push(x);
        x = 3.9 * x * (1.0 - x);
    }
    for (i, rec) in recs.iter().enumerate() {
        assert_eq!(bf(rec.0[0]), states[burn + i]);
    }
}

#[test]
fn clv_columns_have_unit_norm() {
    let teo = two_d_map();
    let kernel = TestKernel::new();
    let recs = clv(&teo, &kernel, vec_fb(&[0.5, -0.2]), fb(1e-7), 15).unwrap();
    for (_, v, _) in recs.iter() {
        for j in 0..2 {
            let nrm: f64 = vec_bf(v.col(j)).iter().map(|x| x * x).sum::<f64>().sqrt();
            assert!((nrm - 1.0).abs() < 1e-10, "column norm {nrm}");
        }
    }
}

#[test]
fn failing_triangular_solve_reports_singular_system() {
    let teo = two_d_map();
    let mut kernel = TestKernel::new();
    kernel.fail_solve = true;
    let got = clv(&teo, &kernel, vec_fb(&[0.5, -0.2]), fb(1e-7), 10);
    assert!(matches!(got, Err(Error::SingularSystem)));
}

#[test]
fn jacobian_stores_the_advanced_base_point() {
    let teo = Logistic { r: 4.0 };
    let x = vec![fb(0.3)];
    let j = teo.jacobian(x.clone(), fb(1e-6));
    assert_eq!(j.x, x);
    assert_eq!(bf(j.fx[0]), 4.0 * 0.3 * (1.0 - 0.3));
    assert_eq!(bf(j.alpha), 1e-6);
}

#[test]
fn identity_map_clv_succeeds() {
    let teo = IdentityMap;
    let kernel = TestKernel::new();
    let recs = clv(&teo, &kernel, vec_fb(&[0.4, 1.5]), fb(1e-3), 12).unwrap();
    assert_eq!(recs.len(), 12);
}

#[test]
fn zero_norm_direction_is_rejected_explicitly() {
    let teo = two_d_map();
    let kernel = TestKernel::new();
    let x = vec_fb(&[0.0, 0.0]);
    let dx = vec_fb(&[0.0, 0.0]);
    let j = teo.jacobian(x, fb(1e-6));
    assert_eq!(j.dot_vec(&teo, &kernel, &dx), Err(Error::InvalidParameter));
}

#[test]
fn zero_diagonal_from_lax_kernel_is_degenerate() {
    // A kernel in the LAPACK style factorizes a rank-deficient product
    // without declining; the library still reports the degenerate Jacobian
    // from the zero diagonal entry.
    let teo = CollapseMap;
    let mut kernel = TestKernel::new();
    kernel.lax_qr = true;
    let got = exponents(&teo, &kernel, vec_fb(&[0.5, 0.6]), fb(1e-6), 50);
    assert_eq!(got, Err(Error::DegenerateJacobian));
}
