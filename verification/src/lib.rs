//! Lyapunov analysis for discrete-time dynamical systems given only a
//! black-box state-advance capability: Lyapunov exponents by the Benettin
//! forward QR-propagation method, and covariant Lyapunov vectors by
//! Ginelli's forward-plus-backward two-pass method.
//!
//! Scalars move through this library opaquely, as the bit patterns of
//! IEEE-754 double-precision numbers held in `u64` values. The library never
//! interprets a scalar itself: the state-advance capability
//! ([`evolution::TimeEvolution`]) and the dense linear-algebra kernel
//! ([`evolution::Kernel`]) are collaborators supplied by the caller, and the
//! library verifies the algorithmic structure around them — which state each
//! record belongs to, how frames and factors are threaded through the two
//! passes, how many records come back and in what order, and exactly when
//! each error is reported.

pub mod adaptor;
pub mod evolution;
pub mod lyapunov;
pub mod matrix;

pub use adaptor::{time_series, TimeSeries};
pub use evolution::{Error, Kernel, MatrixSeq, ScalarSeq, TimeEvolution};
pub use lyapunov::{clv, exponents, Jacobian, NumDifferentiable};
pub use matrix::Mat;
