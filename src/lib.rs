//! Sampled signals over integer domains and the index arithmetic of a direct
//! discrete Fourier transform.
//!
//! Sample values are generic: the library fixes which index every sample
//! belongs to, which sample of each source feeds a composite, and which
//! root of unity multiplies each term of a transform. The arithmetic on the
//! values themselves is left to the caller.
pub mod domain;
pub mod signal;
pub mod compose;
pub mod dft;
