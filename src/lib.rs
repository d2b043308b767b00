//! Dense vectors and matrices over a generic element type, with
//! elementwise arithmetic, dot products and square-matrix helpers.
pub mod laws;
pub mod matrix;
pub mod num;
pub mod ops;
pub mod sqrmat;
pub mod vector;

pub use matrix::Matrix;
pub use num::{Arith, One, Zero};
pub use ops::{Dot, LinalgError};
pub use sqrmat::{SqrMat, SquareMatrix};
pub use vector::Vector;
